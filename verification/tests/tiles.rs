use wang_tiles::tile::{constrain_tile, has_edge, BOTTOM, LEFT, RIGHT, TOP};

#[test]
fn edge_bits_are_bottom_right_top_left() {
    assert_eq!(BOTTOM, 0);
    assert_eq!(RIGHT, 1);
    assert_eq!(TOP, 2);
    assert_eq!(LEFT, 3);
}

#[test]
fn has_edge_reads_one_bit() {
    assert!(has_edge(0b0001, BOTTOM));
    assert!(!has_edge(0b0001, RIGHT));
    assert!(has_edge(0b0010, RIGHT));
    assert!(has_edge(0b0100, TOP));
    assert!(has_edge(0b1000, LEFT));
    assert!(!has_edge(0b0111, LEFT));
    assert!(!has_edge(0, TOP));
}

#[test]
fn constrain_tile_without_neighbours_keeps_the_draw() {
    for nibble in 0u8..16 {
        assert_eq!(constrain_tile(nibble, None, None), nibble);
    }
}

#[test]
fn constrain_tile_copies_the_right_edge_of_the_left_tile() {
    assert_eq!(constrain_tile(0b0000, Some(0b0010), None), 0b1000);
    assert_eq!(constrain_tile(0b1111, Some(0b1101), None), 0b0111);
    assert_eq!(constrain_tile(0b0101, Some(0b0000), None), 0b0101);
}

#[test]
fn constrain_tile_copies_the_bottom_edge_of_the_tile_above() {
    assert_eq!(constrain_tile(0b0000, None, Some(0b0001)), 0b0100);
    assert_eq!(constrain_tile(0b1111, None, Some(0b1110)), 0b1011);
    assert_eq!(constrain_tile(0b0011, None, Some(0b0000)), 0b0011);
}

#[test]
fn constrain_tile_with_both_neighbours() {
    assert_eq!(constrain_tile(0b1111, Some(0b0011), Some(0b0101)), 0b1111);
    assert_eq!(constrain_tile(0b1111, Some(0b0000), Some(0b0000)), 0b0011);
    assert_eq!(constrain_tile(0b0000, Some(0b0010), Some(0b0001)), 0b1100);
    assert_eq!(constrain_tile(0b0110, Some(0b0010), Some(0b1110)), 0b1010);
}

#[test]
fn constrain_tile_is_right_on_every_input() {
    for nibble in 0u8..16 {
        for left in 0u8..16 {
            for above in 0u8..16 {
                let id = constrain_tile(nibble, Some(left), Some(above));
                assert!(id < 16);
                assert_eq!(id & 1, nibble & 1);
                assert_eq!((id >> 1) & 1, (nibble >> 1) & 1);
                assert_eq!((id >> 2) & 1, above & 1);
                assert_eq!((id >> 3) & 1, (left >> 1) & 1);
            }
        }
    }
}
