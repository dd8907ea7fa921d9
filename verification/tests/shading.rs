use wang_tiles::rgba::RGBA;
use wang_tiles::shader::{region_of, wang_shader};
use wang_tiles::tile::{BOTTOM, LEFT, RIGHT, TOP};

fn shade(id: u8, u: i128, v: i128) -> RGBA {
    let mut frag = RGBA::black();
    wang_shader(&mut frag, u, v, id);
    frag
}

fn inside(edge: u8, u: i128, v: i128) -> bool {
    match edge {
        0 => v <= 0 && v.abs() >= u.abs(),
        1 => u >= 0 && v.abs() <= u.abs(),
        2 => v >= 0 && v.abs() >= u.abs(),
        _ => u <= 0 && v.abs() <= u.abs(),
    }
}

#[test]
fn the_center_belongs_to_the_bottom_region() {
    assert_eq!(region_of(0, 0), BOTTOM);
}

#[test]
fn points_on_the_axes_belong_to_the_edge_they_point_at() {
    assert_eq!(region_of(0, -5), BOTTOM);
    assert_eq!(region_of(5, 0), RIGHT);
    assert_eq!(region_of(0, 5), TOP);
    assert_eq!(region_of(-5, 0), LEFT);
}

#[test]
fn points_inside_a_region_belong_to_it() {
    assert_eq!(region_of(1, -3), BOTTOM);
    assert_eq!(region_of(-2, -3), BOTTOM);
    assert_eq!(region_of(3, 1), RIGHT);
    assert_eq!(region_of(3, -2), RIGHT);
    assert_eq!(region_of(1, 3), TOP);
    assert_eq!(region_of(-2, 3), TOP);
    assert_eq!(region_of(-3, 1), LEFT);
    assert_eq!(region_of(-3, -2), LEFT);
}

#[test]
fn points_on_a_diagonal_go_to_the_first_region_that_holds_them() {
    assert_eq!(region_of(4, -4), BOTTOM);
    assert_eq!(region_of(-4, -4), BOTTOM);
    assert_eq!(region_of(4, 4), RIGHT);
    assert_eq!(region_of(-4, 4), TOP);
}

#[test]
fn the_regions_leave_no_gap() {
    for u in -24i128..=24 {
        for v in -24i128..=24 {
            assert!(inside(0, u, v) || inside(1, u, v) || inside(2, u, v) || inside(3, u, v));
            let edge = region_of(u, v);
            assert!(edge < 4);
            assert!(inside(edge, u, v));
            if u.abs() != v.abs() {
                let holders = (0u8..4).filter(|e| inside(*e, u, v)).count();
                assert_eq!(holders, 1);
            }
        }
    }
}

#[test]
fn the_largest_coordinates_are_classified() {
    assert_eq!(region_of(i128::MIN, i128::MIN), BOTTOM);
    assert_eq!(region_of(i128::MIN, i128::MAX), LEFT);
    assert_eq!(region_of(i128::MAX, i128::MIN), BOTTOM);
    assert_eq!(region_of(i128::MAX, i128::MAX), RIGHT);
    assert_eq!(region_of(0, i128::MIN), BOTTOM);
    assert_eq!(region_of(i128::MIN, 0), LEFT);
}

#[test]
fn a_tile_without_edges_is_white_everywhere() {
    for u in -16i128..=16 {
        for v in -16i128..=16 {
            assert_eq!(shade(0, u, v), RGBA::white());
            assert_eq!(shade(0, u, v), RGBA { r: 255, g: 255, b: 255, a: 255 });
        }
    }
}

#[test]
fn a_tile_with_all_edges_is_red_everywhere() {
    for u in -16i128..=16 {
        for v in -16i128..=16 {
            assert_eq!(shade(15, u, v), RGBA::red());
            assert_eq!(shade(15, u, v), RGBA { r: 255, g: 0, b: 0, a: 255 });
        }
    }
}

#[test]
fn the_shader_gives_red_or_white_and_nothing_else() {
    for id in 0u8..16 {
        for u in -8i128..=8 {
            for v in -8i128..=8 {
                let color = shade(id, u, v);
                assert!(color == RGBA::red() || color == RGBA::white());
                let active = (id >> region_of(u, v)) & 1 == 1;
                assert_eq!(color == RGBA::red(), active);
            }
        }
    }
}

#[test]
fn a_single_active_edge_paints_its_own_region() {
    assert_eq!(shade(1 << BOTTOM, 1, -6), RGBA::red());
    assert_eq!(shade(1 << BOTTOM, 6, 1), RGBA::white());
    assert_eq!(shade(1 << BOTTOM, 1, 6), RGBA::white());
    assert_eq!(shade(1 << BOTTOM, -6, 1), RGBA::white());
    assert_eq!(shade(1 << RIGHT, 6, 1), RGBA::red());
    assert_eq!(shade(1 << RIGHT, 1, -6), RGBA::white());
    assert_eq!(shade(1 << TOP, 1, 6), RGBA::red());
    assert_eq!(shade(1 << TOP, 6, 1), RGBA::white());
    assert_eq!(shade(1 << LEFT, -6, 1), RGBA::red());
    assert_eq!(shade(1 << LEFT, 1, 6), RGBA::white());
}

#[test]
fn the_center_takes_the_color_of_the_bottom_edge() {
    assert_eq!(shade(0b0001, 0, 0), RGBA::red());
    assert_eq!(shade(0b1110, 0, 0), RGBA::white());
}

#[test]
fn bits_above_the_fourth_are_not_read() {
    assert_eq!(shade(0xf0, 3, 1), RGBA::white());
    assert_eq!(shade(0xf2, 3, 1), RGBA::red());
}

#[test]
fn the_shader_overwrites_what_the_fragment_held() {
    let mut frag = RGBA::green();
    wang_shader(&mut frag, 0, 7, 0b0100);
    assert_eq!(frag, RGBA::red());
    wang_shader(&mut frag, 0, 7, 0b1011);
    assert_eq!(frag, RGBA::white());
}
