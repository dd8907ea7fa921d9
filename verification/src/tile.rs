//! Tile identifiers: four bits, one for each edge of a square tile.

use vstd::prelude::*;

verus! {

/// Bit position of the bottom edge.
pub const BOTTOM: u8 = 0;

/// Bit position of the right edge.
pub const RIGHT: u8 = 1;

/// Bit position of the top edge.
pub const TOP: u8 = 2;

/// Bit position of the left edge.
pub const LEFT: u8 = 3;

/// Whether the edge at bit position `edge` of the tile `id` is active.
pub open spec fn edge_bit(id: u8, edge: u8) -> bool {
    (id >> edge) & 1 == 1
}

/// The tile `id` with the edge at bit position `edge` made active (`on`) or
/// inactive, and every other bit as it was.
pub open spec fn with_edge(id: u8, edge: u8, on: bool) -> u8 {
    if on {
        id | (1u8 << edge)
    } else {
        id & !(1u8 << edge)
    }
}

/// The tile that is placed where `nibble` was drawn: its top edge copies the
/// bottom edge of the tile above, its left edge copies the right edge of the
/// tile to the left, and where there is no such neighbour the drawn bit stays.
/// The bottom and right bits are always the drawn ones.
pub open spec fn constrained(nibble: u8, left: Option<u8>, above: Option<u8>) -> u8 {
    let topped = match above {
        Some(a) => with_edge(nibble, TOP, edge_bit(a, BOTTOM)),
        None => nibble,
    };
    match left {
        Some(l) => with_edge(topped, LEFT, edge_bit(l, RIGHT)),
        None => topped,
    }
}

/// Setting one edge gives that edge the chosen state, leaves the other three
/// edges alone, and keeps a four-bit identifier within four bits.
pub proof fn lemma_with_edge(id: u8, edge: u8, on: bool)
    requires
        edge < 4,
    ensures
        edge_bit(with_edge(id, edge, on), edge) == on,
        forall|other: u8|
            other < 4 && other != edge ==> #[trigger] edge_bit(with_edge(id, edge, on), other)
                == edge_bit(id, other),
        id < 16 ==> with_edge(id, edge, on) < 16,
{
    assert(((id | (1u8 << edge)) >> edge) & 1 == 1) by (bit_vector)
        requires
            edge < 4,
    ;
    assert(((id & !(1u8 << edge)) >> edge) & 1 == 0) by (bit_vector)
        requires
            edge < 4,
    ;
    assert(id < 16 ==> (id | (1u8 << edge)) < 16 && (id & !(1u8 << edge)) < 16) by (bit_vector)
        requires
            edge < 4,
    ;
    assert forall|other: u8| other < 4 && other != edge implies #[trigger] edge_bit(
        with_edge(id, edge, on),
        other,
    ) == edge_bit(id, other) by {
        assert(((id | (1u8 << edge)) >> other) & 1 == (id >> other) & 1) by (bit_vector)
            requires
                edge < 4,
                other < 4,
                other != edge,
        ;
        assert(((id & !(1u8 << edge)) >> other) & 1 == (id >> other) & 1) by (bit_vector)
            requires
                edge < 4,
                other < 4,
                other != edge,
        ;
    }
}

/// The four edges of a placed tile, one by one.
pub proof fn lemma_constrained_edges(nibble: u8, left: Option<u8>, above: Option<u8>)
    ensures
        edge_bit(constrained(nibble, left, above), BOTTOM) == edge_bit(nibble, BOTTOM),
        edge_bit(constrained(nibble, left, above), RIGHT) == edge_bit(nibble, RIGHT),
        edge_bit(constrained(nibble, left, above), TOP) == match above {
            Some(a) => edge_bit(a, BOTTOM),
            None => edge_bit(nibble, TOP),
        },
        edge_bit(constrained(nibble, left, above), LEFT) == match left {
            Some(l) => edge_bit(l, RIGHT),
            None => edge_bit(nibble, LEFT),
        },
        nibble < 16 ==> constrained(nibble, left, above) < 16,
{
    let topped = match above {
        Some(a) => with_edge(nibble, TOP, edge_bit(a, BOTTOM)),
        None => nibble,
    };
    if let Some(a) = above {
        lemma_with_edge(nibble, TOP, edge_bit(a, BOTTOM));
    }
    if let Some(l) = left {
        lemma_with_edge(topped, LEFT, edge_bit(l, RIGHT));
    }
}

/// Whether the edge at bit position `edge` of the tile `id` is active.
pub fn has_edge(id: u8, edge: u8) -> (on: bool)
    requires
        edge < 8,
    ensures
        on == edge_bit(id, edge),
{
    (id >> edge) & 1 == 1
}

/// Places a tile: `nibble` with its top bit taken from the bottom bit of the
/// tile above and its left bit from the right bit of the tile to the left,
/// where those neighbours exist.
pub fn constrain_tile(nibble: u8, left: Option<u8>, above: Option<u8>) -> (id: u8)
    ensures
        id == constrained(nibble, left, above),
        nibble < 16 ==> id < 16,
{
    let mut id = nibble;
    if let Some(a) = above {
        let ghost before = id;
        id = (id & !(1u8 << TOP)) | (((a >> BOTTOM) & 1) << TOP);
        assert(id == with_edge(before, TOP, edge_bit(a, BOTTOM))) by (bit_vector)
            requires
                id == (before & !(1u8 << 2u8)) | (((a >> 0u8) & 1) << 2u8),
        ;
    }
    if let Some(l) = left {
        let ghost before = id;
        id = (id & !(1u8 << LEFT)) | (((l >> RIGHT) & 1) << LEFT);
        assert(id == with_edge(before, LEFT, edge_bit(l, RIGHT))) by (bit_vector)
            requires
                id == (before & !(1u8 << 3u8)) | (((l >> 1u8) & 1) << 3u8),
        ;
    }
    proof {
        lemma_constrained_edges(nibble, left, above);
    }
    id
}

} // verus!
