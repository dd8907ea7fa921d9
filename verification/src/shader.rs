//! The tile shader: which color a point of a tile gets.
//!
//! A point of a tile is given by two integers `u` and `v` over a common
//! positive denominator, with the origin at the tile's center, `u` growing to
//! the right and `v` growing to the top. The two diagonals cut the tile into
//! four regions, one at each edge. Every point belongs to one region: a point
//! on a diagonal or at the center, where the regions touch, goes to the first
//! of bottom, right, top, left that contains it.

use vstd::prelude::*;
use crate::rgba::RGBA;
use crate::tile::{edge_bit, has_edge, BOTTOM, LEFT, RIGHT, TOP};

verus! {

/// The distance of `v` from zero.
pub open spec fn abs(v: int) -> int {
    if v < 0 {
        -v
    } else {
        v
    }
}

/// The region at the bottom edge, with its border.
pub open spec fn in_bottom(u: int, v: int) -> bool {
    v <= 0 && abs(v) >= abs(u)
}

/// The region at the right edge, with its border.
pub open spec fn in_right(u: int, v: int) -> bool {
    u >= 0 && abs(v) <= abs(u)
}

/// The region at the top edge, with its border.
pub open spec fn in_top(u: int, v: int) -> bool {
    v >= 0 && abs(v) >= abs(u)
}

/// The region at the left edge, with its border.
pub open spec fn in_left(u: int, v: int) -> bool {
    u <= 0 && abs(v) <= abs(u)
}

/// Whether the point `(u, v)` lies in the region, border included, of the
/// edge at bit position `edge`.
pub open spec fn in_region(edge: u8, u: int, v: int) -> bool {
    if edge == BOTTOM {
        in_bottom(u, v)
    } else if edge == RIGHT {
        in_right(u, v)
    } else if edge == TOP {
        in_top(u, v)
    } else {
        edge == LEFT && in_left(u, v)
    }
}

/// The bit position of the edge whose region owns the point `(u, v)`.
pub open spec fn region(u: int, v: int) -> u8 {
    if in_bottom(u, v) {
        BOTTOM
    } else if in_right(u, v) {
        RIGHT
    } else if in_top(u, v) {
        TOP
    } else {
        LEFT
    }
}

/// The color of the point `(u, v)` of the tile `id`: red where the edge that
/// owns the point is active, white where it is not.
pub open spec fn shade(id: u8, u: int, v: int) -> RGBA {
    if edge_bit(id, region(u, v)) {
        RGBA::spec_red()
    } else {
        RGBA::spec_white()
    }
}

/// The four regions leave no gap: every point lies in at least one.
pub proof fn lemma_regions_cover(u: int, v: int)
    ensures
        in_bottom(u, v) || in_right(u, v) || in_top(u, v) || in_left(u, v),
{
}

/// The region that owns a point contains it, and away from the diagonals no
/// other region does.
pub proof fn lemma_region_owns(u: int, v: int)
    ensures
        region(u, v) < 4,
        in_region(region(u, v), u, v),
        abs(u) != abs(v) ==> forall|edge: u8|
            edge != region(u, v) ==> !#[trigger] in_region(edge, u, v),
{
}

/// The shader gives pure red or pure white and nothing else.
pub proof fn lemma_shade_red_or_white(id: u8, u: int, v: int)
    ensures
        shade(id, u, v) == RGBA::spec_red() || shade(id, u, v) == RGBA::spec_white(),
        shade(id, u, v) == RGBA::spec_red() <==> edge_bit(id, region(u, v)),
{
}

/// Red is only painted inside the region, border included, of an active edge,
/// and white only inside that of an inactive one. Away from the diagonals, a
/// point is red exactly when it lies in the region of an active edge.
pub proof fn lemma_shade_follows_edges(id: u8, u: int, v: int)
    ensures
        shade(id, u, v) == RGBA::spec_red() ==> exists|edge: u8|
            edge < 4 && #[trigger] in_region(edge, u, v) && edge_bit(id, edge),
        shade(id, u, v) == RGBA::spec_white() ==> exists|edge: u8|
            edge < 4 && #[trigger] in_region(edge, u, v) && !edge_bit(id, edge),
        abs(u) != abs(v) ==> (shade(id, u, v) == RGBA::spec_red() <==> exists|edge: u8|
            edge < 4 && #[trigger] in_region(edge, u, v) && edge_bit(id, edge)),
{
    lemma_region_owns(u, v);
    assert(in_region(region(u, v), u, v));
}

/// A tile with no active edge is white everywhere.
pub proof fn lemma_shade_no_edge(id: u8, u: int, v: int)
    requires
        id & 15 == 0,
    ensures
        shade(id, u, v) == RGBA::spec_white(),
{
    lemma_region_owns(u, v);
    let edge = region(u, v);
    assert((id >> edge) & 1 == 0) by (bit_vector)
        requires
            id & 15 == 0,
            edge < 4,
    ;
}

/// A tile with four active edges is red everywhere.
pub proof fn lemma_shade_all_edges(id: u8, u: int, v: int)
    requires
        id & 15 == 15,
    ensures
        shade(id, u, v) == RGBA::spec_red(),
{
    lemma_region_owns(u, v);
    let edge = region(u, v);
    assert((id >> edge) & 1 == 1) by (bit_vector)
        requires
            id & 15 == 15,
            edge < 4,
    ;
}

/// Whether `a` is at least as far from zero as `b`.
fn farther(a: i128, b: i128) -> (r: bool)
    ensures
        r == (abs(a as int) >= abs(b as int)),
{
    let down_a = if a < 0 {
        a
    } else {
        -a
    };
    let down_b = if b < 0 {
        b
    } else {
        -b
    };
    down_a <= down_b
}

/// The bit position of the edge whose region owns the point `(u, v)`.
pub fn region_of(u: i128, v: i128) -> (edge: u8)
    ensures
        edge == region(u as int, v as int),
        edge < 4,
{
    if v <= 0 && farther(v, u) {
        BOTTOM
    } else if u >= 0 && farther(u, v) {
        RIGHT
    } else if v >= 0 && farther(v, u) {
        TOP
    } else {
        LEFT
    }
}

/// Shades the point `(u, v)` of the tile `id` into `frag`: red where the edge
/// that owns the point is active, white where it is not.
pub fn wang_shader(frag: &mut RGBA, u: i128, v: i128, id: u8)
    ensures
        *final(frag) == shade(id, u as int, v as int),
{
    let coeff: u8 = if has_edge(id, region_of(u, v)) {
        255
    } else {
        0
    };
    *frag = RGBA::lerp(&RGBA::red(), &RGBA::white(), coeff);
}

} // verus!
