//! A grid of tiles as text: one line per row, each tile as binary digits.

use vstd::prelude::*;
use crate::matrix::Matrix;
use crate::tile::{edge_bit, has_edge, BOTTOM, LEFT, RIGHT, TOP};

verus! {

/// The binary digits of `n` in ASCII, most significant first.
pub open spec fn binary(n: nat) -> Seq<u8>
    decreases n,
{
    if n < 2 {
        seq![(48 + n) as u8]
    } else {
        binary(n / 2).push((48 + n % 2) as u8)
    }
}

/// The digit that shows one edge of a tile: `1` where it is active, `0`
/// where it is not.
pub open spec fn edge_digit(id: u8, edge: u8) -> u8 {
    if edge_bit(id, edge) {
        49
    } else {
        48
    }
}

/// A tile as text: its left, top, right and bottom edge as four binary
/// digits. A value of more than four bits is written with all its digits.
pub open spec fn tile_text(id: u8) -> Seq<u8> {
    if id < 16 {
        seq![
            edge_digit(id, LEFT),
            edge_digit(id, TOP),
            edge_digit(id, RIGHT),
            edge_digit(id, BOTTOM),
        ]
    } else {
        binary(id as nat)
    }
}

/// The first `cells` tiles of the row `y`, each followed by a space.
pub open spec fn row_text(grid: Matrix<u8>, y: int, cells: nat) -> Seq<u8>
    decreases cells,
{
    if cells == 0 {
        Seq::empty()
    } else {
        row_text(grid, y, (cells - 1) as nat) + tile_text(grid.cell(cells - 1, y)) + seq![32u8]
    }
}

/// The first `rows` rows of the grid, each followed by a line feed.
pub open spec fn grid_text(grid: Matrix<u8>, rows: nat) -> Seq<u8>
    decreases rows,
{
    if rows == 0 {
        Seq::empty()
    } else {
        grid_text(grid, (rows - 1) as nat) + row_text(grid, rows - 1, grid.width as nat) + seq![
            10u8,
        ]
    }
}

/// A tile of four bits, written as four digits, is its value in binary with
/// zeros in front.
pub proof fn lemma_tile_text_value(id: u8)
    requires
        id < 16,
    ensures
        tile_text(id).len() == 4,
        id == (tile_text(id)[0] - 48) * 8 + (tile_text(id)[1] - 48) * 4 + (tile_text(id)[2] - 48)
            * 2 + (tile_text(id)[3] - 48),
{
    assert(id == (if (id >> 3u8) & 1 == 1 {
        8int
    } else {
        0int
    }) + (if (id >> 2u8) & 1 == 1 {
        4int
    } else {
        0int
    }) + (if (id >> 1u8) & 1 == 1 {
        2int
    } else {
        0int
    }) + (if (id >> 0u8) & 1 == 1 {
        1int
    } else {
        0int
    })) by (bit_vector)
        requires
            id < 16,
    ;
}

/// Appends the binary digits of `n` to `out`.
fn push_binary(out: &mut Vec<u8>, n: u8)
    ensures
        final(out)@ == old(out)@ + binary(n as nat),
    decreases n,
{
    if n >= 2 {
        push_binary(out, n / 2);
    }
    out.push(48 + n % 2);
    assert(out@ =~= old(out)@ + binary(n as nat));
}

/// The digit of one edge.
fn digit_of(id: u8, edge: u8) -> (d: u8)
    requires
        edge < 8,
    ensures
        d == edge_digit(id, edge),
{
    if has_edge(id, edge) {
        49
    } else {
        48
    }
}

/// Appends a tile as text to `out`.
pub fn push_tile_text(out: &mut Vec<u8>, id: u8)
    ensures
        final(out)@ == old(out)@ + tile_text(id),
{
    if id < 16 {
        out.push(digit_of(id, LEFT));
        out.push(digit_of(id, TOP));
        out.push(digit_of(id, RIGHT));
        out.push(digit_of(id, BOTTOM));
        assert(out@ =~= old(out)@ + tile_text(id));
    } else {
        push_binary(out, id);
    }
}

/// The grid as text: one line per row, each tile as binary digits followed
/// by a space.
pub fn format_grid(grid: &Matrix<u8>) -> (out: Vec<u8>)
    requires
        grid.wf(),
    ensures
        out@ == grid_text(*grid, grid.height as nat),
{
    let mut out: Vec<u8> = Vec::new();
    let mut k: usize = 0;
    while k < grid.height
        invariant
            k <= grid.height,
            grid.wf(),
            out@ == grid_text(*grid, k as nat),
        decreases grid.height - k,
    {
        let ghost start = out@;
        let mut l: usize = 0;
        while l < grid.width
            invariant
                k < grid.height,
                l <= grid.width,
                grid.wf(),
                out@ == start + row_text(*grid, k as int, l as nat),
            decreases grid.width - l,
        {
            push_tile_text(&mut out, *grid.at(l, k));
            out.push(32);
            assert(out@ =~= start + row_text(*grid, k as int, (l + 1) as nat));
            l += 1;
        }
        out.push(10);
        assert(out@ =~= grid_text(*grid, (k + 1) as nat));
        k += 1;
    }
    out
}

} // verus!
