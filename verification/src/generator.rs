//! The grid generator: one row-by-row sweep that places a tile in every
//! cell so that neighbouring tiles agree on the edge they share.

use vstd::prelude::*;
use crate::matrix::{in_grid, lemma_index_in_range, lemma_walk_order, walked_before, Matrix};
use crate::tile::{
    constrain_tile, constrained, edge_bit, lemma_constrained_edges, BOTTOM, LEFT, RIGHT, TOP,
};

verus! {

/// Why no grid was generated or no image painted.
#[derive(Debug, Clone, Copy, PartialEq, Eq, Structural)]
pub enum GridError {
    /// The width or the height asked for, of a grid or of an image, is zero.
    InvalidDimension,
    /// The stream holds fewer draws than the grid has cells.
    StreamTooShort,
}

impl GridError {
    /// What went wrong, in words.
    pub open spec fn spec_message(self) -> Seq<char> {
        match self {
            GridError::InvalidDimension => "invalid dimension: width and height must be at least 1"@,
            GridError::StreamTooShort => "stream too short: every cell needs one draw"@,
        }
    }

    /// What went wrong, in words.
    pub fn message(&self) -> (text: String)
        ensures
            text@ == self.spec_message(),
    {
        match self {
            GridError::InvalidDimension => {
                "invalid dimension: width and height must be at least 1".to_string()
            },
            GridError::StreamTooShort => "stream too short: every cell needs one draw".to_string(),
        }
    }
}

/// The nibble drawn for the cell `(x, y)`: the stream's entry for that cell,
/// reduced to four bits.
pub open spec fn nibble_at(stream: Seq<u8>, w: int, x: int, y: int) -> u8 {
    stream[y * w + x] % 16
}

/// The tile that the sweep places at `(x, y)` of a grid `w` cells wide when
/// its draws are `stream`, one entry per cell, row by row.
pub open spec fn expected_tile(stream: Seq<u8>, w: int, x: int, y: int) -> u8 {
    constrained(
        nibble_at(stream, w, x, y),
        if x > 0 {
            Some(nibble_at(stream, w, x - 1, y))
        } else {
            None
        },
        if y > 0 {
            Some(nibble_at(stream, w, x, y - 1))
        } else {
            None
        },
    )
}

/// Whether `grid` is what the sweep makes of the draws in `stream`.
pub open spec fn generated_from(grid: Matrix<u8>, stream: Seq<u8>) -> bool {
    &&& grid.wf()
    &&& stream.len() >= grid.width * grid.height
    &&& forall|x: usize, y: usize| #[trigger]
        in_grid(x, y, grid.width, grid.height) ==> grid.cell(x as int, y as int) == expected_tile(
            stream,
            grid.width as int,
            x as int,
            y as int,
        )
}

/// Whether every tile agrees with its right-hand neighbour on the edge
/// between them.
pub open spec fn rows_match(grid: Matrix<u8>) -> bool {
    forall|x: usize, y: usize| #[trigger]
        in_grid(x, y, grid.width, grid.height) && x + 1 < grid.width ==> edge_bit(
            grid.cell(x as int, y as int),
            RIGHT,
        ) == edge_bit(grid.cell(x + 1, y as int), LEFT)
}

/// Whether every tile agrees with the neighbour below it on the edge between
/// them.
pub open spec fn columns_match(grid: Matrix<u8>) -> bool {
    forall|x: usize, y: usize| #[trigger]
        in_grid(x, y, grid.width, grid.height) && y + 1 < grid.height ==> edge_bit(
            grid.cell(x as int, y as int),
            BOTTOM,
        ) == edge_bit(grid.cell(x as int, y + 1), TOP)
}

/// The edge-matching invariant of a grid of tiles.
pub open spec fn edges_match(grid: Matrix<u8>) -> bool {
    rows_match(grid) && columns_match(grid)
}

/// Whether every cell of `grid` holds an identifier of four bits.
pub open spec fn all_tiles(grid: Matrix<u8>) -> bool {
    forall|x: usize, y: usize| #[trigger]
        in_grid(x, y, grid.width, grid.height) ==> grid.cell(x as int, y as int) < 16
}

/// Every generated grid satisfies the edge-matching invariant, and holds
/// nothing but identifiers of four bits.
pub proof fn lemma_generated_edges_match(grid: Matrix<u8>, stream: Seq<u8>)
    requires
        generated_from(grid, stream),
    ensures
        edges_match(grid),
        all_tiles(grid),
{
    let w = grid.width as int;
    assert forall|x: usize, y: usize| #[trigger]
        in_grid(x, y, grid.width, grid.height) && x + 1 < grid.width implies edge_bit(
        grid.cell(x as int, y as int),
        RIGHT,
    ) == edge_bit(grid.cell(x + 1, y as int), LEFT) by {
        let x1 = (x + 1) as usize;
        assert(in_grid(x1, y, grid.width, grid.height));
        lemma_expected_edges(stream, w, x as int, y as int);
        lemma_expected_edges(stream, w, x1 as int, y as int);
    }
    assert forall|x: usize, y: usize| #[trigger]
        in_grid(x, y, grid.width, grid.height) && y + 1 < grid.height implies edge_bit(
        grid.cell(x as int, y as int),
        BOTTOM,
    ) == edge_bit(grid.cell(x as int, y + 1), TOP) by {
        let y1 = (y + 1) as usize;
        assert(in_grid(x, y1, grid.width, grid.height));
        lemma_expected_edges(stream, w, x as int, y as int);
        lemma_expected_edges(stream, w, x as int, y1 as int);
    }
    assert forall|x: usize, y: usize| #[trigger]
        in_grid(x, y, grid.width, grid.height) implies grid.cell(x as int, y as int) < 16 by {
        lemma_expected_edges(stream, w, x as int, y as int);
    }
}

/// The four edges of the tile that the sweep places at `(x, y)`.
pub proof fn lemma_expected_edges(stream: Seq<u8>, w: int, x: int, y: int)
    ensures
        edge_bit(expected_tile(stream, w, x, y), BOTTOM) == edge_bit(
            nibble_at(stream, w, x, y),
            BOTTOM,
        ),
        edge_bit(expected_tile(stream, w, x, y), RIGHT) == edge_bit(
            nibble_at(stream, w, x, y),
            RIGHT,
        ),
        y > 0 ==> edge_bit(expected_tile(stream, w, x, y), TOP) == edge_bit(
            nibble_at(stream, w, x, y - 1),
            BOTTOM,
        ),
        x > 0 ==> edge_bit(expected_tile(stream, w, x, y), LEFT) == edge_bit(
            nibble_at(stream, w, x - 1, y),
            RIGHT,
        ),
        y <= 0 ==> edge_bit(expected_tile(stream, w, x, y), TOP) == edge_bit(
            nibble_at(stream, w, x, y),
            TOP,
        ),
        x <= 0 ==> edge_bit(expected_tile(stream, w, x, y), LEFT) == edge_bit(
            nibble_at(stream, w, x, y),
            LEFT,
        ),
        expected_tile(stream, w, x, y) < 16,
{
    let left = if x > 0 {
        Some(nibble_at(stream, w, x - 1, y))
    } else {
        None
    };
    let above = if y > 0 {
        Some(nibble_at(stream, w, x, y - 1))
    } else {
        None
    };
    lemma_constrained_edges(nibble_at(stream, w, x, y), left, above);
}

/// The sweep is a function of its draws: two grids of the same size made
/// from streams that agree on the draws of every cell are equal, cell by cell.
pub proof fn lemma_generation_deterministic(
    first: Matrix<u8>,
    second: Matrix<u8>,
    draws: Seq<u8>,
    again: Seq<u8>,
)
    requires
        generated_from(first, draws),
        generated_from(second, again),
        first.width == second.width,
        first.height == second.height,
        forall|i: int| 0 <= i < first.width * first.height ==> draws[i] == again[i],
    ensures
        first.data@ == second.data@,
{
    let w = first.width as int;
    let h = first.height as int;
    assert forall|i: int| 0 <= i < w * h implies first.data@[i] == second.data@[i] by {
        assert(w > 0) by (nonlinear_arith)
            requires
                0 <= i < w * h,
                0 <= w,
                0 <= h,
        ;
        let x = i % w;
        let y = i / w;
        vstd::arithmetic::div_mod::lemma_fundamental_div_mod(i, w);
        vstd::arithmetic::div_mod::lemma_mod_bound(i, w);
        assert(0 <= y < h) by (nonlinear_arith)
            requires
                i == w * y + x,
                0 <= x < w,
                0 <= i < w * h,
        ;
        assert(w * y == y * w) by (nonlinear_arith);
        assert(in_grid(x as usize, y as usize, first.width, first.height));
        lemma_index_in_range(x, y, w, h);
        if x > 0 {
            lemma_index_in_range(x - 1, y, w, h);
        }
        if y > 0 {
            lemma_index_in_range(x, y - 1, w, h);
        }
    }
    assert(first.data@ =~= second.data@);
}

/// `rand::random::<u8>()`: one byte from the calling thread's random number
/// generator, which the system seeds when the thread first draws. Nothing is
/// claimed about which byte comes back, so whatever is proved of a caller
/// holds for every byte.
#[verifier::external_body]
fn random_byte() -> (byte: u8) {
    rand::random::<u8>()
}

/// Fills a grid row by row. Each cell takes one draw: the next entry of
/// `stream` where there is one, a random byte where there is none.
fn sweep(width: usize, height: usize, stream: Option<&Vec<u8>>) -> (out: (
    Matrix<u8>,
    Ghost<Seq<u8>>,
))
    requires
        width * height <= usize::MAX,
        stream matches Some(s) ==> s.len() >= width * height,
    ensures
        out.0.width == width,
        out.0.height == height,
        generated_from(out.0, out.1@),
        out.1@.len() == width * height,
        stream matches Some(s) ==> forall|i: int|
            0 <= i < width * height ==> out.1@[i] == s@[i],
{
    let mut grid = Matrix::new(width, height, &0u8);
    let ghost mut drawn: Seq<u8> = Seq::empty();
    let mut k: usize = 0;
    while k < height
        invariant
            k <= height,
            grid.wf(),
            grid.width == width,
            grid.height == height,
            width * height <= usize::MAX,
            stream matches Some(s) ==> s.len() >= width * height,
            drawn.len() == k * width,
            stream matches Some(s) ==> forall|i: int| 0 <= i < drawn.len() ==> drawn[i] == s@[i],
            forall|x: usize, y: usize| #[trigger]
                in_grid(x, y, width, height) && y < k ==> grid.cell(x as int, y as int)
                    == expected_tile(drawn, width as int, x as int, y as int),
        decreases height - k,
    {
        let mut l: usize = 0;
        while l < width
            invariant
                k < height,
                l <= width,
                grid.wf(),
                grid.width == width,
                grid.height == height,
                width * height <= usize::MAX,
                stream matches Some(s) ==> s.len() >= width * height,
                drawn.len() == k * width + l,
                stream matches Some(s) ==> forall|i: int|
                    0 <= i < drawn.len() ==> drawn[i] == s@[i],
                forall|x: usize, y: usize| #[trigger]
                    in_grid(x, y, width, height) && walked_before(x, y, l, k) ==> grid.cell(
                        x as int,
                        y as int,
                    ) == expected_tile(drawn, width as int, x as int, y as int),
            decreases width - l,
        {
            proof {
                lemma_index_in_range(l as int, k as int, width as int, height as int);
            }
            let byte = match stream {
                Some(s) => s[k * width + l],
                None => random_byte(),
            };
            let left = if l > 0 {
                Some(*grid.at(l - 1, k))
            } else {
                None
            };
            let above = if k > 0 {
                Some(*grid.at(l, k - 1))
            } else {
                None
            };
            let id = constrain_tile(byte % 16, left, above);
            let ghost before = grid;
            let ghost drawn_before = drawn;
            *grid.at_mut(l, k) = id;
            proof {
                drawn = drawn.push(byte);
                let w = width as int;
                assert forall|x: usize, y: usize| #[trigger]
                    in_grid(x, y, width, height) && walked_before(
                        x,
                        y,
                        (l + 1) as usize,
                        k,
                    ) implies grid.cell(x as int, y as int) == expected_tile(
                    drawn,
                    w,
                    x as int,
                    y as int,
                ) by {
                    lemma_walk_order(x as int, y as int, l as int, k as int, w);
                    lemma_index_in_range(x as int, y as int, w, height as int);
                    if x > 0 {
                        lemma_walk_order(x - 1, y as int, l as int, k as int, w);
                        assert(in_grid((x - 1) as usize, y, width, height));
                    }
                    if y > 0 {
                        lemma_walk_order(x as int, y - 1, l as int, k as int, w);
                        assert(in_grid(x, (y - 1) as usize, width, height));
                        assert((y - 1) * w + x == y * w + x - w) by (nonlinear_arith);
                    }
                    if walked_before(x, y, l, k) {
                        assert(grid.cell(x as int, y as int) == before.cell(x as int, y as int));
                        assert(expected_tile(drawn, w, x as int, y as int) == expected_tile(
                            drawn_before,
                            w,
                            x as int,
                            y as int,
                        ));
                    } else {
                        assert(x == l && y == k);
                        assert(grid.cell(x as int, y as int) == id);
                        if x > 0 {
                            lemma_expected_edges(drawn_before, w, x - 1, y as int);
                            assert(nibble_at(drawn, w, x - 1, y as int) == nibble_at(
                                drawn_before,
                                w,
                                x - 1,
                                y as int,
                            ));
                        }
                        if y > 0 {
                            lemma_expected_edges(drawn_before, w, x as int, y - 1);
                            assert(nibble_at(drawn, w, x as int, y - 1) == nibble_at(
                                drawn_before,
                                w,
                                x as int,
                                y - 1,
                            ));
                        }
                    }
                }
            }
            l += 1;
        }
        proof {
            assert forall|x: usize, y: usize| #[trigger]
                in_grid(x, y, width, height) && y < k + 1 implies grid.cell(x as int, y as int)
                == expected_tile(drawn, width as int, x as int, y as int) by {
                assert(walked_before(x, y, l, k));
            }
            assert(k * width + width == (k + 1) * width) by (nonlinear_arith);
        }
        k += 1;
    }
    proof {
        assert(k * width == width * height) by (nonlinear_arith)
            requires
                k == height,
        ;
    }
    (grid, Ghost(drawn))
}

/// Generates a grid of `width` by `height` tiles from the draws in `nibbles`,
/// one entry per cell, row by row; each entry is reduced to four bits. The
/// grid is the one that `expected_tile` describes, so equal draws give equal
/// grids.
pub fn generate_grid_from(width: usize, height: usize, nibbles: &Vec<u8>) -> (res: Result<
    Matrix<u8>,
    GridError,
>)
    ensures
        width == 0 || height == 0 <==> res == Err::<Matrix<u8>, GridError>(
            GridError::InvalidDimension,
        ),
        width > 0 && height > 0 && nibbles.len() < width * height <==> res == Err::<
            Matrix<u8>,
            GridError,
        >(GridError::StreamTooShort),
        width > 0 && height > 0 && nibbles.len() >= width * height <==> res is Ok,
        res matches Ok(grid) ==> {
            &&& grid.wf()
            &&& grid.width == width
            &&& grid.height == height
            &&& generated_from(grid, nibbles@)
            &&& edges_match(grid)
            &&& all_tiles(grid)
        },
{
    if width == 0 || height == 0 {
        return Err(GridError::InvalidDimension);
    }
    let cells = match width.checked_mul(height) {
        Some(cells) => cells,
        None => {
            return Err(GridError::StreamTooShort);
        },
    };
    if nibbles.len() < cells {
        return Err(GridError::StreamTooShort);
    }
    let (grid, Ghost(drawn)) = sweep(width, height, Some(nibbles));
    proof {
        assert forall|x: usize, y: usize| #[trigger]
            in_grid(x, y, width, height) implies grid.cell(x as int, y as int) == expected_tile(
            nibbles@,
            width as int,
            x as int,
            y as int,
        ) by {
            lemma_index_in_range(x as int, y as int, width as int, height as int);
            if x > 0 {
                lemma_index_in_range(x - 1, y as int, width as int, height as int);
            }
            if y > 0 {
                lemma_index_in_range(x as int, y - 1, width as int, height as int);
            }
        }
        lemma_generated_edges_match(grid, nibbles@);
    }
    Ok(grid)
}

/// Generates a grid of `width` by `height` tiles from random draws. Whatever
/// is drawn, the grid is the one that the sweep makes of some stream of
/// draws, and so satisfies the edge-matching invariant.
pub fn generate_grid(width: usize, height: usize) -> (res: Result<Matrix<u8>, GridError>)
    requires
        width * height <= usize::MAX,
    ensures
        width == 0 || height == 0 <==> res == Err::<Matrix<u8>, GridError>(
            GridError::InvalidDimension,
        ),
        width > 0 && height > 0 <==> res is Ok,
        res matches Ok(grid) ==> {
            &&& grid.wf()
            &&& grid.width == width
            &&& grid.height == height
            &&& exists|draws: Seq<u8>| #[trigger] generated_from(grid, draws)
            &&& edges_match(grid)
            &&& all_tiles(grid)
        },
{
    if width == 0 || height == 0 {
        return Err(GridError::InvalidDimension);
    }
    let (grid, Ghost(drawn)) = sweep(width, height, None);
    proof {
        lemma_generated_edges_match(grid, drawn);
    }
    Ok(grid)
}

} // verus!
