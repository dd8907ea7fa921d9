//! Image assembly: from a grid of tiles, or from the sixteen tiles
//! themselves, to a texture.

use vstd::prelude::*;
use crate::generator::GridError;
use crate::matrix::{in_grid, Matrix};
use crate::rgba::RGBA;
use crate::shader::{shade, wang_shader};
use crate::texture::Texture;

verus! {

/// The horizontal position inside a tile of the pixel column `frac`, counted
/// from the tile's left border, in units of one `tile`-th: from `-tile` at
/// the left border towards `tile` at the right.
pub open spec fn local_u(frac: int, tile: int) -> int {
    2 * frac - tile
}

/// The vertical position inside a tile of the pixel row `frac`, counted from
/// the tile's top border, in units of one `tile`-th: from `tile` at the top
/// border towards `-tile` at the bottom.
pub open spec fn local_v(frac: int, tile: int) -> int {
    tile - 2 * frac
}

/// The color of the pixel `(x, y)` of the image of `grid` with square tiles
/// of `tile` pixels.
pub open spec fn grid_pixel(grid: &Matrix<u8>, tile: int, x: int, y: int) -> RGBA {
    shade(grid.cell(x / tile, y / tile), local_u(x % tile, tile), local_v(y % tile, tile))
}

/// The color of the pixel `(x, y)` of the sheet of all sixteen tiles, four in
/// a row and in the order of their identifiers, with square tiles of `tile`
/// pixels: the color that the tile's own shading gives the pixel.
pub open spec fn atlas_pixel(tile: int, x: int, y: int) -> RGBA {
    shade(((y / tile) * 4 + x / tile) as u8, local_u(x % tile, tile), local_v(y % tile, tile))
}

/// A pixel of an image that is `cells` tiles wide lies in one of them.
pub proof fn lemma_tile_of_pixel(x: int, tile: int, cells: int)
    requires
        0 <= x < cells * tile,
        0 <= cells,
        0 <= tile,
    ensures
        0 < tile,
        0 <= x / tile < cells,
        0 <= x % tile < tile,
{
    assert(0 < tile) by (nonlinear_arith)
        requires
            0 <= x < cells * tile,
            0 <= cells,
            0 <= tile,
    ;
    vstd::arithmetic::div_mod::lemma_fundamental_div_mod(x, tile);
    vstd::arithmetic::div_mod::lemma_mod_bound(x, tile);
    let q = x / tile;
    assert(0 <= q < cells) by (nonlinear_arith)
        requires
            x == tile * q + x % tile,
            0 <= x % tile < tile,
            0 <= x < cells * tile,
    ;
}

/// The horizontal position of the pixel column `frac` inside a tile of
/// `tile` pixels.
pub fn local_coordinate_u(frac: usize, tile: usize) -> (u: i128)
    ensures
        u == local_u(frac as int, tile as int),
{
    2 * (frac as i128) - (tile as i128)
}

/// The vertical position of the pixel row `frac` inside a tile of `tile`
/// pixels.
pub fn local_coordinate_v(frac: usize, tile: usize) -> (v: i128)
    ensures
        v == local_v(frac as int, tile as int),
{
    (tile as i128) - 2 * (frac as i128)
}

/// Paints a grid of tiles: an image of `grid.width * tile_size` by
/// `grid.height * tile_size` pixels in which every tile of the grid is a
/// square of `tile_size` pixels. An image without pixels is not painted: a
/// tile size of zero, or a grid without columns or rows, is an invalid
/// dimension.
pub fn render_grid(grid: &Matrix<u8>, tile_size: usize) -> (res: Result<Texture, GridError>)
    requires
        grid.wf(),
        (grid.width * tile_size) * (grid.height * tile_size) <= usize::MAX,
        grid.width * tile_size <= usize::MAX,
        grid.height * tile_size <= usize::MAX,
    ensures
        tile_size == 0 || grid.width == 0 || grid.height == 0 <==> res == Err::<
            Texture,
            GridError,
        >(GridError::InvalidDimension),
        tile_size > 0 && grid.width > 0 && grid.height > 0 <==> res is Ok,
        res matches Ok(tex) ==> {
            &&& tex.wf()
            &&& tex.width == grid.width * tile_size
            &&& tex.height == grid.height * tile_size
            &&& forall|x: usize, y: usize| #[trigger]
                in_grid(x, y, tex.width, tex.height) ==> tex.cell(x as int, y as int)
                    == grid_pixel(grid, tile_size as int, x as int, y as int)
        },
{
    if tile_size == 0 || grid.width == 0 || grid.height == 0 {
        return Err(GridError::InvalidDimension);
    }
    let width = grid.width * tile_size;
    let height = grid.height * tile_size;
    let mut tex = Texture::new(width, height);
    let paint = |p: (usize, usize), pixel: &mut RGBA|
        requires
            in_grid(p.0, p.1, width, height),
        ensures
            *final(pixel) == grid_pixel(grid, tile_size as int, p.0 as int, p.1 as int),
        {
            proof {
                lemma_tile_of_pixel(p.0 as int, tile_size as int, grid.width as int);
                lemma_tile_of_pixel(p.1 as int, tile_size as int, grid.height as int);
            }
            let id = *grid.at(p.0 / tile_size, p.1 / tile_size);
            let u = local_coordinate_u(p.0 % tile_size, tile_size);
            let v = local_coordinate_v(p.1 % tile_size, tile_size);
            wang_shader(pixel, u, v, id);
        };
    tex.for_each(paint);
    Ok(tex)
}

/// Paints the sheet of all sixteen tiles, four in a row and in the order of
/// their identifiers, each a square of `tile_size` pixels shaded like a tile
/// of a grid. A tile size of zero is an invalid dimension.
pub fn generate_tiles_image(tile_size: usize) -> (res: Result<Texture, GridError>)
    requires
        (4 * tile_size) * (4 * tile_size) <= usize::MAX,
    ensures
        tile_size == 0 <==> res == Err::<Texture, GridError>(GridError::InvalidDimension),
        tile_size > 0 <==> res is Ok,
        res matches Ok(tex) ==> {
            &&& tex.wf()
            &&& tex.width == 4 * tile_size
            &&& tex.height == 4 * tile_size
            &&& forall|x: usize, y: usize| #[trigger]
                in_grid(x, y, tex.width, tex.height) ==> tex.cell(x as int, y as int)
                    == atlas_pixel(tile_size as int, x as int, y as int)
        },
{
    if tile_size == 0 {
        return Err(GridError::InvalidDimension);
    }
    assert(4 * tile_size <= usize::MAX) by (nonlinear_arith)
        requires
            (4 * tile_size) * (4 * tile_size) <= usize::MAX,
            0 <= tile_size,
    ;
    let width = 4 * tile_size;
    let height = 4 * tile_size;
    let mut tex = Texture::new(width, height);
    let paint = |p: (usize, usize), pixel: &mut RGBA|
        requires
            in_grid(p.0, p.1, width, height),
        ensures
            *final(pixel) == atlas_pixel(tile_size as int, p.0 as int, p.1 as int),
        {
            proof {
                lemma_tile_of_pixel(p.0 as int, tile_size as int, 4);
                lemma_tile_of_pixel(p.1 as int, tile_size as int, 4);
            }
            let idx = p.0 / tile_size;
            let idy = p.1 / tile_size;
            let id = idy * 4 + idx;
            let u = local_coordinate_u(p.0 % tile_size, tile_size);
            let v = local_coordinate_v(p.1 % tile_size, tile_size);
            wang_shader(pixel, u, v, id as u8);
        };
    tex.for_each(paint);
    Ok(tex)
}

} // verus!
