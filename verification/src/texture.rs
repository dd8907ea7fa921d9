//! A buffer of pixels, and its encoding as a binary PPM image.

use vstd::prelude::*;
use crate::matrix::{in_grid, lemma_index_in_range, visit_cells};
use crate::rgba::RGBA;

verus! {

/// A `width` by `height` image, stored row by row. The pixel in column `x`
/// and row `y` is the element `y * width + x` of `data`.
#[derive(Debug)]
pub struct Texture {
    pub width: usize,
    pub height: usize,
    pub data: Vec<RGBA>,
}

/// The decimal digits of `n` in ASCII, most significant first.
pub open spec fn decimal(n: nat) -> Seq<u8>
    decreases n,
{
    if n < 10 {
        seq![(48 + n) as u8]
    } else {
        decimal(n / 10).push((48 + n % 10) as u8)
    }
}

/// The header of a binary PPM image of the given size: `P6`, a line feed,
/// the width, a space, the height, a space, `255` and a line feed.
pub open spec fn ppm_header(width: nat, height: nat) -> Seq<u8> {
    seq![80u8, 54u8, 10u8] + decimal(width) + seq![32u8] + decimal(height) + seq![
        32u8,
        50u8,
        53u8,
        53u8,
        10u8,
    ]
}

/// The bytes of a row of pixels: red, green and blue of each pixel in turn.
/// The fourth channel is left out.
pub open spec fn pixel_bytes(pixels: Seq<RGBA>) -> Seq<u8> {
    Seq::new(
        3 * pixels.len(),
        |i: int|
            if i % 3 == 0 {
                pixels[i / 3].r
            } else if i % 3 == 1 {
                pixels[i / 3].g
            } else {
                pixels[i / 3].b
            },
    )
}

/// Appends the decimal digits of `n` to `out`.
pub fn push_decimal(out: &mut Vec<u8>, n: usize)
    ensures
        final(out)@ == old(out)@ + decimal(n as nat),
    decreases n,
{
    if n >= 10 {
        push_decimal(out, n / 10);
    }
    let digit: u8 = 48 + (n % 10) as u8;
    out.push(digit);
    assert(out@ =~= old(out)@ + decimal(n as nat));
}

impl Texture {
    /// A texture is well formed when `data` holds exactly one pixel per cell.
    pub open spec fn wf(&self) -> bool {
        self.data.len() == self.width * self.height
    }

    /// The pixel in column `x` and row `y`.
    pub open spec fn cell(&self, x: int, y: int) -> RGBA {
        self.data@[y * self.width + x]
    }

    /// The image as a binary PPM file: the header, then three bytes for each
    /// pixel, row by row.
    pub open spec fn ppm_bytes(&self) -> Seq<u8> {
        ppm_header(self.width as nat, self.height as nat) + pixel_bytes(self.data@)
    }

    /// A black texture of the given size.
    pub fn new(width: usize, height: usize) -> (tex: Texture)
        requires
            width * height <= usize::MAX,
        ensures
            tex.wf(),
            tex.width == width,
            tex.height == height,
            forall|i: int| 0 <= i < width * height ==> #[trigger] tex.data@[i] == RGBA::black(),
    {
        let len = width * height;
        let mut data: Vec<RGBA> = Vec::with_capacity(len);
        let mut i: usize = 0;
        while i < len
            invariant
                i <= len,
                data.len() == i,
                forall|j: int| 0 <= j < i ==> #[trigger] data@[j] == RGBA::black(),
            decreases len - i,
        {
            data.push(RGBA::black());
            i += 1;
        }
        Texture { width, height, data }
    }

    /// A mutable reference to the pixel in column `x` and row `y`. Writing
    /// through it changes that pixel and no other.
    pub fn at(&mut self, x: usize, y: usize) -> (pixel: &mut RGBA)
        requires
            old(self).wf(),
            x < old(self).width,
            y < old(self).height,
        ensures
            *pixel == old(self).cell(x as int, y as int),
            final(self).width == old(self).width,
            final(self).height == old(self).height,
            final(self).data@ == old(self).data@.update(
                y * old(self).width + x,
                *final(pixel),
            ),
    {
        proof {
            lemma_index_in_range(x as int, y as int, self.width as int, self.height as int);
        }
        &mut self.data[y * self.width + x]
    }

    /// Calls `func` once on every pixel, row by row, with the pixel's
    /// coordinates and a mutable reference to it. Each pixel afterwards holds
    /// what `func` left in it.
    pub fn for_each(&mut self, func: impl FnMut((usize, usize), &mut RGBA))
        requires
            old(self).wf(),
            forall|x: usize, y: usize, r: &mut RGBA|
                in_grid(x, y, old(self).width, old(self).height) && *r == old(self).cell(
                    x as int,
                    y as int,
                ) ==> call_requires(func, ((x, y), r)),
        ensures
            final(self).wf(),
            final(self).width == old(self).width,
            final(self).height == old(self).height,
            forall|x: usize, y: usize| #[trigger]
                in_grid(x, y, old(self).width, old(self).height) ==> exists|r: &mut RGBA|
                    *r == old(self).cell(x as int, y as int) && *final(r) == final(self).cell(
                        x as int,
                        y as int,
                    ) && #[trigger] call_ensures(func, ((x, y), r), ()),
    {
        let width = self.width;
        let height = self.height;
        visit_cells(&mut self.data, width, height, func);
    }

    /// Encodes the image as a binary PPM file.
    pub fn encode_ppm(&self) -> (out: Vec<u8>)
        ensures
            out@ == self.ppm_bytes(),
    {
        let mut out: Vec<u8> = Vec::new();
        out.push(80);
        out.push(54);
        out.push(10);
        push_decimal(&mut out, self.width);
        out.push(32);
        push_decimal(&mut out, self.height);
        out.push(32);
        out.push(50);
        out.push(53);
        out.push(53);
        out.push(10);
        let ghost header = ppm_header(self.width as nat, self.height as nat);
        assert(out@ =~= header);
        let mut i: usize = 0;
        while i < self.data.len()
            invariant
                i <= self.data.len(),
                out@ == header + pixel_bytes(self.data@.take(i as int)),
            decreases self.data.len() - i,
        {
            let pixel = self.data[i];
            out.push(pixel.r);
            out.push(pixel.g);
            out.push(pixel.b);
            assert(out@ =~= header + pixel_bytes(self.data@.take(i + 1)));
            i += 1;
        }
        assert(self.data@.take(i as int) =~= self.data@);
        out
    }
}

/// An encoded image is its header followed by three bytes per pixel.
pub proof fn lemma_ppm_length(tex: Texture)
    ensures
        tex.ppm_bytes().len() == ppm_header(tex.width as nat, tex.height as nat).len() + 3
            * tex.data@.len(),
        tex.ppm_bytes().subrange(0, ppm_header(tex.width as nat, tex.height as nat).len() as int)
            == ppm_header(tex.width as nat, tex.height as nat),
{
    let header = ppm_header(tex.width as nat, tex.height as nat);
    assert(tex.ppm_bytes().subrange(0, header.len() as int) =~= header);
}

} // verus!
