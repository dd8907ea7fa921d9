//! A dense two-dimensional buffer, stored row by row.

use vstd::prelude::*;

verus! {

/// A `width` by `height` buffer. The cell in column `x` and row `y` is the
/// element `y * width + x` of `data`.
#[derive(Debug)]
pub struct Matrix<TP> {
    pub width: usize,
    pub height: usize,
    pub data: Vec<TP>,
}

/// Whether `(x, y)` names a cell of a `w` by `h` buffer.
pub open spec fn in_grid(x: usize, y: usize, w: usize, h: usize) -> bool {
    x < w && y < h
}

/// Whether the cell `(x, y)` comes before the cell `(l, k)` in a row-by-row walk.
pub open spec fn walked_before(x: usize, y: usize, l: usize, k: usize) -> bool {
    y < k || (y == k && x < l)
}

/// The row-major index of a cell lies inside the buffer.
pub proof fn lemma_index_in_range(x: int, y: int, w: int, h: int)
    requires
        0 <= x < w,
        0 <= y < h,
    ensures
        0 <= y * w <= y * w + x < w * h,
{
    assert(0 <= y * w && y * w + w <= w * h) by (nonlinear_arith)
        requires
            0 <= x < w,
            0 <= y < h,
    ;
}

/// A row-by-row walk meets the cells in the order of their row-major indices.
pub proof fn lemma_walk_order(x: int, y: int, l: int, k: int, w: int)
    requires
        0 <= x < w,
        0 <= l <= w,
        0 <= y,
        0 <= k,
    ensures
        (y < k || (y == k && x < l)) <==> y * w + x < k * w + l,
{
    if y < k {
        assert(y * w + w <= k * w) by (nonlinear_arith)
            requires
                y < k,
                0 < w,
        ;
    } else if y > k {
        assert(k * w + w <= y * w) by (nonlinear_arith)
            requires
                k < y,
                0 < w,
        ;
    }
}

/// Calls `func` once on every cell of a row-major buffer, row by row, with the
/// cell's coordinates and a mutable reference to it.
pub fn visit_cells<TP, F: FnMut((usize, usize), &mut TP)>(
    data: &mut Vec<TP>,
    width: usize,
    height: usize,
    mut func: F,
)
    requires
        old(data).len() == width * height,
        forall|x: usize, y: usize, r: &mut TP|
            in_grid(x, y, width, height) && *r == old(data)@[y * width + x] ==> call_requires(
                func,
                ((x, y), r),
            ),
    ensures
        final(data).len() == old(data).len(),
        forall|x: usize, y: usize| #[trigger]
            in_grid(x, y, width, height) ==> exists|r: &mut TP|
                *r == old(data)@[y * width + x] && *final(r) == final(data)@[y * width + x]
                    && #[trigger] call_ensures(func, ((x, y), r), ()),
{
    let ghost orig = data@;
    let ghost func0 = func;
    let mut k: usize = 0;
    while k < height
        invariant
            k <= height,
            func == func0,
            data.len() == width * height,
            orig.len() == width * height,
            forall|x: usize, y: usize, r: &mut TP|
                in_grid(x, y, width, height) && *r == orig[y * width + x] ==> call_requires(
                    func,
                    ((x, y), r),
                ),
            forall|x: usize, y: usize| #[trigger]
                in_grid(x, y, width, height) && y < k ==> exists|r: &mut TP|
                    *r == orig[y * width + x] && *final(r) == data@[y * width + x]
                        && #[trigger] call_ensures(func, ((x, y), r), ()),
            forall|i: int| k * width <= i < width * height ==> data@[i] == orig[i],
        decreases height - k,
    {
        let mut l: usize = 0;
        while l < width
            invariant
                k < height,
                l <= width,
                func == func0,
                data.len() == width * height,
                orig.len() == width * height,
                forall|x: usize, y: usize, r: &mut TP|
                    in_grid(x, y, width, height) && *r == orig[y * width + x] ==> call_requires(
                        func,
                        ((x, y), r),
                    ),
                forall|x: usize, y: usize| #[trigger]
                    in_grid(x, y, width, height) && walked_before(x, y, l, k) ==> exists|
                        r: &mut TP,
                    |
                        *r == orig[y * width + x] && *final(r) == data@[y * width + x]
                            && #[trigger] call_ensures(func, ((x, y), r), ()),
                forall|i: int| k * width + l <= i < width * height ==> data@[i] == orig[i],
            decreases width - l,
        {
            proof {
                lemma_index_in_range(l as int, k as int, width as int, height as int);
            }
            let ghost before = data@;
            let cell = &mut data[k * width + l];
            func((l, k), cell);
            proof {
                assert(in_grid(l, k, width, height));
                assert forall|x: usize, y: usize| #[trigger]
                    in_grid(x, y, width, height) && walked_before(
                        x,
                        y,
                        (l + 1) as usize,
                        k,
                    ) implies exists|r: &mut TP|
                    *r == orig[y * width + x] && *final(r) == data@[y * width + x]
                        && #[trigger] call_ensures(func, ((x, y), r), ()) by {
                    lemma_walk_order(x as int, y as int, l as int, k as int, width as int);
                    if walked_before(x, y, l, k) {
                        assert(data@[y * width + x] == before[y * width + x]);
                    } else {
                        assert(x == l && y == k);
                    }
                }
            }
            l += 1;
        }
        proof {
            assert forall|x: usize, y: usize| #[trigger]
                in_grid(x, y, width, height) && y < k + 1 implies exists|r: &mut TP|
                *r == orig[y * width + x] && *final(r) == data@[y * width + x]
                    && #[trigger] call_ensures(func, ((x, y), r), ()) by {
                assert(walked_before(x, y, l, k));
            }
            assert(k * width + width == (k + 1) * width) by (nonlinear_arith);
        }
        k += 1;
    }
}

impl<TP> Matrix<TP> {
    /// A matrix is well formed when `data` holds exactly one element per cell.
    pub open spec fn wf(&self) -> bool {
        self.data.len() == self.width * self.height
    }

    /// The cell in column `x` and row `y`.
    pub open spec fn cell(&self, x: int, y: int) -> TP {
        self.data@[y * self.width + x]
    }

    /// A matrix of the given size, every cell a clone of `value`.
    pub fn new(width: usize, height: usize, value: &TP) -> (m: Matrix<TP>) where TP: Clone
        requires
            width * height <= usize::MAX,
        ensures
            m.wf(),
            m.width == width,
            m.height == height,
            forall|i: int| 0 <= i < width * height ==> cloned(*value, #[trigger] m.data@[i]),
    {
        let len = width * height;
        let mut data: Vec<TP> = Vec::with_capacity(len);
        let mut i: usize = 0;
        while i < len
            invariant
                i <= len,
                data.len() == i,
                forall|j: int| 0 <= j < i ==> cloned(*value, #[trigger] data@[j]),
            decreases len - i,
        {
            data.push(value.clone());
            i += 1;
        }
        Matrix { width, height, data }
    }

    /// The cell in column `x` and row `y`.
    pub fn at(&self, x: usize, y: usize) -> (cell: &TP)
        requires
            self.wf(),
            x < self.width,
            y < self.height,
        ensures
            *cell == self.cell(x as int, y as int),
    {
        proof {
            lemma_index_in_range(x as int, y as int, self.width as int, self.height as int);
        }
        &self.data[y * self.width + x]
    }

    /// A mutable reference to the cell in column `x` and row `y`. Writing
    /// through it changes that cell and no other.
    pub fn at_mut(&mut self, x: usize, y: usize) -> (cell: &mut TP)
        requires
            old(self).wf(),
            x < old(self).width,
            y < old(self).height,
        ensures
            *cell == old(self).cell(x as int, y as int),
            final(self).width == old(self).width,
            final(self).height == old(self).height,
            final(self).data@ == old(self).data@.update(
                y * old(self).width + x,
                *final(cell),
            ),
    {
        proof {
            lemma_index_in_range(x as int, y as int, self.width as int, self.height as int);
        }
        &mut self.data[y * self.width + x]
    }

    /// Calls `func` once on every cell, row by row, with the cell's coordinates
    /// and a reference to it. Afterwards `func` has returned from a call on
    /// every cell, so what it ensures of a call holds of every cell.
    pub fn for_each(&self, mut func: impl FnMut((usize, usize), &TP))
        requires
            self.wf(),
            forall|x: usize, y: usize|
                in_grid(x, y, self.width, self.height) ==> call_requires(
                    func,
                    ((x, y), &self.cell(x as int, y as int)),
                ),
        ensures
            forall|x: usize, y: usize| #[trigger]
                in_grid(x, y, self.width, self.height) ==> call_ensures(
                    func,
                    ((x, y), &self.cell(x as int, y as int)),
                    (),
                ),
    {
        let ghost func0 = func;
        let mut k: usize = 0;
        while k < self.height
            invariant
                self.wf(),
                k <= self.height,
                func == func0,
                forall|x: usize, y: usize|
                    in_grid(x, y, self.width, self.height) ==> call_requires(
                        func,
                        ((x, y), &self.cell(x as int, y as int)),
                    ),
                forall|x: usize, y: usize| #[trigger]
                    in_grid(x, y, self.width, self.height) && y < k ==> call_ensures(
                        func,
                        ((x, y), &self.cell(x as int, y as int)),
                        (),
                    ),
            decreases self.height - k,
        {
            let mut l: usize = 0;
            while l < self.width
                invariant
                    self.wf(),
                    k < self.height,
                    l <= self.width,
                    func == func0,
                    forall|x: usize, y: usize|
                        in_grid(x, y, self.width, self.height) ==> call_requires(
                            func,
                            ((x, y), &self.cell(x as int, y as int)),
                        ),
                    forall|x: usize, y: usize| #[trigger]
                        in_grid(x, y, self.width, self.height) && walked_before(x, y, l, k)
                            ==> call_ensures(func, ((x, y), &self.cell(x as int, y as int)), ()),
                decreases self.width - l,
            {
                assert(in_grid(l, k, self.width, self.height));
                func((l, k), self.at(l, k));
                l += 1;
            }
            assert forall|x: usize, y: usize| #[trigger]
                in_grid(x, y, self.width, self.height) && y < k + 1 implies call_ensures(
                func,
                ((x, y), &self.cell(x as int, y as int)),
                (),
            ) by {
                assert(walked_before(x, y, l, k));
            }
            k += 1;
        }
    }

    /// Calls `func` once on every cell, row by row, with the cell's coordinates
    /// and a mutable reference to it. Each cell afterwards holds what `func`
    /// left in it.
    pub fn for_each_mut(&mut self, func: impl FnMut((usize, usize), &mut TP))
        requires
            old(self).wf(),
            forall|x: usize, y: usize, r: &mut TP|
                in_grid(x, y, old(self).width, old(self).height) && *r == old(self).cell(
                    x as int,
                    y as int,
                ) ==> call_requires(func, ((x, y), r)),
        ensures
            final(self).wf(),
            final(self).width == old(self).width,
            final(self).height == old(self).height,
            forall|x: usize, y: usize| #[trigger]
                in_grid(x, y, old(self).width, old(self).height) ==> exists|r: &mut TP|
                    *r == old(self).cell(x as int, y as int) && *final(r) == final(self).cell(
                        x as int,
                        y as int,
                    ) && #[trigger] call_ensures(func, ((x, y), r), ()),
    {
        let width = self.width;
        let height = self.height;
        visit_cells(&mut self.data, width, height, func);
    }
}

} // verus!
