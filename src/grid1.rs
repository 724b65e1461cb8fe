use vstd::prelude::*;
use vstd::slice::slice_subrange;
use crate::{is_default, GridImpl};

verus! {

/// A grid stored as one contiguous buffer in row-major order: the element at
/// `(x, y)` lives at offset `y * width + x`.
#[derive(Debug)]
pub struct Grid<T> {
    width: usize,
    height: usize,
    data: Vec<T>,
}

impl<T> Grid<T> {
    pub closed spec fn spec_width(&self) -> nat {
        self.width as nat
    }

    pub closed spec fn spec_height(&self) -> nat {
        self.height as nat
    }

    /// The backing buffer, row after row.
    pub closed spec fn cells(&self) -> Seq<T> {
        self.data@
    }

    pub open spec fn wf(&self) -> bool {
        self.cells().len() == self.spec_width() * self.spec_height()
    }

    /// The element at `(x, y)`.
    pub open spec fn cell(&self, x: int, y: int) -> T {
        self.cells()[y * self.spec_width() + x]
    }

    /// Row `y`: the `width` elements from offset `y * width` on.
    pub open spec fn row_view(&self, y: int) -> Seq<T> {
        self.cells().subrange(y * self.spec_width(), y * self.spec_width() + self.spec_width())
    }

    /// The buffer with row `y` replaced by `r`.
    pub open spec fn with_row(&self, y: int, r: Seq<T>) -> Seq<T> {
        let w = self.spec_width() as int;
        self.cells().subrange(0, y * w) + r + self.cells().subrange(y * w + w, self.cells().len() as int)
    }

    /// Creates a grid from a row-major buffer of exactly `width * height` elements.
    pub fn from_data(width: usize, height: usize, data: Vec<T>) -> (g: Self)
        requires
            data@.len() == width * height,
        ensures
            g.wf(),
            g.spec_width() == width,
            g.spec_height() == height,
            g.cells() == data@,
    {
        Grid { width, height, data }
    }

    /// Returns the grid width.
    pub fn width(&self) -> (r: usize)
        ensures
            r == self.spec_width(),
    {
        self.width
    }

    /// Returns the grid height.
    pub fn height(&self) -> (r: usize)
        ensures
            r == self.spec_height(),
    {
        self.height
    }

    /// Returns the element at `(x, y)`, or `None` when the coordinate lies outside the grid.
    pub fn get(&self, x: usize, y: usize) -> (r: Option<&T>)
        requires
            self.wf(),
        ensures
            r.is_some() == (x < self.spec_width() && y < self.spec_height()),
            r.is_some() ==> *r.unwrap() == self.cell(x as int, y as int),
    {
        if x < self.width && y < self.height {
            Some(self.get_unchecked(x, y))
        } else {
            None
        }
    }

    /// Returns the element at `(x, y)`; the caller has already established the bounds.
    pub fn get_unchecked(&self, x: usize, y: usize) -> (r: &T)
        requires
            self.wf(),
            x < self.spec_width(),
            y < self.spec_height(),
        ensures
            *r == self.cell(x as int, y as int),
    {
        proof {
            lemma_vec_len_fits(&self.data);
        }
        proof {
            lemma_offset_in_bounds(x as int, y as int, self.width as int, self.height as int);
        }
        &self.data[y * self.width + x]
    }

    /// Returns the element at `(x, y)` for writing; the caller has already established the
    /// bounds.
    pub fn get_unchecked_mut(&mut self, x: usize, y: usize) -> (r: &mut T)
        requires
            old(self).wf(),
            x < old(self).spec_width(),
            y < old(self).spec_height(),
        ensures
            *r == old(self).cell(x as int, y as int),
            final(self).spec_width() == old(self).spec_width(),
            final(self).spec_height() == old(self).spec_height(),
            final(self).cells() == old(self).cells().update(
                y * old(self).spec_width() + x,
                *final(r),
            ),
    {
        proof {
            lemma_vec_len_fits(&self.data);
        }
        proof {
            lemma_offset_in_bounds(x as int, y as int, self.width as int, self.height as int);
        }
        let i = y * self.width + x;
        &mut self.data[i]
    }

    /// Returns row `y` as a slice of `width` elements.
    pub fn row(&self, y: usize) -> (r: &[T])
        requires
            self.wf(),
            y < self.spec_height(),
        ensures
            r@ == self.row_view(y as int),
            r@.len() == self.spec_width(),
    {
        proof {
            lemma_vec_len_fits(&self.data);
        }
        proof {
            lemma_row_in_bounds(y as int, self.width as int, self.height as int);
        }
        let start = y * self.width;
        slice_subrange(self.data.as_slice(), start, start + self.width)
    }

    /// Returns row `y` as a mutable slice of `width` elements.
    pub fn row_mut(&mut self, y: usize) -> (r: &mut [T])
        requires
            old(self).wf(),
            y < old(self).spec_height(),
        ensures
            r@ == old(self).row_view(y as int),
            r@.len() == old(self).spec_width(),
            final(self).spec_width() == old(self).spec_width(),
            final(self).spec_height() == old(self).spec_height(),
            final(self).cells() == old(self).with_row(y as int, final(r)@),
    {
        proof {
            lemma_vec_len_fits(&self.data);
        }
        proof {
            lemma_row_in_bounds(y as int, self.width as int, self.height as int);
        }
        let start = y * self.width;
        let w = self.width;
        let (_, tail) = self.data.as_mut_slice().split_at_mut(start);
        let (r, _) = tail.split_at_mut(w);
        r
    }

    /// Returns every row as a slice of `width` elements, top to bottom.
    pub fn rows(&self) -> (r: Vec<&[T]>)
        requires
            self.wf(),
        ensures
            r@.len() == self.spec_height(),
            forall|y: int| 0 <= y < r@.len() ==> (#[trigger] r@[y])@ == self.row_view(y),
            forall|y: int| 0 <= y < r@.len() ==> (#[trigger] r@[y])@.len() == self.spec_width(),
    {
        let mut out: Vec<&[T]> = Vec::with_capacity(self.height);
        let mut y: usize = 0;
        while y < self.height
            invariant
                self.wf(),
                y <= self.spec_height(),
                out@.len() == y,
                forall|k: int| 0 <= k < y ==> (#[trigger] out@[k])@ == self.row_view(k),
                forall|k: int| 0 <= k < y ==> (#[trigger] out@[k])@.len() == self.spec_width(),
            decreases self.height - y,
        {
            out.push(self.row(y));
            y = y + 1;
        }
        out
    }

    // There is no `rows_mut`: what writes through a `Vec<&mut [T]>` do to the grid can only be
    // stated by a prophetic spec function over the list's final contents. `row_mut` gives the
    // same access one row at a time, and `as_mut_slice` the whole buffer.

    /// The whole buffer, row after row.
    pub fn as_slice(&self) -> (r: &[T])
        ensures
            r@ == self.cells(),
    {
        self.data.as_slice()
    }

    /// The whole buffer, row after row, for writing.
    pub fn as_mut_slice(&mut self) -> (r: &mut [T])
        ensures
            r@ == old(self).cells(),
            final(self).spec_width() == old(self).spec_width(),
            final(self).spec_height() == old(self).spec_height(),
            final(self).cells() == final(r)@,
    {
        self.data.as_mut_slice()
    }
}

impl<T: Default> GridImpl<T> for Grid<T> {
    open spec fn grid_wf(&self) -> bool {
        self.wf()
    }

    open spec fn grid_width(&self) -> nat {
        self.spec_width()
    }

    open spec fn grid_height(&self) -> nat {
        self.spec_height()
    }

    open spec fn grid_cell(&self, x: int, y: int) -> T {
        self.cell(x, y)
    }

    /// Returns the element at `(x, y)` for writing, or `None` when the coordinate lies outside
    /// the grid.
    fn get_mut(&mut self, x: usize, y: usize) -> (r: Option<&mut T>) {
        if x < self.width && y < self.height {
            proof {
                lemma_offset_in_bounds(x as int, y as int, self.width as int, self.height as int);
                assert forall|i: int, j: int|
                    0 <= i < self.width && 0 <= j < self.height && (i != x || j != y) implies #[trigger] self.cell(
                        i,
                        j,
                    ) == self.cell(i, j) && j * self.width + i != y * self.width + x && 0 <= j
                        * self.width + i < self.data@.len() by {
                    lemma_offset_in_bounds(i, j, self.width as int, self.height as int);
                    if j * self.width + i == y * self.width + x {
                        lemma_offset_injective(i, j, x as int, y as int, self.width as int);
                    }
                }
            }
            Some(self.get_unchecked_mut(x, y))
        } else {
            None
        }
    }

    /// Creates a `width` by `height` grid with every element default-valued.
    fn new(width: usize, height: usize) -> (g: Self)
        ensures
            g.spec_width() == width,
            g.cells().len() == width * height,
            forall|i: int| 0 <= i < g.cells().len() ==> is_default(#[trigger] g.cells()[i]),
    {
        let n = width * height;
        let mut data: Vec<T> = Vec::with_capacity(n);
        let mut i: usize = 0;
        while i < n
            invariant
                i <= n,
                data@.len() == i,
                forall|k: int| 0 <= k < i ==> is_default(#[trigger] data@[k]),
            decreases n - i,
        {
            data.push(T::default());
            i = i + 1;
        }
        Grid { width, height, data }
    }
}

/// Setting an in-bounds cell to `v`, as `get_mut` and `get_unchecked_mut` do, and reading it
/// back gives `v`: the grid stays well formed, the cell stays in bounds and holds `v`.
pub proof fn lemma_get_after_set<T>(before: Grid<T>, after: Grid<T>, x: int, y: int, v: T)
    requires
        before.wf(),
        0 <= x < before.spec_width(),
        0 <= y < before.spec_height(),
        after.spec_width() == before.spec_width(),
        after.spec_height() == before.spec_height(),
        after.cells() == before.cells().update(y * before.spec_width() + x, v),
    ensures
        after.wf(),
        x < after.spec_width() && y < after.spec_height(),
        after.cell(x, y) == v,
{
    lemma_offset_in_bounds(x, y, before.spec_width() as int, before.spec_height() as int);
}

/// Writing a whole row through `row_mut` and then reading `(x, y)` observes the written row:
/// the grid stays well formed and the cell holds element `x` of the new row.
pub proof fn lemma_get_after_row_write<T>(
    before: Grid<T>,
    after: Grid<T>,
    y: int,
    new_row: Seq<T>,
    x: int,
)
    requires
        before.wf(),
        0 <= y < before.spec_height(),
        0 <= x < before.spec_width(),
        new_row.len() == before.spec_width(),
        after.spec_width() == before.spec_width(),
        after.spec_height() == before.spec_height(),
        after.cells() == before.with_row(y, new_row),
    ensures
        after.wf(),
        after.cell(x, y) == new_row[x],
{
    lemma_row_in_bounds(y, before.spec_width() as int, before.spec_height() as int);
}

/// What `rows` yields is a function of the grid alone: two walks over the same grid, each
/// meeting the contract of `rows`, yield the same rows in the same order.
pub proof fn lemma_rows_restartable<T>(g: Grid<T>, a: Seq<Seq<T>>, b: Seq<Seq<T>>)
    requires
        a.len() == g.spec_height(),
        b.len() == g.spec_height(),
        forall|y: int| 0 <= y < a.len() ==> #[trigger] a[y] == g.row_view(y),
        forall|y: int| 0 <= y < b.len() ==> #[trigger] b[y] == g.row_view(y),
    ensures
        a == b,
{
    assert(a =~= b);
}

/// The length of a vector fits in `usize`.
pub proof fn lemma_vec_len_fits<T>(v: &Vec<T>)
    ensures
        v@.len() <= usize::MAX,
{
    assert(v@.len() == v.len());
}

/// Two coordinates of a row-major grid with `w` columns share an offset only when they are equal.
pub proof fn lemma_offset_injective(i: int, j: int, x: int, y: int, w: int)
    requires
        0 <= i < w,
        0 <= x < w,
        0 <= j,
        0 <= y,
        j * w + i == y * w + x,
    ensures
        i == x,
        j == y,
{
    if j < y {
        assert(j * w + w <= y * w) by (nonlinear_arith)
            requires
                j < y,
                0 < w,
        ;
    } else if y < j {
        assert(y * w + w <= j * w) by (nonlinear_arith)
            requires
                y < j,
                0 < w,
        ;
    }
}

/// Row `y` of a `w` by `h` grid ends inside the buffer.
pub proof fn lemma_row_in_bounds(y: int, w: int, h: int)
    requires
        0 <= y < h,
        0 <= w,
    ensures
        0 <= y * w,
        y * w + w <= w * h,
{
    assert(y * w + w <= w * h) by (nonlinear_arith)
        requires
            0 <= y < h,
            0 <= w,
    ;
    assert(0 <= y * w) by (nonlinear_arith)
        requires
            0 <= y,
            0 <= w,
    ;
}

/// The offset of an in-bounds coordinate lies inside the buffer.
pub proof fn lemma_offset_in_bounds(x: int, y: int, w: int, h: int)
    requires
        0 <= x < w,
        0 <= y < h,
    ensures
        0 <= y * w,
        y * w + x < w * h,
        y * w + w <= w * h,
{
    assert(y * w + w <= w * h) by (nonlinear_arith)
        requires
            0 <= y < h,
            0 < w,
    ;
    assert(0 <= y * w) by (nonlinear_arith)
        requires
            0 <= y,
            0 < w,
    ;
}

} // verus!
