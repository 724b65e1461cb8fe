use vstd::prelude::*;
use crate::{is_default, GridImpl};

verus! {

/// A grid stored as one independently owned buffer per row; the element at `(x, y)` is
/// `data[y][x]`.
#[derive(Debug)]
pub struct Grid<T> {
    data: Vec<Vec<T>>,
}

/// Every row of `rows` is as long as the first.
pub open spec fn uniform<T>(rows: Seq<Seq<T>>) -> bool {
    forall|i: int| 0 <= i < rows.len() ==> (#[trigger] rows[i]).len() == rows[0].len()
}

impl<T> Grid<T> {
    /// The rows, top to bottom.
    pub closed spec fn rows_view(&self) -> Seq<Seq<T>> {
        self.data@.map_values(|r: Vec<T>| r@)
    }

    pub open spec fn wf(&self) -> bool {
        uniform(self.rows_view())
    }

    /// The length of the first row, or zero when there is none.
    pub open spec fn spec_width(&self) -> nat {
        if self.rows_view().len() > 0 {
            self.rows_view()[0].len()
        } else {
            0
        }
    }

    pub open spec fn spec_height(&self) -> nat {
        self.rows_view().len()
    }

    /// The element at `(x, y)`.
    pub open spec fn cell(&self, x: int, y: int) -> T {
        self.rows_view()[y][x]
    }

    /// Creates a grid from its rows, which must all have the same length.
    pub fn from_data(data: Vec<Vec<T>>) -> (g: Self)
        requires
            uniform(data@.map_values(|r: Vec<T>| r@)),
        ensures
            g.wf(),
            g.rows_view() == data@.map_values(|r: Vec<T>| r@),
    {
        Grid { data }
    }

    /// Returns the grid width, the length of the first row.
    pub fn width(&self) -> (r: usize)
        requires
            self.spec_height() > 0,
        ensures
            r == self.spec_width(),
    {
        self.data[0].len()
    }

    /// Returns the grid height.
    pub fn height(&self) -> (r: usize)
        ensures
            r == self.spec_height(),
    {
        self.data.len()
    }

    /// Returns the element at `(x, y)`, or `None` when there is no row `y` or no column `x`
    /// in it.
    pub fn get(&self, x: usize, y: usize) -> (r: Option<&T>)
        ensures
            r.is_some() == (y < self.spec_height() && x < self.rows_view()[y as int].len()),
            r.is_some() ==> *r.unwrap() == self.cell(x as int, y as int),
            self.wf() ==> r.is_some() == (x < self.spec_width() && y < self.spec_height()),
    {
        if y < self.data.len() {
            assert(self.rows_view()[y as int] == self.data@[y as int]@);
            let row = &self.data[y];
            if x < row.len() {
                return Some(&row[x]);
            }
        }
        None
    }

    /// Returns the element at `(x, y)`; the caller has already established the bounds.
    pub fn get_unchecked(&self, x: usize, y: usize) -> (r: &T)
        requires
            self.wf(),
            x < self.spec_width(),
            y < self.spec_height(),
        ensures
            *r == self.cell(x as int, y as int),
    {
        assert(self.rows_view()[y as int] == self.data@[y as int]@);
        &self.data[y][x]
    }

    /// Returns the element at `(x, y)` for writing; the caller has already established the
    /// bounds.
    pub fn get_unchecked_mut(&mut self, x: usize, y: usize) -> (r: &mut T)
        requires
            old(self).wf(),
            x < old(self).spec_width(),
            y < old(self).spec_height(),
        ensures
            *r == old(self).cell(x as int, y as int),
            final(self).rows_view() == old(self).rows_view().update(
                y as int,
                old(self).rows_view()[y as int].update(x as int, *final(r)),
            ),
    {
        assert(self.rows_view()[y as int] == self.data@[y as int]@);
        &mut self.data[y][x]
    }

    /// Returns row `y`.
    pub fn row(&self, y: usize) -> (r: &[T])
        requires
            y < self.spec_height(),
        ensures
            r@ == self.rows_view()[y as int],
            self.wf() ==> r@.len() == self.spec_width(),
    {
        self.data[y].as_slice()
    }

    /// Returns every row, top to bottom.
    pub fn rows(&self) -> (r: Vec<&[T]>)
        ensures
            r@.len() == self.spec_height(),
            forall|y: int| 0 <= y < r@.len() ==> (#[trigger] r@[y])@ == self.rows_view()[y],
            self.wf() ==> forall|y: int| 0 <= y < r@.len() ==> (#[trigger] r@[y])@.len()
                == self.spec_width(),
    {
        let mut out: Vec<&[T]> = Vec::with_capacity(self.data.len());
        let mut y: usize = 0;
        while y < self.data.len()
            invariant
                y <= self.spec_height(),
                out@.len() == y,
                forall|k: int| 0 <= k < y ==> (#[trigger] out@[k])@ == self.rows_view()[k],
            decreases self.data.len() - y,
        {
            out.push(self.row(y));
            y = y + 1;
        }
        out
    }

    // There is no `rows_mut`: what writes through a `Vec<&mut [T]>` do to the grid can only be
    // stated by a prophetic spec function over the list's final contents. `row_mut` gives the
    // same access one row at a time.

    /// Returns row `y` for writing.
    pub fn row_mut(&mut self, y: usize) -> (r: &mut [T])
        requires
            y < old(self).spec_height(),
        ensures
            r@ == old(self).rows_view()[y as int],
            final(self).rows_view() == old(self).rows_view().update(y as int, final(r)@),
    {
        self.data[y].as_mut_slice()
    }
}

/// Setting an in-bounds cell to `v`, as `get_mut` and `get_unchecked_mut` do, and reading it
/// back gives `v`: the grid stays well formed, the cell stays in bounds and holds `v`.
pub proof fn lemma_get_after_set<T>(before: Grid<T>, after: Grid<T>, x: int, y: int, v: T)
    requires
        before.wf(),
        0 <= x < before.spec_width(),
        0 <= y < before.spec_height(),
        after.rows_view() == before.rows_view().update(y, before.rows_view()[y].update(x, v)),
    ensures
        after.wf(),
        x < after.spec_width() && y < after.spec_height(),
        after.cell(x, y) == v,
{
    assert(before.rows_view()[y].len() == before.spec_width());
    assert forall|i: int| 0 <= i < after.rows_view().len() implies (
    #[trigger] after.rows_view()[i]).len() == after.rows_view()[0].len() by {
        assert(before.rows_view()[i].len() == before.rows_view()[0].len());
    }
}

/// Writing a whole row through `row_mut` and then reading `(x, y)` observes the written row:
/// the grid stays well formed and the cell holds element `x` of the new row.
pub proof fn lemma_get_after_row_write<T>(
    before: Grid<T>,
    after: Grid<T>,
    y: int,
    new_row: Seq<T>,
    x: int,
)
    requires
        before.wf(),
        0 <= y < before.spec_height(),
        0 <= x < before.spec_width(),
        new_row.len() == before.spec_width(),
        after.rows_view() == before.rows_view().update(y, new_row),
    ensures
        after.wf(),
        after.cell(x, y) == new_row[x],
{
    assert forall|i: int| 0 <= i < after.rows_view().len() implies (
    #[trigger] after.rows_view()[i]).len() == after.rows_view()[0].len() by {
        assert(before.rows_view()[i].len() == before.rows_view()[0].len());
    }
}

/// What `rows` yields is a function of the grid alone: two walks over the same grid, each
/// meeting the contract of `rows`, yield the same rows in the same order.
pub proof fn lemma_rows_restartable<T>(g: Grid<T>, a: Seq<Seq<T>>, b: Seq<Seq<T>>)
    requires
        a.len() == g.spec_height(),
        b.len() == g.spec_height(),
        forall|y: int| 0 <= y < a.len() ==> #[trigger] a[y] == g.rows_view()[y],
        forall|y: int| 0 <= y < b.len() ==> #[trigger] b[y] == g.rows_view()[y],
    ensures
        a == b,
{
    assert(a =~= b);
}

impl<T: Default> GridImpl<T> for Grid<T> {
    open spec fn grid_wf(&self) -> bool {
        self.wf()
    }

    open spec fn grid_width(&self) -> nat {
        self.spec_width()
    }

    open spec fn grid_height(&self) -> nat {
        self.spec_height()
    }

    open spec fn grid_cell(&self, x: int, y: int) -> T {
        self.cell(x, y)
    }

    /// Returns the element at `(x, y)` for writing, or `None` when there is no row `y` or no
    /// column `x` in it.
    fn get_mut(&mut self, x: usize, y: usize) -> (r: Option<&mut T>) {
        if y < self.data.len() {
            assert(self.rows_view()[y as int] == self.data@[y as int]@);
            if x < self.data[y].len() {
                return Some(self.get_unchecked_mut(x, y));
            }
        }
        None
    }

    /// Creates `height` rows of `width` default-valued elements each.
    fn new(width: usize, height: usize) -> (g: Self)
        ensures
            forall|y: int, x: int|
                0 <= y < height && 0 <= x < width ==> is_default(#[trigger] g.cell(x, y)),
            forall|y: int| 0 <= y < height ==> (#[trigger] g.rows_view()[y]).len() == width,
    {
        let mut data: Vec<Vec<T>> = Vec::with_capacity(height);
        let mut j: usize = 0;
        while j < height
            invariant
                j <= height,
                data@.len() == j,
                forall|y: int| 0 <= y < j ==> (#[trigger] data@[y])@.len() == width,
                forall|y: int, x: int|
                    0 <= y < j && 0 <= x < width ==> is_default(#[trigger] data@[y]@[x]),
            decreases height - j,
        {
            let mut row: Vec<T> = Vec::with_capacity(width);
            let mut i: usize = 0;
            while i < width
                invariant
                    i <= width,
                    row@.len() == i,
                    forall|k: int| 0 <= k < i ==> is_default(#[trigger] row@[k]),
                decreases width - i,
            {
                row.push(T::default());
                i = i + 1;
            }
            data.push(row);
            j = j + 1;
        }
        let g = Grid { data };
        assert forall|y: int| 0 <= y < height implies #[trigger] g.rows_view()[y] == g.data@[y]@ by {}
        g
    }
}

} // verus!
