use vstd::prelude::*;

pub mod grid1;
pub mod grid2;
pub mod rng;
pub mod bench;

verus! {

/// Whether `v` is a value that `T::default()` can return.
pub open spec fn is_default<T: Default>(v: T) -> bool {
    call_ensures(T::default, (), v)
}

/// What both grid layouts offer: construction with default elements and checked
/// mutable access, over a model of `width * height` cells addressed by `(x, y)`.
pub trait GridImpl<T>: Sized {
    /// The representation invariant of the layout.
    spec fn grid_wf(&self) -> bool;

    spec fn grid_width(&self) -> nat;

    spec fn grid_height(&self) -> nat;

    /// The element at `(x, y)`, for `x < width` and `y < height`.
    spec fn grid_cell(&self, x: int, y: int) -> T;

    fn get_mut(&mut self, x: usize, y: usize) -> (r: Option<&mut T>)
        requires
            old(self).grid_wf(),
        ensures
            r.is_some() == (x < old(self).grid_width() && y < old(self).grid_height()),
            r.is_some() ==> *r.unwrap() == old(self).grid_cell(x as int, y as int),
            r.is_none() ==> *final(self) == *old(self),
            final(self).grid_wf(),
            final(self).grid_width() == old(self).grid_width(),
            final(self).grid_height() == old(self).grid_height(),
            r.is_some() ==> final(self).grid_cell(x as int, y as int) == *final(r.unwrap()),
            forall|i: int, j: int|
                0 <= i < old(self).grid_width() && 0 <= j < old(self).grid_height() && (i != x
                    || j != y) ==> #[trigger] final(self).grid_cell(i, j) == old(self).grid_cell(
                    i,
                    j,
                ),
    ;

    fn new(width: usize, height: usize) -> (g: Self)
        requires
            width * height <= usize::MAX,
        ensures
            g.grid_wf(),
            g.grid_height() == height,
            height > 0 ==> g.grid_width() == width,
    ;
}

} // verus!
