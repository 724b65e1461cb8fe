use vstd::prelude::*;
use vstd::arithmetic::power2::{pow2, lemma_pow2_strictly_increases};
use vstd::bits::lemma_usize_shl_is_mul;
use std::ops::Range;
use crate::GridImpl;
use crate::rng::{advance, draw, Rng};

verus! {

/// A `(width, height)` pair, or an `(x, y)` coordinate.
pub type Coord = (usize, usize);

/// The dimensions derived from one base size `b`: square, 2:1 and 1:2 at two scales, 3:2 and
/// 2:3, 8:1 and 1:8, and the non-power-of-two shapes `3/2`, `2/3` and `5/4 x 3/4`.
pub open spec fn menu(b: int) -> Seq<(int, int)> {
    seq![
        (b, b),
        (b, b / 2),
        (b / 2, b),
        (b, b * 2),
        (b * 2, b),
        (b * 3, b * 2),
        (b * 2, b * 3),
        (b * 4, b / 2),
        (b / 2, b * 4),
        (b * 3 / 2, b),
        (b, b * 3 / 2),
        (b * 5 / 4, b * 3 / 4),
    ]
}

/// The menus of the base sizes `2^e` for `lo <= e < hi`, in increasing `e`.
pub open spec fn dimensions(lo: int, hi: int) -> Seq<(int, int)>
    decreases hi - lo,
{
    if hi <= lo {
        seq![]
    } else {
        dimensions(lo, hi - 1) + menu(pow2((hi - 1) as nat) as int)
    }
}

/// A list of pairs of machine integers, read as pairs of integers.
pub open spec fn as_ints(s: Seq<Coord>) -> Seq<(int, int)> {
    s.map_values(|p: Coord| (p.0 as int, p.1 as int))
}

/// Every exponent of the range gives a base size whose largest derived dimension fits.
pub open spec fn exponents_fit(r: Range<usize>) -> bool {
    r.start < r.end ==> r.end <= usize::BITS && 5 * pow2((r.end - 1) as nat) <= usize::MAX
}

/// Generates the dimensions to benchmark: for each exponent `e` of the range, twelve pairs
/// derived from the base size `2^e`.
pub fn generate_dimensions(exponent_range: Range<usize>) -> (r: Vec<Coord>)
    requires
        exponents_fit(exponent_range),
    ensures
        as_ints(r@) == dimensions(exponent_range.start as int, exponent_range.end as int),
{
    let mut test_dims: Vec<Coord> = Vec::new();
    let mut exponent: usize = exponent_range.start;
    if exponent_range.end <= exponent {
        assert(as_ints(test_dims@) =~= seq![]);
        return test_dims;
    }
    while exponent < exponent_range.end
        invariant
            exponent_range.start <= exponent <= exponent_range.end,
            exponents_fit(exponent_range),
            exponent_range.start < exponent_range.end,
            as_ints(test_dims@) == dimensions(exponent_range.start as int, exponent as int),
        decreases exponent_range.end - exponent,
    {
        proof {
            if exponent < exponent_range.end - 1 {
                lemma_pow2_strictly_increases(exponent as nat, (exponent_range.end - 1) as nat);
            }
            lemma_usize_shl_is_mul(1, exponent);
        }
        let base: usize = 1usize << exponent;
        assert(base == pow2(exponent as nat));
        let dims: [Coord; 12] = [
            (base, base),
            (base, base / 2),
            (base / 2, base),
            (base, base * 2),
            (base * 2, base),
            (base * 3, base * 2),
            (base * 2, base * 3),
            (base * 4, base / 2),
            (base / 2, base * 4),
            (base * 3 / 2, base),
            (base, base * 3 / 2),
            (base * 5 / 4, base * 3 / 4),
        ];
        let ghost before = test_dims@;
        let mut i: usize = 0;
        while i < 12
            invariant
                i <= 12,
                test_dims@ == before + dims@.subrange(0, i as int),
            decreases 12 - i,
        {
            test_dims.push(dims[i]);
            i = i + 1;
            assert(test_dims@ =~= before + dims@.subrange(0, i as int));
        }
        assert(as_ints(dims@) =~= menu(base as int));
        assert(as_ints(test_dims@) =~= as_ints(before) + as_ints(dims@)) by {
            assert(test_dims@ =~= before + dims@);
        }
        exponent = exponent + 1;
    }
    test_dims
}

/// The number of coordinates sampled for a `width` by `height` grid:
/// `16 * width * height / (width + height)`, rounded down.
pub fn n_coords(width: usize, height: usize) -> (r: usize)
    requires
        width + height > 0,
        width + height <= usize::MAX,
        16 * width * height <= usize::MAX,
    ensures
        r == 16 * width * height / (width + height),
{
    assert(width * height <= 16 * width * height) by (nonlinear_arith);
    assert(16 * (width * height) == 16 * width * height) by (nonlinear_arith);
    (16 * (width * height)) / (width + height)
}

/// The mean of `runs` timings that add up to `total`, rounded down.
pub fn mean_time(total: u128, runs: u32) -> (r: u128)
    requires
        runs > 0,
    ensures
        r == total as int / runs as int,
{
    total / runs as u128
}

/// Whether `(x, y)` occurs in `coords`.
pub open spec fn visited(coords: Seq<Coord>, x: int, y: int) -> bool {
    exists|k: int| 0 <= k < coords.len() && (#[trigger] coords[k]).0 == x && coords[k].1 == y
}

/// Every coordinate of `coords` lies inside a `w` by `h` grid.
pub open spec fn all_in_bounds(coords: Seq<Coord>, w: nat, h: nat) -> bool {
    forall|k: int| 0 <= k < coords.len() ==> (#[trigger] coords[k]).0 < w && coords[k].1 < h
}

/// Writes `x + y` to the cell `(x, y)` of each coordinate of `coords`, in order, through the
/// grid's checked mutable access.
pub fn apply_workload<G: GridImpl<usize>>(grid: &mut G, coords: &[Coord])
    requires
        old(grid).grid_wf(),
        all_in_bounds(coords@, old(grid).grid_width(), old(grid).grid_height()),
        forall|k: int| 0 <= k < coords@.len() ==> (#[trigger] coords@[k]).0 + coords@[k].1
            <= usize::MAX,
    ensures
        final(grid).grid_wf(),
        final(grid).grid_width() == old(grid).grid_width(),
        final(grid).grid_height() == old(grid).grid_height(),
        forall|x: int, y: int|
            0 <= x < old(grid).grid_width() && 0 <= y < old(grid).grid_height()
                ==> #[trigger] final(grid).grid_cell(x, y) == if visited(coords@, x, y) {
                (x + y) as usize
            } else {
                old(grid).grid_cell(x, y)
            },
{
    let mut i: usize = 0;
    while i < coords.len()
        invariant
            grid.grid_wf(),
            grid.grid_width() == old(grid).grid_width(),
            grid.grid_height() == old(grid).grid_height(),
            all_in_bounds(coords@, old(grid).grid_width(), old(grid).grid_height()),
            forall|k: int| 0 <= k < coords@.len() ==> (#[trigger] coords@[k]).0 + coords@[k].1
                <= usize::MAX,
            i <= coords@.len(),
            forall|x: int, y: int|
                0 <= x < old(grid).grid_width() && 0 <= y < old(grid).grid_height()
                    ==> #[trigger] grid.grid_cell(x, y) == if visited(
                    coords@.subrange(0, i as int),
                    x,
                    y,
                ) {
                    (x + y) as usize
                } else {
                    old(grid).grid_cell(x, y)
                },
        decreases coords@.len() - i,
    {
        let (x, y) = coords[i];
        assert(coords@[i as int] == (x, y));
        let ghost prev = *grid;
        match grid.get_mut(x, y) {
            Some(c) => {
                *c = x + y;
            },
            None => {},
        }
        proof {
            let done = coords@.subrange(0, i as int);
            let now = coords@.subrange(0, i + 1);
            assert forall|a: int, b: int|
                0 <= a < old(grid).grid_width() && 0 <= b < old(grid).grid_height() implies (
                visited(now, a, b) == (visited(done, a, b) || (a == x && b == y))) by {
                if visited(now, a, b) {
                    let k = choose|k: int|
                        0 <= k < now.len() && (#[trigger] now[k]).0 == a && now[k].1 == b;
                    if k < i {
                        assert(done[k] == now[k]);
                    }
                }
                if visited(done, a, b) {
                    let k = choose|k: int|
                        0 <= k < done.len() && (#[trigger] done[k]).0 == a && done[k].1 == b;
                    assert(now[k] == done[k]);
                }
                if a == x && b == y {
                    assert(now[i as int] == coords@[i as int]);
                }
            }
        }
        i = i + 1;
    }
    assert(coords@.subrange(0, i as int) =~= coords@);
}

/// The first `n` coordinates drawn from state `s` inside a `width` by `height` grid: each
/// takes two steps, `x` first, then `y`.
pub open spec fn draws(s: u64, n: nat, width: usize, height: usize) -> Seq<Coord>
    decreases n,
{
    if n == 0 {
        seq![]
    } else {
        let k = 2 * (n - 1);
        draws(s, (n - 1) as nat, width, height).push(
            (
                draw(advance(s, k as nat), 0, (width - 1) as usize),
                draw(advance(s, (k + 1) as nat), 0, (height - 1) as usize),
            ),
        )
    }
}

/// Draws `n` coordinates independently inside a `width` by `height` grid.
pub fn random_coords(rng: &mut Rng, n: usize, width: usize, height: usize) -> (r: Vec<Coord>)
    requires
        width > 0,
        height > 0,
    ensures
        r@ == draws(old(rng).state(), n as nat, width, height),
        final(rng).state() == advance(old(rng).state(), 2 * n as nat),
        r@.len() == n,
        all_in_bounds(r@, width as nat, height as nat),
{
    let mut out: Vec<Coord> = Vec::with_capacity(n);
    let mut i: usize = 0;
    while i < n
        invariant
            width > 0,
            height > 0,
            i <= n,
            out@.len() == i,
            all_in_bounds(out@, width as nat, height as nat),
            out@ == draws(old(rng).state(), i as nat, width, height),
            rng.state() == advance(old(rng).state(), 2 * i as nat),
        decreases n - i,
    {
        let x = rng.range(0, width - 1);
        let y = rng.range(0, height - 1);
        out.push((x, y));
        i = i + 1;
    }
    out
}

} // verus!
