use vstd::prelude::*;

use crate::fops::add_bits;
use crate::fops::lt_bits;
use crate::fops::mul_bits;
use crate::fops::sub_bits;
use crate::fops::F_ONE;
use crate::fops::F_ZERO;
use crate::fops::f_add;
use crate::fops::f_lt;
use crate::fops::f_mul;
use crate::fops::f_sub;
use vstd::pervasive::VecAdditionalExecFns;

verus! {

/// Flat row-major offset of the cell `(x, y)` on an `n`-by-`n` grid.
pub open spec fn grid_index(x: int, y: int, n: int) -> int {
    x + y * n
}

/// Largest grid side the solver accepts: keeps every flat offset, and the
/// cell count `n * n`, within `u32` range.
pub const MAX_RESOLUTION: u32 = 0xFFFF;

/// Offsets of distinct cells are in `[0, n * n)`.
pub proof fn lemma_grid_index_bounds(x: int, y: int, n: int)
    requires
        0 <= x < n,
        0 <= y < n,
    ensures
        0 <= grid_index(x, y, n) < n * n,
{
    assert(0 <= x + y * n < n * n) by (nonlinear_arith)
        requires
            0 <= x < n,
            0 <= y < n,
    ;
}

/// The indexing map is injective on `[0, n) x [0, n)`: two cells with the
/// same flat offset are the same cell.
pub proof fn lemma_grid_index_injective(x1: int, y1: int, x2: int, y2: int, n: int)
    requires
        0 <= x1 < n,
        0 <= y1 < n,
        0 <= x2 < n,
        0 <= y2 < n,
        grid_index(x1, y1, n) == grid_index(x2, y2, n),
    ensures
        x1 == x2,
        y1 == y2,
{
    assert(x1 == x2 && y1 == y2) by (nonlinear_arith)
        requires
            0 <= x1 < n,
            0 <= y1 < n,
            0 <= x2 < n,
            0 <= y2 < n,
            x1 + y1 * n == x2 + y2 * n,
    ;
}

/// The image of the indexing map is exactly `[0, n * n)`: every flat offset
/// below `n * n` is the offset of some cell.
pub proof fn lemma_grid_index_image(k: int, n: int)
    requires
        0 < n,
        0 <= k < n * n,
    ensures
        exists|x: int, y: int|
            0 <= x < n && 0 <= y < n && grid_index(x, y, n) == k,
{
    let x = k % n;
    let y = k / n;
    assert(0 <= x < n && 0 <= y < n && x + y * n == k) by (nonlinear_arith)
        requires
            0 < n,
            0 <= k < n * n,
            x == k % n,
            y == k / n,
    ;
    assert(grid_index(x, y, n) == k);
}

/// Maps 2D integer coordinates on an `n`-by-`n` grid to the flat offset of
/// the cell in row-major buffer storage. Callers guarantee the coordinates
/// are on the grid; the offset is then always within the `n * n` buffer.
#[inline(always)]
pub fn xy(x: u32, y: u32, n: u32) -> (r: usize)
    requires
        x < n,
        y < n,
        n <= MAX_RESOLUTION,
    ensures
        r == grid_index(x as int, y as int, n as int),
        r < n * n,
{
    proof {
        lemma_grid_index_bounds(x as int, y as int, n as int);
        assert((n as int) * (n as int) <= 0xFFFF * 0xFFFF) by (nonlinear_arith)
            requires
                n <= 0xFFFF,
        ;
    }
    (x + (y * n)) as usize
}

/// The larger of two binary32 numbers; the left operand is kept when the
/// comparison fails (equal values, or a NaN on either side).
pub open spec fn max_bits(x: u32, a: u32) -> u32 {
    if lt_bits(x, a) {
        a
    } else {
        x
    }
}

/// The smaller of two binary32 numbers; the left operand is kept when the
/// comparison fails (equal values, or a NaN on either side).
pub open spec fn min_bits(x: u32, b: u32) -> u32 {
    if lt_bits(b, x) {
        b
    } else {
        x
    }
}

/// `x` raised to at least `a`, then lowered to at most `b`. When `a` is
/// above `b` the result is `b`.
pub open spec fn clamp_bits(x: u32, a: u32, b: u32) -> u32 {
    min_bits(max_bits(x, a), b)
}

/// `x` clamped into the unit interval: the range of a density value.
pub open spec fn clamp01_bits(x: u32) -> u32 {
    clamp_bits(x, F_ZERO, F_ONE)
}

/// Linear interpolation `a + (b - a) * t` in binary32 arithmetic.
pub open spec fn lerp_bits(a: u32, b: u32, t: u32) -> u32 {
    add_bits(a, mul_bits(sub_bits(b, a), t))
}

/// The pointwise binary32 sum of two fields, over the length of the first.
pub open spec fn add_fields(a: Seq<u32>, b: Seq<u32>) -> Seq<u32> {
    Seq::new(a.len(), |i: int| add_bits(a[i], b[i]))
}

/// Clamps `x` into `[a, b]` in binary32 arithmetic: the larger of `x` and
/// `a`, then the smaller of that and `b`.
#[inline(always)]
pub fn clamp_ab(x: u32, a: u32, b: u32) -> (r: u32)
    ensures
        r == clamp_bits(x, a, b),
{
    let m: u32 = if f_lt(x, a) {
        a
    } else {
        x
    };
    if f_lt(b, m) {
        b
    } else {
        m
    }
}

/// Clamps `x` into the unit interval, the valid range of a density value.
#[inline(always)]
pub fn clamp(x: u32) -> (r: u32)
    ensures
        r == clamp01_bits(x),
{
    clamp_ab(x, F_ZERO, F_ONE)
}

/// Linear interpolation between `a` and `b` with weight `t`.
#[inline(always)]
pub fn lerp(a: u32, b: u32, t: u32) -> (r: u32)
    ensures
        r == lerp_bits(a, b, t),
{
    f_add(a, f_mul(f_sub(b, a), t))
}

/// Adds the field `b` into the field `a`, cell by cell.
pub fn add_array(a: &mut Vec<u32>, b: &Vec<u32>)
    requires
        old(a)@.len() <= b@.len(),
    ensures
        final(a)@ == add_fields(old(a)@, b@),
{
    let mut i: usize = 0;
    while i < a.len()
        invariant
            i <= a@.len(),
            a@.len() == old(a)@.len(),
            old(a)@.len() <= b@.len(),
            forall|k: int| 0 <= k < i ==> a@[k] == add_bits(old(a)@[k], b@[k]),
            forall|k: int| i <= k < a@.len() ==> a@[k] == old(a)@[k],
        decreases a@.len() - i,
    {
        let v: u32 = f_add(a[i], b[i]);
        a.set(i, v);
        i = i + 1;
    }
    assert(a@ =~= add_fields(old(a)@, b@));
}

} // verus!
