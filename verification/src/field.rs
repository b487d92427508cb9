//! Scalar-field kernels of the solver: boundary enforcement, diffusion,
//! semi-Lagrangian advection and pressure projection. Each kernel mutates a
//! flat row-major field of binary32 bit patterns and is specified as an
//! exact function of its inputs.

use vstd::prelude::*;

use crate::fops::add_bits;
use crate::fops::div_bits;
use crate::fops::float_of_u32;
use crate::fops::mul_bits;
use crate::fops::neg_bits;
use crate::fops::sub_bits;
use crate::fops::u32_of_float;
use crate::fops::DIFFUSION_RATE_BITS;
use crate::fops::F_FIVE_HALVES;
use crate::fops::F_FOUR;
use crate::fops::F_HALF;
use crate::fops::F_NEG_HALF;
use crate::fops::F_ONE;
use crate::fops::F_THREE_HALVES;
use crate::fops::F_ZERO;
use crate::fops::SIGN_BIT;
use crate::fops::f_add;
use crate::fops::f_div;
use crate::fops::f_mul;
use crate::fops::f_of_u32;
use crate::fops::f_sub;
use crate::fops::f_to_u32;
use crate::util::clamp;
use crate::util::clamp01_bits;
use crate::util::clamp_ab;
use crate::util::clamp_bits;
use crate::util::grid_index;
use crate::util::lemma_grid_index_bounds;
use crate::util::lerp;
use crate::util::lerp_bits;
use crate::util::xy;
use crate::util::MAX_RESOLUTION;
use vstd::arithmetic::div_mod::lemma_fundamental_div_mod;
use vstd::arithmetic::div_mod::lemma_fundamental_div_mod_converse;
use vstd::arithmetic::div_mod::lemma_mod_bound;
use vstd::pervasive::VecAdditionalExecFns;

verus! {

/// How the outer ring of a field is filled from its interior neighbours:
/// copied unchanged, or negated across the vertical or horizontal walls.
#[derive(Clone, Copy, PartialEq, Eq, Structural)]
pub enum BoundaryAction {
    Neighbour,
    NegativeX,
    NegativeY,
}

/// The flat offset `k` decomposes into the unique cell coordinates
/// `(k % n, k / n)`.
pub proof fn lemma_coords_bounds(k: int, n: int)
    requires
        0 < n,
        0 <= k < n * n,
    ensures
        0 <= k % n < n,
        0 <= k / n < n,
        k == grid_index(k % n, k / n, n),
{
    lemma_fundamental_div_mod(k, n);
    lemma_mod_bound(k, n);
    assert(n * (k / n) == (k / n) * n) by (nonlinear_arith);
    assert(k == grid_index(k % n, k / n, n));
    assert(0 <= k / n < n) by (nonlinear_arith)
        requires
            0 < n,
            0 <= k < n * n,
            k == n * (k / n) + (k % n),
            0 <= k % n < n,
    ;
}

/// A cell's flat offset decomposes back into its coordinates.
pub proof fn lemma_cell_coords(x: int, y: int, n: int)
    requires
        0 < n,
        0 <= x < n,
        0 <= y < n,
    ensures
        grid_index(x, y, n) % n == x,
        grid_index(x, y, n) / n == y,
{
    lemma_fundamental_div_mod_converse(x + y * n, n, y, x);
}

/// Whether the flat offset `k` names an interior cell of an `n`-by-`n`
/// grid: both coordinates at least one away from the outer ring.
pub open spec fn is_interior(n: int, k: int) -> bool {
    1 <= k % n <= n - 2 && 1 <= k / n <= n - 2
}

/// The sign a boundary action applies to values copied across the left and
/// right walls.
pub open spec fn x_signed(action: BoundaryAction, v: u32) -> u32 {
    if action == BoundaryAction::NegativeX {
        neg_bits(v)
    } else {
        v
    }
}

/// The sign a boundary action applies to values copied across the top and
/// bottom walls.
pub open spec fn y_signed(action: BoundaryAction, v: u32) -> u32 {
    if action == BoundaryAction::NegativeY {
        neg_bits(v)
    } else {
        v
    }
}

fn x_sign_apply(action: BoundaryAction, v: u32) -> (r: u32)
    ensures
        r == x_signed(action, v),
{
    match action {
        BoundaryAction::NegativeX => v ^ SIGN_BIT,
        _ => v,
    }
}

fn y_sign_apply(action: BoundaryAction, v: u32) -> (r: u32)
    ensures
        r == y_signed(action, v),
{
    match action {
        BoundaryAction::NegativeY => v ^ SIGN_BIT,
        _ => v,
    }
}

/// The value of cell `k` after boundary enforcement over the field `s`:
/// interior cells are untouched, each non-corner edge cell is its single
/// interior neighbour under the action's sign, and each corner is half the
/// sum of the values its two edge neighbours receive.
pub open spec fn boundary_cell(s: Seq<u32>, action: BoundaryAction, n: int, k: int) -> u32 {
    let x = k % n;
    let y = k / n;
    if x == 0 && y == 0 {
        mul_bits(
            F_HALF,
            add_bits(
                y_signed(action, s[grid_index(1, 1, n)]),
                x_signed(action, s[grid_index(1, 1, n)]),
            ),
        )
    } else if x == n - 1 && y == 0 {
        mul_bits(
            F_HALF,
            add_bits(
                y_signed(action, s[grid_index(n - 2, 1, n)]),
                x_signed(action, s[grid_index(n - 2, 1, n)]),
            ),
        )
    } else if x == 0 && y == n - 1 {
        mul_bits(
            F_HALF,
            add_bits(
                x_signed(action, s[grid_index(1, n - 2, n)]),
                y_signed(action, s[grid_index(1, n - 2, n)]),
            ),
        )
    } else if x == n - 1 && y == n - 1 {
        mul_bits(
            F_HALF,
            add_bits(
                x_signed(action, s[grid_index(n - 2, n - 2, n)]),
                y_signed(action, s[grid_index(n - 2, n - 2, n)]),
            ),
        )
    } else if x == 0 {
        x_signed(action, s[grid_index(1, y, n)])
    } else if x == n - 1 {
        x_signed(action, s[grid_index(n - 2, y, n)])
    } else if y == 0 {
        y_signed(action, s[grid_index(x, 1, n)])
    } else if y == n - 1 {
        y_signed(action, s[grid_index(x, n - 2, n)])
    } else {
        s[k]
    }
}

/// The whole field after boundary enforcement.
pub open spec fn set_boundary_spec(s: Seq<u32>, action: BoundaryAction, n: int) -> Seq<u32> {
    Seq::new((n * n) as nat, |k: int| boundary_cell(s, action, n, k))
}

/// The value of cell `k` while the edge sweep has handled coordinates
/// below `i`. The final write of the sweep wins where a late edge write
/// reads a cell an earlier one filled; all such cells are corners and are
/// overwritten afterwards.
spec fn edge_partial_cell(s: Seq<u32>, action: BoundaryAction, n: int, i: int, k: int) -> u32 {
    let x = k % n;
    let y = k / n;
    if x == 0 && 1 <= y < i {
        if y <= n - 2 {
            x_signed(action, s[grid_index(1, y, n)])
        } else {
            x_signed(action, y_signed(action, s[grid_index(1, n - 2, n)]))
        }
    } else if x == n - 1 && 1 <= y < i && y <= n - 2 {
        x_signed(action, s[grid_index(n - 2, y, n)])
    } else if y == 0 && 1 <= x < i {
        if x <= n - 2 {
            y_signed(action, s[grid_index(x, 1, n)])
        } else {
            y_signed(action, x_signed(action, s[grid_index(n - 2, 1, n)]))
        }
    } else if y == n - 1 && 1 <= x < i {
        if x <= n - 2 {
            y_signed(action, s[grid_index(x, n - 2, n)])
        } else {
            y_signed(action, x_signed(action, s[grid_index(n - 2, n - 2, n)]))
        }
    } else {
        s[k]
    }
}

/// Fills the outer ring of the field from its adjacent interior cells with
/// the action's sign, then sets each corner to half the sum of its two
/// edge neighbours.
pub fn set_boundary(x: &mut Vec<u32>, action: BoundaryAction, n: u32)
    requires
        old(x)@.len() == n * n,
        3 <= n <= MAX_RESOLUTION,
    ensures
        final(x)@ == set_boundary_spec(old(x)@, action, n as int),
{
    let ghost s0 = old(x)@;
    let ghost nn = n as int;
    let mut i: u32 = 1;
    while i < n
        invariant
            1 <= i <= n,
            3 <= n <= MAX_RESOLUTION,
            x@.len() == n * n,
            forall|k: int|
                0 <= k < nn * nn ==> x@[k] == edge_partial_cell(s0, action, nn, i as int, k),
            nn == n as int,
            s0.len() == n * n,
        decreases n - i,
    {
        let ghost xs = x@;
        let ta = x[xy(1, i, n)];
        let tb = x[xy(n - 2, i, n)];
        let tc = x[xy(i, 1, n)];
        let td = x[xy(i, n - 2, n)];
        let e1 = x_sign_apply(action, ta);
        let e2 = x_sign_apply(action, tb);
        let e3 = y_sign_apply(action, tc);
        let e4 = y_sign_apply(action, td);
        x.set(xy(0, i, n), e1);
        x.set(xy(n - 1, i, n), e2);
        x.set(xy(i, 0, n), e3);
        x.set(xy(i, n - 1, n), e4);
        proof {
            let ii = i as int;
            assert forall|k: int|
                0 <= k < nn * nn implies x@[k] == edge_partial_cell(s0, action, nn, ii + 1, k) by {
                lemma_coords_bounds(k, nn);
                lemma_cell_coords(0, ii, nn);
                lemma_cell_coords(nn - 1, ii, nn);
                lemma_cell_coords(ii, 0, nn);
                lemma_cell_coords(ii, nn - 1, nn);
                lemma_cell_coords(1, ii, nn);
                lemma_cell_coords(nn - 2, ii, nn);
                lemma_cell_coords(ii, 1, nn);
                lemma_cell_coords(ii, nn - 2, nn);
                lemma_grid_index_bounds(0, ii, nn);
                lemma_grid_index_bounds(nn - 1, ii, nn);
                lemma_grid_index_bounds(ii, 0, nn);
                lemma_grid_index_bounds(ii, nn - 1, nn);
            }
        }
        i = i + 1;
    }
    let ghost pe = x@;
    let ca = x[xy(1, 0, n)];
    let cb = x[xy(0, 1, n)];
    let cc = x[xy(n - 2, 0, n)];
    let cd = x[xy(n - 1, 1, n)];
    let ce = x[xy(0, n - 2, n)];
    let cf = x[xy(1, n - 1, n)];
    let cg = x[xy(n - 1, n - 2, n)];
    let ch = x[xy(n - 2, n - 1, n)];
    let w1 = f_mul(F_HALF, f_add(ca, cb));
    let w2 = f_mul(F_HALF, f_add(cc, cd));
    let w3 = f_mul(F_HALF, f_add(ce, cf));
    let w4 = f_mul(F_HALF, f_add(cg, ch));
    x.set(xy(0, 0, n), w1);
    x.set(xy(n - 1, 0, n), w2);
    x.set(xy(0, n - 1, n), w3);
    x.set(xy(n - 1, n - 1, n), w4);
    proof {
        assert forall|k: int|
            0 <= k < nn * nn implies x@[k] == boundary_cell(s0, action, nn, k) by {
            lemma_coords_bounds(k, nn);
            lemma_cell_coords(0, 0, nn);
            lemma_cell_coords(nn - 1, 0, nn);
            lemma_cell_coords(0, nn - 1, nn);
            lemma_cell_coords(nn - 1, nn - 1, nn);
            lemma_cell_coords(1, 0, nn);
            lemma_cell_coords(0, 1, nn);
            lemma_cell_coords(nn - 2, 0, nn);
            lemma_cell_coords(nn - 1, 1, nn);
            lemma_cell_coords(0, nn - 2, nn);
            lemma_cell_coords(1, nn - 1, nn);
            lemma_cell_coords(nn - 1, nn - 2, nn);
            lemma_cell_coords(nn - 2, nn - 1, nn);
        }
        assert(x@ =~= set_boundary_spec(s0, action, nn));
    }
}

/// The relaxation coefficient `dt` times the diffusion-rate constant times
/// the cell count, in binary32 arithmetic.
pub open spec fn diffuse_coeff(dt: u32, n: int) -> u32 {
    mul_bits(mul_bits(dt, DIFFUSION_RATE_BITS), float_of_u32((n * n) as u32))
}

/// The denominator of the implicit diffusion update: one plus four times
/// the relaxation coefficient.
pub open spec fn diffuse_denom(a: u32) -> u32 {
    add_bits(F_ONE, mul_bits(F_FOUR, a))
}

/// The relaxed value of the interior cell `(i, j)`: its pre-diffusion value
/// plus `a` times the sum of its four neighbours in the current state,
/// divided by the denominator, clamped into the unit interval in clamped
/// mode.
pub open spec fn diffuse_cell(
    s: Seq<u32>,
    x0: Seq<u32>,
    a: u32,
    denom: u32,
    clamped: bool,
    n: int,
    i: int,
    j: int,
) -> u32 {
    let nb = add_bits(
        add_bits(
            add_bits(s[grid_index(i - 1, j, n)], s[grid_index(i + 1, j, n)]),
            s[grid_index(i, j - 1, n)],
        ),
        s[grid_index(i, j + 1, n)],
    );
    let v = div_bits(add_bits(x0[grid_index(i, j, n)], mul_bits(a, nb)), denom);
    if clamped {
        clamp01_bits(v)
    } else {
        v
    }
}

/// One row of a relaxation sweep, up to but not including column `i`. The
/// sweep is in place: each cell reads the values its left and lower
/// neighbours were just given.
pub open spec fn diffuse_sweep_row(
    s: Seq<u32>,
    x0: Seq<u32>,
    a: u32,
    denom: u32,
    clamped: bool,
    n: int,
    j: int,
    i: int,
) -> Seq<u32>
    decreases i,
{
    if i <= 1 {
        s
    } else {
        let prev = diffuse_sweep_row(s, x0, a, denom, clamped, n, j, i - 1);
        prev.update(
            grid_index(i - 1, j, n),
            diffuse_cell(prev, x0, a, denom, clamped, n, i - 1, j),
        )
    }
}

/// The rows of a relaxation sweep below row `j`, each swept over the full
/// interior width.
pub open spec fn diffuse_sweep_rows(
    s: Seq<u32>,
    x0: Seq<u32>,
    a: u32,
    denom: u32,
    clamped: bool,
    n: int,
    j: int,
) -> Seq<u32>
    decreases j,
{
    if j <= 1 {
        s
    } else {
        diffuse_sweep_row(
            diffuse_sweep_rows(s, x0, a, denom, clamped, n, j - 1),
            x0,
            a,
            denom,
            clamped,
            n,
            j - 1,
            n - 1,
        )
    }
}

/// The field after `iter` relaxation passes of the implicit diffusion
/// system, each followed by boundary enforcement with the `Neighbour`
/// action.
pub open spec fn diffuse_spec(
    x: Seq<u32>,
    x0: Seq<u32>,
    dt: u32,
    iter: int,
    n: int,
    clamped: bool,
) -> Seq<u32>
    decreases iter,
{
    if iter <= 0 {
        x
    } else {
        let prev = diffuse_spec(x, x0, dt, iter - 1, n, clamped);
        let a = diffuse_coeff(dt, n);
        let denom = diffuse_denom(a);
        set_boundary_spec(
            diffuse_sweep_rows(prev, x0, a, denom, clamped, n, n - 1),
            BoundaryAction::Neighbour,
            n,
        )
    }
}

/// Relaxes the field `x` toward the solution of the implicit diffusion
/// system with pre-diffusion values `x0`, running `iter` in-place passes
/// over the interior and refreshing the boundary after each. In clamped
/// mode every relaxed value is clamped into the unit interval, the range
/// of a density field; unclamped mode leaves the range unrestricted for
/// velocity components.
pub fn diffuse(x: &mut Vec<u32>, x0: &Vec<u32>, dt: u32, iter: u32, n: u32, clamped: bool)
    requires
        old(x)@.len() == n * n,
        x0@.len() == n * n,
        3 <= n <= MAX_RESOLUTION,
    ensures
        final(x)@ == diffuse_spec(old(x)@, x0@, dt, iter as int, n as int, clamped),
{
    let ghost s0 = old(x)@;
    let ghost nn = n as int;
    proof {
        assert((n as int) * (n as int) <= 0xFFFF * 0xFFFF) by (nonlinear_arith)
            requires
                n <= 0xFFFF,
        ;
    }
    let a = f_mul(f_mul(dt, DIFFUSION_RATE_BITS), f_of_u32(n * n));
    let denom = f_add(F_ONE, f_mul(F_FOUR, a));
    let mut k: u32 = 0;
    while k < iter
        invariant
            k <= iter,
            3 <= n <= MAX_RESOLUTION,
            nn == n as int,
            x@.len() == n * n,
            x0@.len() == n * n,
            a == diffuse_coeff(dt, nn),
            denom == diffuse_denom(a),
            x@ == diffuse_spec(s0, x0@, dt, k as int, nn, clamped),
        decreases iter - k,
    {
        let ghost pass_start = x@;
        let mut j: u32 = 1;
        while j < n - 1
            invariant
                1 <= j <= n - 1,
                3 <= n <= MAX_RESOLUTION,
                nn == n as int,
                x@.len() == n * n,
                x0@.len() == n * n,
                x@ == diffuse_sweep_rows(pass_start, x0@, a, denom, clamped, nn, j as int),
            decreases n - 1 - j,
        {
            let ghost row_start = x@;
            let mut i: u32 = 1;
            while i < n - 1
                invariant
                    1 <= i <= n - 1,
                    1 <= j <= n - 2,
                    3 <= n <= MAX_RESOLUTION,
                    nn == n as int,
                    x@.len() == n * n,
                    x0@.len() == n * n,
                    x@ == diffuse_sweep_row(row_start, x0@, a, denom, clamped, nn, j as int, i as int),
                decreases n - 1 - i,
            {
                let nb = f_add(
                    f_add(f_add(x[xy(i - 1, j, n)], x[xy(i + 1, j, n)]), x[xy(i, j - 1, n)]),
                    x[xy(i, j + 1, n)],
                );
                let v = f_div(f_add(x0[xy(i, j, n)], f_mul(a, nb)), denom);
                let val = if clamped {
                    clamp(v)
                } else {
                    v
                };
                x.set(xy(i, j, n), val);
                i = i + 1;
            }
            j = j + 1;
        }
        set_boundary(x, BoundaryAction::Neighbour, n);
        k = k + 1;
    }
}

/// An integer clamped into `[lo, hi]`.
pub open spec fn int_clamp(v: int, lo: int, hi: int) -> int {
    if v < lo {
        lo
    } else if v > hi {
        hi
    } else {
        v
    }
}

/// The advected value of the interior cell named by the flat offset `k`:
/// the position the cell's contents came from is traced backward along the
/// velocity `(u, v)` scaled by `dt0`, clamped away from the outer ring, and
/// the source field `d0` is bilinearly interpolated there. The integer cell
/// of the traced position is additionally clamped into the grid, so the
/// four-point stencil stays in bounds whatever the float conversions
/// returned; the float clamp already guarantees this on every ordinary
/// path.
pub open spec fn advect_cell(d0: Seq<u32>, u: Seq<u32>, v: Seq<u32>, dt0: u32, n: int, k: int) -> u32 {
    let i = k % n;
    let j = k / n;
    let hi = sub_bits(float_of_u32(n as u32), F_FIVE_HALVES);
    let xp = clamp_bits(
        sub_bits(float_of_u32(i as u32), mul_bits(dt0, u[k])),
        F_THREE_HALVES,
        hi,
    );
    let yp = clamp_bits(
        sub_bits(float_of_u32(j as u32), mul_bits(dt0, v[k])),
        F_THREE_HALVES,
        hi,
    );
    let x0 = int_clamp(u32_of_float(xp) as int, 0, n - 2);
    let y0 = int_clamp(u32_of_float(yp) as int, 0, n - 2);
    let fx = sub_bits(xp, float_of_u32(x0 as u32));
    let fy = sub_bits(yp, float_of_u32(y0 as u32));
    lerp_bits(
        lerp_bits(d0[grid_index(x0, y0, n)], d0[grid_index(x0, y0 + 1, n)], fy),
        lerp_bits(d0[grid_index(x0 + 1, y0, n)], d0[grid_index(x0 + 1, y0 + 1, n)], fy),
        fx,
    )
}

/// The destination field after every interior cell is advected; the outer
/// ring still holds the destination's previous values.
pub open spec fn advect_interior_spec(
    d: Seq<u32>,
    d0: Seq<u32>,
    u: Seq<u32>,
    v: Seq<u32>,
    dt: u32,
    n: int,
) -> Seq<u32> {
    let dt0 = mul_bits(dt, float_of_u32(n as u32));
    Seq::new(
        (n * n) as nat,
        |k: int|
            if is_interior(n, k) {
                advect_cell(d0, u, v, dt0, n, k)
            } else {
                d[k]
            },
    )
}

/// The destination field after advection and the closing boundary refresh.
pub open spec fn advect_spec(
    d: Seq<u32>,
    d0: Seq<u32>,
    u: Seq<u32>,
    v: Seq<u32>,
    dt: u32,
    n: int,
) -> Seq<u32> {
    set_boundary_spec(advect_interior_spec(d, d0, u, v, dt, n), BoundaryAction::Neighbour, n)
}

/// Fills `d` by semi-Lagrangian backward tracing of the source field `d0`
/// through the velocity field `(u, v)` over one time step, then refreshes
/// the boundary with the `Neighbour` action.
pub fn advect(d: &mut Vec<u32>, d0: &Vec<u32>, u: &Vec<u32>, v: &Vec<u32>, dt: u32, n: u32)
    requires
        old(d)@.len() == n * n,
        d0@.len() == n * n,
        u@.len() == n * n,
        v@.len() == n * n,
        3 <= n <= MAX_RESOLUTION,
    ensures
        final(d)@ == advect_spec(old(d)@, d0@, u@, v@, dt, n as int),
{
    let ghost s0 = old(d)@;
    let ghost nn = n as int;
    let dt0 = f_mul(dt, f_of_u32(n));
    let hi = f_sub(f_of_u32(n), F_FIVE_HALVES);
    let mut j: u32 = 1;
    while j < n - 1
        invariant
            1 <= j <= n - 1,
            3 <= n <= MAX_RESOLUTION,
            nn == n as int,
            d@.len() == n * n,
            d0@.len() == n * n,
            u@.len() == n * n,
            v@.len() == n * n,
            dt0 == mul_bits(dt, float_of_u32(n)),
            hi == sub_bits(float_of_u32(n), F_FIVE_HALVES),
            forall|k: int|
                0 <= k < nn * nn ==> d@[k] == (if is_interior(nn, k) && k / nn < j {
                    advect_cell(d0@, u@, v@, dt0, nn, k)
                } else {
                    s0[k]
                }),
        decreases n - 1 - j,
    {
        let mut i: u32 = 1;
        while i < n - 1
            invariant
                1 <= i <= n - 1,
                1 <= j <= n - 2,
                3 <= n <= MAX_RESOLUTION,
                nn == n as int,
                d@.len() == n * n,
                d0@.len() == n * n,
                u@.len() == n * n,
                v@.len() == n * n,
                dt0 == mul_bits(dt, float_of_u32(n)),
                hi == sub_bits(float_of_u32(n), F_FIVE_HALVES),
                forall|k: int|
                    0 <= k < nn * nn ==> d@[k] == (if is_interior(nn, k) && (k / nn < j || (k / nn
                        == j && k % nn < i)) {
                        advect_cell(d0@, u@, v@, dt0, nn, k)
                    } else {
                        s0[k]
                    }),
            decreases n - 1 - i,
        {
            let ghost dpre = d@;
            proof {
                assert(forall|k: int|
                    0 <= k < nn * nn ==> dpre[k] == (if is_interior(nn, k) && (k / nn < j as int
                        || (k / nn == j as int && k % nn < i as int)) {
                        advect_cell(d0@, u@, v@, dt0, nn, k)
                    } else {
                        s0[k]
                    }));
            }
            let xp = clamp_ab(f_sub(f_of_u32(i), f_mul(dt0, u[xy(i, j, n)])), F_THREE_HALVES, hi);
            let yp = clamp_ab(f_sub(f_of_u32(j), f_mul(dt0, v[xy(i, j, n)])), F_THREE_HALVES, hi);
            let xt = f_to_u32(xp);
            let x0 = if xt > n - 2 {
                n - 2
            } else {
                xt
            };
            let yt = f_to_u32(yp);
            let y0 = if yt > n - 2 {
                n - 2
            } else {
                yt
            };
            let x1 = x0 + 1;
            let y1 = y0 + 1;
            let fx = f_sub(xp, f_of_u32(x0));
            let fy = f_sub(yp, f_of_u32(y0));
            let val = lerp(
                lerp(d0[xy(x0, y0, n)], d0[xy(x0, y1, n)], fy),
                lerp(d0[xy(x1, y0, n)], d0[xy(x1, y1, n)], fy),
                fx,
            );
            d.set(xy(i, j, n), val);
            proof {
                let ii = i as int;
                let jj = j as int;
                lemma_cell_coords(ii, jj, nn);
                lemma_grid_index_bounds(ii, jj, nn);
                assert(d@ == dpre.update(grid_index(ii, jj, nn), val));
                assert(val == advect_cell(d0@, u@, v@, dt0, nn, grid_index(ii, jj, nn)));
                assert forall|k: int|
                    0 <= k < nn * nn implies d@[k] == (if is_interior(nn, k) && (k / nn < jj || (k
                    / nn == jj && k % nn < ii + 1)) {
                    advect_cell(d0@, u@, v@, dt0, nn, k)
                } else {
                    s0[k]
                }) by {
                    lemma_coords_bounds(k, nn);
                }
            }
            i = i + 1;
        }
        j = j + 1;
    }
    proof {
        assert forall|k: int|
            0 <= k < nn * nn implies d@[k] == (if is_interior(nn, k) {
            advect_cell(d0@, u@, v@, mul_bits(dt, float_of_u32(n)), nn, k)
        } else {
            s0[k]
        }) by {
            lemma_coords_bounds(k, nn);
        }
        assert(d@ =~= advect_interior_spec(s0, d0@, u@, v@, dt, nn));
    }
    set_boundary(d, BoundaryAction::Neighbour, n);
}

/// The grid spacing `h`: one divided by the grid side, in binary32
/// arithmetic.
pub open spec fn project_h(n: int) -> u32 {
    div_bits(F_ONE, float_of_u32(n as u32))
}

/// The discrete divergence at the interior cell named by `k`: minus half
/// the grid spacing times the net outward flow read from the four
/// neighbouring velocity samples.
pub open spec fn divergence_cell(u: Seq<u32>, v: Seq<u32>, h: u32, n: int, k: int) -> u32 {
    let i = k % n;
    let j = k / n;
    mul_bits(
        mul_bits(F_NEG_HALF, h),
        sub_bits(
            add_bits(
                sub_bits(u[grid_index(i + 1, j, n)], u[grid_index(i - 1, j, n)]),
                v[grid_index(i, j + 1, n)],
            ),
            v[grid_index(i, j - 1, n)],
        ),
    )
}

/// The divergence scratch field after the interior is filled; the outer
/// ring still holds its previous values.
pub open spec fn divergence_field_spec(
    u: Seq<u32>,
    v: Seq<u32>,
    d: Seq<u32>,
    h: u32,
    n: int,
) -> Seq<u32> {
    Seq::new(
        (n * n) as nat,
        |k: int|
            if is_interior(n, k) {
                divergence_cell(u, v, h, n, k)
            } else {
                d[k]
            },
    )
}

/// The pressure scratch field with its interior zeroed.
pub open spec fn zeroed_interior_spec(p: Seq<u32>, n: int) -> Seq<u32> {
    Seq::new(
        (n * n) as nat,
        |k: int|
            if is_interior(n, k) {
                F_ZERO
            } else {
                p[k]
            },
    )
}

/// The relaxed pressure at the interior cell `(i, j)`: the cell's
/// divergence plus its four neighbours in the current state, divided by
/// four.
pub open spec fn pressure_cell(p: Seq<u32>, d: Seq<u32>, n: int, i: int, j: int) -> u32 {
    div_bits(
        add_bits(
            add_bits(
                add_bits(
                    add_bits(d[grid_index(i, j, n)], p[grid_index(i - 1, j, n)]),
                    p[grid_index(i + 1, j, n)],
                ),
                p[grid_index(i, j - 1, n)],
            ),
            p[grid_index(i, j + 1, n)],
        ),
        F_FOUR,
    )
}

/// One row of a pressure relaxation sweep, up to but not including column
/// `i`; the sweep is in place.
pub open spec fn pressure_sweep_row(p: Seq<u32>, d: Seq<u32>, n: int, j: int, i: int) -> Seq<u32>
    decreases i,
{
    if i <= 1 {
        p
    } else {
        let prev = pressure_sweep_row(p, d, n, j, i - 1);
        prev.update(grid_index(i - 1, j, n), pressure_cell(prev, d, n, i - 1, j))
    }
}

/// The rows of a pressure relaxation sweep below row `j`, each swept over
/// the full interior width.
pub open spec fn pressure_sweep_rows(p: Seq<u32>, d: Seq<u32>, n: int, j: int) -> Seq<u32>
    decreases j,
{
    if j <= 1 {
        p
    } else {
        pressure_sweep_row(pressure_sweep_rows(p, d, n, j - 1), d, n, j - 1, n - 1)
    }
}

/// The pressure field after `iter` relaxation passes of the discrete
/// Poisson system, each followed by boundary enforcement with the
/// `Neighbour` action.
pub open spec fn pressure_iter_spec(p: Seq<u32>, d: Seq<u32>, iter: int, n: int) -> Seq<u32>
    decreases iter,
{
    if iter <= 0 {
        p
    } else {
        set_boundary_spec(
            pressure_sweep_rows(pressure_iter_spec(p, d, iter - 1, n), d, n, n - 1),
            BoundaryAction::Neighbour,
            n,
        )
    }
}

/// An x-velocity sample minus the discrete x-gradient of the pressure.
pub open spec fn gradient_u_cell(uval: u32, p: Seq<u32>, h: u32, n: int, k: int) -> u32 {
    let i = k % n;
    let j = k / n;
    sub_bits(
        uval,
        div_bits(
            mul_bits(F_HALF, sub_bits(p[grid_index(i + 1, j, n)], p[grid_index(i - 1, j, n)])),
            h,
        ),
    )
}

/// A y-velocity sample minus the discrete y-gradient of the pressure.
pub open spec fn gradient_v_cell(vval: u32, p: Seq<u32>, h: u32, n: int, k: int) -> u32 {
    let i = k % n;
    let j = k / n;
    sub_bits(
        vval,
        div_bits(
            mul_bits(F_HALF, sub_bits(p[grid_index(i, j + 1, n)], p[grid_index(i, j - 1, n)])),
            h,
        ),
    )
}

/// The x-velocity field with the pressure gradient subtracted over the
/// interior.
pub open spec fn gradient_u_spec(u: Seq<u32>, p: Seq<u32>, h: u32, n: int) -> Seq<u32> {
    Seq::new(
        (n * n) as nat,
        |k: int|
            if is_interior(n, k) {
                gradient_u_cell(u[k], p, h, n, k)
            } else {
                u[k]
            },
    )
}

/// The y-velocity field with the pressure gradient subtracted over the
/// interior.
pub open spec fn gradient_v_spec(v: Seq<u32>, p: Seq<u32>, h: u32, n: int) -> Seq<u32> {
    Seq::new(
        (n * n) as nat,
        |k: int|
            if is_interior(n, k) {
                gradient_v_cell(v[k], p, h, n, k)
            } else {
                v[k]
            },
    )
}

/// The four fields after projection: the corrected velocity components,
/// the relaxed pressure and the divergence, in that order.
pub open spec fn project_spec(
    u: Seq<u32>,
    v: Seq<u32>,
    p: Seq<u32>,
    d: Seq<u32>,
    iter: int,
    n: int,
) -> (Seq<u32>, Seq<u32>, Seq<u32>, Seq<u32>) {
    let h = project_h(n);
    let d1 = set_boundary_spec(divergence_field_spec(u, v, d, h, n), BoundaryAction::Neighbour, n);
    let p1 = set_boundary_spec(zeroed_interior_spec(p, n), BoundaryAction::Neighbour, n);
    let p2 = pressure_iter_spec(p1, d1, iter, n);
    let u1 = set_boundary_spec(gradient_u_spec(u, p2, h, n), BoundaryAction::NegativeX, n);
    let v1 = set_boundary_spec(gradient_v_spec(v, p2, h, n), BoundaryAction::NegativeY, n);
    (u1, v1, p2, d1)
}

/// Drives the velocity field `(u, v)` toward divergence-free: computes the
/// discrete divergence into the scratch field `d`, relaxes the discrete
/// Poisson system for the pressure `p` over `iter` passes, and subtracts
/// the pressure gradient from the velocity, enforcing the no-flow-through
/// wall conditions on the result.
pub fn project(
    u: &mut Vec<u32>,
    v: &mut Vec<u32>,
    p: &mut Vec<u32>,
    d: &mut Vec<u32>,
    iter: u32,
    n: u32,
)
    requires
        old(u)@.len() == n * n,
        old(v)@.len() == n * n,
        old(p)@.len() == n * n,
        old(d)@.len() == n * n,
        3 <= n <= MAX_RESOLUTION,
    ensures
        (final(u)@, final(v)@, final(p)@, final(d)@) == project_spec(
            old(u)@,
            old(v)@,
            old(p)@,
            old(d)@,
            iter as int,
            n as int,
        ),
{
    let ghost nn = n as int;
    let ghost su = old(u)@;
    let ghost sv = old(v)@;
    let ghost sp = old(p)@;
    let ghost sd = old(d)@;
    let h = f_div(F_ONE, f_of_u32(n));
    let mut j: u32 = 1;
    while j < n - 1
        invariant
            1 <= j <= n - 1,
            3 <= n <= MAX_RESOLUTION,
            nn == n as int,
            h == project_h(nn),
            u@ == su,
            v@ == sv,
            d@.len() == n * n,
            p@.len() == n * n,
            su.len() == n * n,
            sv.len() == n * n,
            sp.len() == n * n,
            sd.len() == n * n,
            forall|k: int|
                0 <= k < nn * nn ==> d@[k] == (if is_interior(nn, k) && k / nn < j {
                    divergence_cell(su, sv, h, nn, k)
                } else {
                    sd[k]
                }),
            forall|k: int|
                0 <= k < nn * nn ==> p@[k] == (if is_interior(nn, k) && k / nn < j {
                    F_ZERO
                } else {
                    sp[k]
                }),
        decreases n - 1 - j,
    {
        let mut i: u32 = 1;
        while i < n - 1
            invariant
                1 <= i <= n - 1,
                1 <= j <= n - 2,
                3 <= n <= MAX_RESOLUTION,
                nn == n as int,
                h == project_h(nn),
                u@ == su,
                v@ == sv,
                d@.len() == n * n,
                p@.len() == n * n,
                su.len() == n * n,
                sv.len() == n * n,
                sp.len() == n * n,
                sd.len() == n * n,
                forall|k: int|
                    0 <= k < nn * nn ==> d@[k] == (if is_interior(nn, k) && (k / nn < j || (k / nn
                        == j && k % nn < i)) {
                        divergence_cell(su, sv, h, nn, k)
                    } else {
                        sd[k]
                    }),
                forall|k: int|
                    0 <= k < nn * nn ==> p@[k] == (if is_interior(nn, k) && (k / nn < j || (k / nn
                        == j && k % nn < i)) {
                        F_ZERO
                    } else {
                        sp[k]
                    }),
            decreases n - 1 - i,
        {
            let ghost dpre = d@;
            let ghost ppre = p@;
            proof {
                assert(forall|k: int|
                    0 <= k < nn * nn ==> dpre[k] == (if is_interior(nn, k) && (k / nn < j as int
                        || (k / nn == j as int && k % nn < i as int)) {
                        divergence_cell(su, sv, h, nn, k)
                    } else {
                        sd[k]
                    }));
                assert(forall|k: int|
                    0 <= k < nn * nn ==> ppre[k] == (if is_interior(nn, k) && (k / nn < j as int
                        || (k / nn == j as int && k % nn < i as int)) {
                        F_ZERO
                    } else {
                        sp[k]
                    }));
            }
            let dv = f_mul(
                f_mul(F_NEG_HALF, h),
                f_sub(
                    f_add(f_sub(u[xy(i + 1, j, n)], u[xy(i - 1, j, n)]), v[xy(i, j + 1, n)]),
                    v[xy(i, j - 1, n)],
                ),
            );
            d.set(xy(i, j, n), dv);
            p.set(xy(i, j, n), F_ZERO);
            proof {
                let ii = i as int;
                let jj = j as int;
                lemma_cell_coords(ii, jj, nn);
                lemma_grid_index_bounds(ii, jj, nn);
                assert(d@ == dpre.update(grid_index(ii, jj, nn), dv));
                assert(p@ == ppre.update(grid_index(ii, jj, nn), F_ZERO));
                assert(dv == divergence_cell(su, sv, h, nn, grid_index(ii, jj, nn)));
                assert forall|k: int|
                    0 <= k < nn * nn implies d@[k] == (if is_interior(nn, k) && (k / nn < jj || (k
                    / nn == jj && k % nn < ii + 1)) {
                    divergence_cell(su, sv, h, nn, k)
                } else {
                    sd[k]
                }) && p@[k] == (if is_interior(nn, k) && (k / nn < jj || (k / nn == jj && k % nn
                    < ii + 1)) {
                    F_ZERO
                } else {
                    sp[k]
                }) by {
                    lemma_coords_bounds(k, nn);
                }
            }
            i = i + 1;
        }
        j = j + 1;
    }
    proof {
        assert forall|k: int|
            0 <= k < nn * nn implies d@[k] == (if is_interior(nn, k) {
            divergence_cell(su, sv, h, nn, k)
        } else {
            sd[k]
        }) && p@[k] == (if is_interior(nn, k) {
            F_ZERO
        } else {
            sp[k]
        }) by {
            lemma_coords_bounds(k, nn);
        }
        assert(d@ =~= divergence_field_spec(su, sv, sd, h, nn));
        assert(p@ =~= zeroed_interior_spec(sp, nn));
    }
    set_boundary(d, BoundaryAction::Neighbour, n);
    set_boundary(p, BoundaryAction::Neighbour, n);
    let ghost d1 = d@;
    let ghost p1 = p@;
    let mut k: u32 = 0;
    while k < iter
        invariant
            k <= iter,
            3 <= n <= MAX_RESOLUTION,
            nn == n as int,
            u@ == su,
            v@ == sv,
            d@ == d1,
            p@.len() == n * n,
            d1.len() == n * n,
            p@ == pressure_iter_spec(p1, d1, k as int, nn),
        decreases iter - k,
    {
        let ghost pass_start = p@;
        let mut j2: u32 = 1;
        while j2 < n - 1
            invariant
                1 <= j2 <= n - 1,
                3 <= n <= MAX_RESOLUTION,
                nn == n as int,
                d@ == d1,
                d1.len() == n * n,
                p@.len() == n * n,
                p@ == pressure_sweep_rows(pass_start, d1, nn, j2 as int),
            decreases n - 1 - j2,
        {
            let ghost row_start = p@;
            let mut i2: u32 = 1;
            while i2 < n - 1
                invariant
                    1 <= i2 <= n - 1,
                    1 <= j2 <= n - 2,
                    3 <= n <= MAX_RESOLUTION,
                    nn == n as int,
                    d@ == d1,
                    d1.len() == n * n,
                    p@.len() == n * n,
                    p@ == pressure_sweep_row(row_start, d1, nn, j2 as int, i2 as int),
                decreases n - 1 - i2,
            {
                let pv = f_div(
                    f_add(
                        f_add(
                            f_add(
                                f_add(d[xy(i2, j2, n)], p[xy(i2 - 1, j2, n)]),
                                p[xy(i2 + 1, j2, n)],
                            ),
                            p[xy(i2, j2 - 1, n)],
                        ),
                        p[xy(i2, j2 + 1, n)],
                    ),
                    F_FOUR,
                );
                p.set(xy(i2, j2, n), pv);
                i2 = i2 + 1;
            }
            j2 = j2 + 1;
        }
        set_boundary(p, BoundaryAction::Neighbour, n);
        k = k + 1;
    }
    let ghost p2 = p@;
    let mut j3: u32 = 1;
    while j3 < n - 1
        invariant
            1 <= j3 <= n - 1,
            3 <= n <= MAX_RESOLUTION,
            nn == n as int,
            h == project_h(nn),
            d@ == d1,
            p@ == p2,
            p2.len() == n * n,
            u@.len() == n * n,
            v@.len() == n * n,
            su.len() == n * n,
            sv.len() == n * n,
            forall|k2: int|
                0 <= k2 < nn * nn ==> u@[k2] == (if is_interior(nn, k2) && k2 / nn < j3 {
                    gradient_u_cell(su[k2], p2, h, nn, k2)
                } else {
                    su[k2]
                }),
            forall|k2: int|
                0 <= k2 < nn * nn ==> v@[k2] == (if is_interior(nn, k2) && k2 / nn < j3 {
                    gradient_v_cell(sv[k2], p2, h, nn, k2)
                } else {
                    sv[k2]
                }),
        decreases n - 1 - j3,
    {
        let mut i3: u32 = 1;
        while i3 < n - 1
            invariant
                1 <= i3 <= n - 1,
                1 <= j3 <= n - 2,
                3 <= n <= MAX_RESOLUTION,
                nn == n as int,
                h == project_h(nn),
                d@ == d1,
                p@ == p2,
                p2.len() == n * n,
                u@.len() == n * n,
                v@.len() == n * n,
                su.len() == n * n,
                sv.len() == n * n,
                forall|k2: int|
                    0 <= k2 < nn * nn ==> u@[k2] == (if is_interior(nn, k2) && (k2 / nn < j3 || (
                    k2 / nn == j3 && k2 % nn < i3)) {
                        gradient_u_cell(su[k2], p2, h, nn, k2)
                    } else {
                        su[k2]
                    }),
                forall|k2: int|
                    0 <= k2 < nn * nn ==> v@[k2] == (if is_interior(nn, k2) && (k2 / nn < j3 || (
                    k2 / nn == j3 && k2 % nn < i3)) {
                        gradient_v_cell(sv[k2], p2, h, nn, k2)
                    } else {
                        sv[k2]
                    }),
            decreases n - 1 - i3,
        {
            let ghost upre = u@;
            let ghost vpre = v@;
            proof {
                assert(forall|k2: int|
                    0 <= k2 < nn * nn ==> upre[k2] == (if is_interior(nn, k2) && (k2 / nn
                        < j3 as int || (k2 / nn == j3 as int && k2 % nn < i3 as int)) {
                        gradient_u_cell(su[k2], p2, h, nn, k2)
                    } else {
                        su[k2]
                    }));
                assert(forall|k2: int|
                    0 <= k2 < nn * nn ==> vpre[k2] == (if is_interior(nn, k2) && (k2 / nn
                        < j3 as int || (k2 / nn == j3 as int && k2 % nn < i3 as int)) {
                        gradient_v_cell(sv[k2], p2, h, nn, k2)
                    } else {
                        sv[k2]
                    }));
            }
            let uv = f_sub(
                u[xy(i3, j3, n)],
                f_div(f_mul(F_HALF, f_sub(p[xy(i3 + 1, j3, n)], p[xy(i3 - 1, j3, n)])), h),
            );
            let vv = f_sub(
                v[xy(i3, j3, n)],
                f_div(f_mul(F_HALF, f_sub(p[xy(i3, j3 + 1, n)], p[xy(i3, j3 - 1, n)])), h),
            );
            u.set(xy(i3, j3, n), uv);
            v.set(xy(i3, j3, n), vv);
            proof {
                let ii = i3 as int;
                let jj = j3 as int;
                lemma_cell_coords(ii, jj, nn);
                lemma_grid_index_bounds(ii, jj, nn);
                assert(u@ == upre.update(grid_index(ii, jj, nn), uv));
                assert(v@ == vpre.update(grid_index(ii, jj, nn), vv));
                assert(uv == gradient_u_cell(su[grid_index(ii, jj, nn)], p2, h, nn, grid_index(ii, jj, nn)));
                assert(vv == gradient_v_cell(sv[grid_index(ii, jj, nn)], p2, h, nn, grid_index(ii, jj, nn)));
                assert forall|k2: int|
                    0 <= k2 < nn * nn implies u@[k2] == (if is_interior(nn, k2) && (k2 / nn < jj
                    || (k2 / nn == jj && k2 % nn < ii + 1)) {
                    gradient_u_cell(su[k2], p2, h, nn, k2)
                } else {
                    su[k2]
                }) && v@[k2] == (if is_interior(nn, k2) && (k2 / nn < jj || (k2 / nn == jj && k2
                    % nn < ii + 1)) {
                    gradient_v_cell(sv[k2], p2, h, nn, k2)
                } else {
                    sv[k2]
                }) by {
                    lemma_coords_bounds(k2, nn);
                }
            }
            i3 = i3 + 1;
        }
        j3 = j3 + 1;
    }
    proof {
        assert forall|k2: int|
            0 <= k2 < nn * nn implies u@[k2] == (if is_interior(nn, k2) {
            gradient_u_cell(su[k2], p2, h, nn, k2)
        } else {
            su[k2]
        }) && v@[k2] == (if is_interior(nn, k2) {
            gradient_v_cell(sv[k2], p2, h, nn, k2)
        } else {
            sv[k2]
        }) by {
            lemma_coords_bounds(k2, nn);
        }
        assert(u@ =~= gradient_u_spec(su, p2, h, nn));
        assert(v@ =~= gradient_v_spec(sv, p2, h, nn));
    }
    set_boundary(u, BoundaryAction::NegativeX, n);
    set_boundary(v, BoundaryAction::NegativeY, n);
}

/// After boundary enforcement with the `Neighbour` action, every non-corner
/// edge cell equals its single interior neighbour exactly, and that
/// neighbour itself is untouched.
pub proof fn lemma_boundary_neighbour(s: Seq<u32>, n: int, j: int)
    requires
        3 <= n,
        s.len() == n * n,
        1 <= j <= n - 2,
    ensures
        set_boundary_spec(s, BoundaryAction::Neighbour, n)[grid_index(0, j, n)] == s[grid_index(
            1,
            j,
            n,
        )],
        set_boundary_spec(s, BoundaryAction::Neighbour, n)[grid_index(n - 1, j, n)] == s[grid_index(
            n - 2,
            j,
            n,
        )],
        set_boundary_spec(s, BoundaryAction::Neighbour, n)[grid_index(j, 0, n)] == s[grid_index(
            j,
            1,
            n,
        )],
        set_boundary_spec(s, BoundaryAction::Neighbour, n)[grid_index(j, n - 1, n)] == s[grid_index(
            j,
            n - 2,
            n,
        )],
{
    lemma_cell_coords(0, j, n);
    lemma_cell_coords(n - 1, j, n);
    lemma_cell_coords(j, 0, n);
    lemma_cell_coords(j, n - 1, n);
    lemma_grid_index_bounds(0, j, n);
    lemma_grid_index_bounds(n - 1, j, n);
    lemma_grid_index_bounds(j, 0, n);
    lemma_grid_index_bounds(j, n - 1, n);
}

/// Boundary enforcement never changes an interior cell, whatever the
/// action.
pub proof fn lemma_boundary_interior_unchanged(
    s: Seq<u32>,
    action: BoundaryAction,
    n: int,
    x: int,
    y: int,
)
    requires
        3 <= n,
        s.len() == n * n,
        1 <= x <= n - 2,
        1 <= y <= n - 2,
    ensures
        set_boundary_spec(s, action, n)[grid_index(x, y, n)] == s[grid_index(x, y, n)],
{
    lemma_cell_coords(x, y, n);
    lemma_grid_index_bounds(x, y, n);
}

/// After boundary enforcement with the `NegativeX` action, each cell of the
/// left and right edges is the exact negation (a sign-bit flip) of its
/// interior neighbour.
pub proof fn lemma_boundary_negative_x(s: Seq<u32>, n: int, j: int)
    requires
        3 <= n,
        s.len() == n * n,
        1 <= j <= n - 2,
    ensures
        set_boundary_spec(s, BoundaryAction::NegativeX, n)[grid_index(0, j, n)] == neg_bits(
            s[grid_index(1, j, n)],
        ),
        set_boundary_spec(s, BoundaryAction::NegativeX, n)[grid_index(n - 1, j, n)] == neg_bits(
            s[grid_index(n - 2, j, n)],
        ),
{
    lemma_cell_coords(0, j, n);
    lemma_cell_coords(n - 1, j, n);
    lemma_grid_index_bounds(0, j, n);
    lemma_grid_index_bounds(n - 1, j, n);
}

/// After boundary enforcement with the `NegativeY` action, each cell of the
/// top and bottom edges is the exact negation (a sign-bit flip) of its
/// interior neighbour.
pub proof fn lemma_boundary_negative_y(s: Seq<u32>, n: int, j: int)
    requires
        3 <= n,
        s.len() == n * n,
        1 <= j <= n - 2,
    ensures
        set_boundary_spec(s, BoundaryAction::NegativeY, n)[grid_index(j, 0, n)] == neg_bits(
            s[grid_index(j, 1, n)],
        ),
        set_boundary_spec(s, BoundaryAction::NegativeY, n)[grid_index(j, n - 1, n)] == neg_bits(
            s[grid_index(j, n - 2, n)],
        ),
{
    lemma_cell_coords(j, 0, n);
    lemma_cell_coords(j, n - 1, n);
    lemma_grid_index_bounds(j, 0, n);
    lemma_grid_index_bounds(j, n - 1, n);
}

/// After boundary enforcement every corner is half the binary32 sum of its
/// two edge neighbours, in the order the kernel adds them, whatever the
/// action.
pub proof fn lemma_boundary_corners(s: Seq<u32>, action: BoundaryAction, n: int)
    requires
        3 <= n,
        s.len() == n * n,
    ensures
        ({
            let b = set_boundary_spec(s, action, n);
            b[grid_index(0, 0, n)] == mul_bits(
                F_HALF,
                add_bits(b[grid_index(1, 0, n)], b[grid_index(0, 1, n)]),
            ) && b[grid_index(n - 1, 0, n)] == mul_bits(
                F_HALF,
                add_bits(b[grid_index(n - 2, 0, n)], b[grid_index(n - 1, 1, n)]),
            ) && b[grid_index(0, n - 1, n)] == mul_bits(
                F_HALF,
                add_bits(b[grid_index(0, n - 2, n)], b[grid_index(1, n - 1, n)]),
            ) && b[grid_index(n - 1, n - 1, n)] == mul_bits(
                F_HALF,
                add_bits(b[grid_index(n - 1, n - 2, n)], b[grid_index(n - 2, n - 1, n)]),
            )
        }),
{
    lemma_cell_coords(0, 0, n);
    lemma_cell_coords(n - 1, 0, n);
    lemma_cell_coords(0, n - 1, n);
    lemma_cell_coords(n - 1, n - 1, n);
    lemma_cell_coords(1, 0, n);
    lemma_cell_coords(0, 1, n);
    lemma_cell_coords(n - 2, 0, n);
    lemma_cell_coords(n - 1, 1, n);
    lemma_cell_coords(0, n - 2, n);
    lemma_cell_coords(1, n - 1, n);
    lemma_cell_coords(n - 1, n - 2, n);
    lemma_cell_coords(n - 2, n - 1, n);
    lemma_grid_index_bounds(0, 0, n);
    lemma_grid_index_bounds(n - 1, 0, n);
    lemma_grid_index_bounds(0, n - 1, n);
    lemma_grid_index_bounds(n - 1, n - 1, n);
    lemma_grid_index_bounds(1, 0, n);
    lemma_grid_index_bounds(0, 1, n);
    lemma_grid_index_bounds(n - 2, 0, n);
    lemma_grid_index_bounds(n - 1, 1, n);
    lemma_grid_index_bounds(0, n - 2, n);
    lemma_grid_index_bounds(1, n - 1, n);
    lemma_grid_index_bounds(n - 1, n - 2, n);
    lemma_grid_index_bounds(n - 2, n - 1, n);
}

} // verus!
