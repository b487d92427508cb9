//! The simulation state: the six grid buffers with their parameters, and
//! the per-tick orchestration of the velocity and density steps.

use vstd::prelude::*;

use crate::field::advect;
use crate::field::advect_spec;
use crate::field::diffuse;
use crate::field::diffuse_spec;
use crate::field::project;
use crate::field::project_spec;
use crate::fops::DEFAULT_DT_BITS;
use crate::fops::F_ZERO;
use crate::util::add_array;
use crate::util::add_fields;
use crate::util::MAX_RESOLUTION;
use vstd::pervasive::VecAdditionalExecFns;

verus! {

/// The default relaxation pass count of a newly constructed state.
pub const DEFAULT_ITERATIONS: u32 = 10;

/// A field of the given cell count with every cell zero.
pub open spec fn zero_field_spec(len: int) -> Seq<u32> {
    Seq::new(len as nat, |i: int| F_ZERO)
}

/// Allocates a zero-filled field of `len` cells.
fn zero_field(len: usize) -> (r: Vec<u32>)
    ensures
        r@ == zero_field_spec(len as int),
{
    let mut v: Vec<u32> = Vec::new();
    let mut i: usize = 0;
    while i < len
        invariant
            i <= len,
            v@.len() == i,
            forall|k: int| 0 <= k < i ==> v@[k] == F_ZERO,
        decreases len - i,
    {
        v.push(F_ZERO);
        i = i + 1;
    }
    proof {
        assert(v@ =~= zero_field_spec(len as int));
    }
    v
}

/// The four velocity buffers after one velocity step: sources added in,
/// both components diffused, the field projected, self-advected, and
/// projected again. Returns the new scratch pair and the new components,
/// in the order `(u0, v0, u, v)`.
///
/// The velocity components are diffused in clamped mode, the same policy
/// the density step uses, although the unit-interval clamp is physically
/// meaningful only for densities; callers who want unclamped velocity
/// diffusion have it through `diffuse` directly.
pub open spec fn velocity_tick_spec(
    u0: Seq<u32>,
    v0: Seq<u32>,
    u: Seq<u32>,
    v: Seq<u32>,
    dt: u32,
    iter: int,
    n: int,
) -> (Seq<u32>, Seq<u32>, Seq<u32>, Seq<u32>) {
    let u1 = add_fields(u, u0);
    let v1 = add_fields(v, v0);
    let du0 = diffuse_spec(u0, u1, dt, iter, n, true);
    let dv0 = diffuse_spec(v0, v1, dt, iter, n, true);
    let (u2, v2, p1, d1) = project_spec(u1, v1, du0, dv0, iter, n);
    let u3 = advect_spec(p1, u2, u2, v2, dt, n);
    let v3 = advect_spec(d1, v2, u2, v2, dt, n);
    let (u4, v4, p2, d2) = project_spec(u3, v3, u2, v2, iter, n);
    (p2, d2, u4, v4)
}

/// The density pair after one density step: the source buffer added in,
/// the sum diffused with the unit-interval clamp, and the result advected
/// through the velocity field. Returns `(d0, d)`.
pub open spec fn density_tick_spec(
    d0: Seq<u32>,
    d: Seq<u32>,
    u: Seq<u32>,
    v: Seq<u32>,
    dt: u32,
    iter: int,
    n: int,
) -> (Seq<u32>, Seq<u32>) {
    let d1 = add_fields(d, d0);
    let d2 = diffuse_spec(d0, d1, dt, iter, n, true);
    let d3 = advect_spec(d1, d2, u, v, dt, n);
    (d2, d3)
}

/// An incompressible-fluid simulation on an `n`-by-`n` grid: a density
/// field advected through a velocity field that is pressure-projected
/// toward divergence-free on every tick. The previous/source buffers are
/// written by the host before a tick to inject ink and forces, and are
/// zeroed again at the end of each tick.
pub struct Fluid {
    dt: u32,
    iterations: u32,
    resolution: u32,
    u: Vec<u32>,
    u0: Vec<u32>,
    v: Vec<u32>,
    v0: Vec<u32>,
    d: Vec<u32>,
    d0: Vec<u32>,
}

impl Fluid {
    /// The grid side, fixed at construction.
    pub closed spec fn res(self) -> u32 {
        self.resolution
    }

    /// The cell count of each buffer.
    pub open spec fn area(self) -> int {
        self.res() * self.res()
    }

    /// The time step, as a binary32 bit pattern.
    pub closed spec fn time_step(self) -> u32 {
        self.dt
    }

    /// The relaxation pass count of the diffusion and projection solves.
    pub closed spec fn iter_count(self) -> u32 {
        self.iterations
    }

    /// The x-velocity field.
    pub closed spec fn u_field(self) -> Seq<u32> {
        self.u@
    }

    /// The x-velocity source/scratch field.
    pub closed spec fn u0_field(self) -> Seq<u32> {
        self.u0@
    }

    /// The y-velocity field.
    pub closed spec fn v_field(self) -> Seq<u32> {
        self.v@
    }

    /// The y-velocity source/scratch field.
    pub closed spec fn v0_field(self) -> Seq<u32> {
        self.v0@
    }

    /// The density field.
    pub closed spec fn d_field(self) -> Seq<u32> {
        self.d@
    }

    /// The density source/scratch field.
    pub closed spec fn d0_field(self) -> Seq<u32> {
        self.d0@
    }

    /// Well-formedness: the resolution admits an interior and all six
    /// buffers hold one value per cell.
    pub open spec fn wf(self) -> bool {
        &&& 3 <= self.res() <= MAX_RESOLUTION
        &&& self.u_field().len() == self.area()
        &&& self.u0_field().len() == self.area()
        &&& self.v_field().len() == self.area()
        &&& self.v0_field().len() == self.area()
        &&& self.d_field().len() == self.area()
        &&& self.d0_field().len() == self.area()
    }

    /// A zero-initialised state with the default time step and pass count.
    pub fn new(resolution: u32) -> (r: Fluid)
        requires
            3 <= resolution <= MAX_RESOLUTION,
        ensures
            r.wf(),
            r.res() == resolution,
            r.time_step() == DEFAULT_DT_BITS,
            r.iter_count() == DEFAULT_ITERATIONS,
            r.u_field() == zero_field_spec(r.area()),
            r.u0_field() == zero_field_spec(r.area()),
            r.v_field() == zero_field_spec(r.area()),
            r.v0_field() == zero_field_spec(r.area()),
            r.d_field() == zero_field_spec(r.area()),
            r.d0_field() == zero_field_spec(r.area()),
    {
        proof {
            assert((resolution as int) * (resolution as int) <= 0xFFFF * 0xFFFF)
                by (nonlinear_arith)
                requires
                    resolution <= 0xFFFF,
            ;
        }
        let area = (resolution as usize) * (resolution as usize);
        Fluid {
            dt: DEFAULT_DT_BITS,
            iterations: DEFAULT_ITERATIONS,
            resolution,
            u: zero_field(area),
            u0: zero_field(area),
            v: zero_field(area),
            v0: zero_field(area),
            d: zero_field(area),
            d0: zero_field(area),
        }
    }

    /// Sets the time step to the binary32 number with the given bits.
    pub fn set_dt(&mut self, dt: u32)
        ensures
            final(self).time_step() == dt,
            final(self).iter_count() == old(self).iter_count(),
            final(self).res() == old(self).res(),
            final(self).u_field() == old(self).u_field(),
            final(self).u0_field() == old(self).u0_field(),
            final(self).v_field() == old(self).v_field(),
            final(self).v0_field() == old(self).v0_field(),
            final(self).d_field() == old(self).d_field(),
            final(self).d0_field() == old(self).d0_field(),
            final(self).wf() == old(self).wf(),
    {
        self.dt = dt;
    }

    /// Sets the relaxation pass count.
    pub fn set_iterations(&mut self, iterations: u32)
        ensures
            final(self).iter_count() == iterations,
            final(self).time_step() == old(self).time_step(),
            final(self).res() == old(self).res(),
            final(self).u_field() == old(self).u_field(),
            final(self).u0_field() == old(self).u0_field(),
            final(self).v_field() == old(self).v_field(),
            final(self).v0_field() == old(self).v0_field(),
            final(self).d_field() == old(self).d_field(),
            final(self).d0_field() == old(self).d0_field(),
            final(self).wf() == old(self).wf(),
    {
        self.iterations = iterations;
    }

    /// The density field, read by the host for display.
    pub fn d(&self) -> (r: &Vec<u32>)
        ensures
            r@ == self.d_field(),
    {
        &self.d
    }

    /// The density source buffer.
    pub fn d0(&self) -> (r: &Vec<u32>)
        ensures
            r@ == self.d0_field(),
    {
        &self.d0
    }

    /// The x-velocity source buffer.
    pub fn source_u(&self) -> (r: &Vec<u32>)
        ensures
            r@ == self.u0_field(),
    {
        &self.u0
    }

    /// The y-velocity source buffer.
    pub fn source_v(&self) -> (r: &Vec<u32>)
        ensures
            r@ == self.v0_field(),
    {
        &self.v0
    }

    /// Injects a density source: writes one cell of the density source
    /// buffer before a tick.
    pub fn write_d0(&mut self, i: usize, value: u32)
        requires
            old(self).wf(),
            i < old(self).area(),
        ensures
            final(self).wf(),
            final(self).d0_field() == old(self).d0_field().update(i as int, value),
            final(self).time_step() == old(self).time_step(),
            final(self).iter_count() == old(self).iter_count(),
            final(self).res() == old(self).res(),
            final(self).u_field() == old(self).u_field(),
            final(self).u0_field() == old(self).u0_field(),
            final(self).v_field() == old(self).v_field(),
            final(self).v0_field() == old(self).v0_field(),
            final(self).d_field() == old(self).d_field(),
    {
        self.d0.set(i, value);
    }

    /// Injects an x-velocity source: writes one cell of the x-velocity
    /// source buffer before a tick.
    pub fn write_source_u(&mut self, i: usize, value: u32)
        requires
            old(self).wf(),
            i < old(self).area(),
        ensures
            final(self).wf(),
            final(self).u0_field() == old(self).u0_field().update(i as int, value),
            final(self).time_step() == old(self).time_step(),
            final(self).iter_count() == old(self).iter_count(),
            final(self).res() == old(self).res(),
            final(self).u_field() == old(self).u_field(),
            final(self).v_field() == old(self).v_field(),
            final(self).v0_field() == old(self).v0_field(),
            final(self).d_field() == old(self).d_field(),
            final(self).d0_field() == old(self).d0_field(),
    {
        self.u0.set(i, value);
    }

    /// Injects a y-velocity source: writes one cell of the y-velocity
    /// source buffer before a tick.
    pub fn write_source_v(&mut self, i: usize, value: u32)
        requires
            old(self).wf(),
            i < old(self).area(),
        ensures
            final(self).wf(),
            final(self).v0_field() == old(self).v0_field().update(i as int, value),
            final(self).time_step() == old(self).time_step(),
            final(self).iter_count() == old(self).iter_count(),
            final(self).res() == old(self).res(),
            final(self).u_field() == old(self).u_field(),
            final(self).u0_field() == old(self).u0_field(),
            final(self).v_field() == old(self).v_field(),
            final(self).d_field() == old(self).d_field(),
            final(self).d0_field() == old(self).d0_field(),
    {
        self.v0.set(i, value);
    }

    /// One velocity step over the four velocity buffers.
    fn velocity_tick(&mut self)
        requires
            old(self).wf(),
        ensures
            final(self).wf(),
            final(self).time_step() == old(self).time_step(),
            final(self).iter_count() == old(self).iter_count(),
            final(self).res() == old(self).res(),
            final(self).d_field() == old(self).d_field(),
            final(self).d0_field() == old(self).d0_field(),
            ({
                let (nu0, nv0, nu, nv) = velocity_tick_spec(
                    old(self).u0_field(),
                    old(self).v0_field(),
                    old(self).u_field(),
                    old(self).v_field(),
                    old(self).time_step(),
                    old(self).iter_count() as int,
                    old(self).res() as int,
                );
                final(self).u0_field() == nu0 && final(self).v0_field() == nv0
                    && final(self).u_field() == nu && final(self).v_field() == nv
            }),
    {
        let dt = self.dt;
        let iter = self.iterations;
        let n = self.resolution;
        add_array(&mut self.u, &self.u0);
        add_array(&mut self.v, &self.v0);
        diffuse(&mut self.u0, &self.u, dt, iter, n, true);
        diffuse(&mut self.v0, &self.v, dt, iter, n, true);
        project(&mut self.u, &mut self.v, &mut self.u0, &mut self.v0, iter, n);
        core::mem::swap(&mut self.u0, &mut self.u);
        core::mem::swap(&mut self.v0, &mut self.v);
        // self-advection: the advected field and the velocity component it
        // is traced through are the same buffer, and both are only read
        advect(&mut self.u, &self.u0, &self.u0, &self.v0, dt, n);
        advect(&mut self.v, &self.v0, &self.u0, &self.v0, dt, n);
        project(&mut self.u, &mut self.v, &mut self.u0, &mut self.v0, iter, n);
    }

    /// One density step over the density pair, through the current
    /// velocity field.
    fn density_tick(&mut self)
        requires
            old(self).wf(),
        ensures
            final(self).wf(),
            final(self).time_step() == old(self).time_step(),
            final(self).iter_count() == old(self).iter_count(),
            final(self).res() == old(self).res(),
            final(self).u_field() == old(self).u_field(),
            final(self).u0_field() == old(self).u0_field(),
            final(self).v_field() == old(self).v_field(),
            final(self).v0_field() == old(self).v0_field(),
            ({
                let (nd0, nd) = density_tick_spec(
                    old(self).d0_field(),
                    old(self).d_field(),
                    old(self).u_field(),
                    old(self).v_field(),
                    old(self).time_step(),
                    old(self).iter_count() as int,
                    old(self).res() as int,
                );
                final(self).d0_field() == nd0 && final(self).d_field() == nd
            }),
    {
        let dt = self.dt;
        let iter = self.iterations;
        let n = self.resolution;
        add_array(&mut self.d, &self.d0);
        core::mem::swap(&mut self.d0, &mut self.d);
        diffuse(&mut self.d, &self.d0, dt, iter, n, true);
        core::mem::swap(&mut self.d0, &mut self.d);
        advect(&mut self.d, &self.d0, &self.u, &self.v, dt, n);
    }

    /// Zeroes the three source buffers so the next tick's injection starts
    /// from a clean slate.
    fn reset_arrays(&mut self)
        requires
            old(self).wf(),
        ensures
            final(self).wf(),
            final(self).time_step() == old(self).time_step(),
            final(self).iter_count() == old(self).iter_count(),
            final(self).res() == old(self).res(),
            final(self).u_field() == old(self).u_field(),
            final(self).v_field() == old(self).v_field(),
            final(self).d_field() == old(self).d_field(),
            final(self).u0_field() == zero_field_spec(old(self).area()),
            final(self).v0_field() == zero_field_spec(old(self).area()),
            final(self).d0_field() == zero_field_spec(old(self).area()),
    {
        proof {
            assert((self.resolution as int) * (self.resolution as int) <= 0xFFFF * 0xFFFF)
                by (nonlinear_arith)
                requires
                    self.resolution <= 0xFFFF,
            ;
        }
        let area = (self.resolution as usize) * (self.resolution as usize);
        self.d0 = zero_field(area);
        self.u0 = zero_field(area);
        self.v0 = zero_field(area);
    }

    /// Advances the simulation by one time step: the velocity step, then
    /// the density step, then the source buffers are zeroed.
    pub fn tick(&mut self)
        requires
            old(self).wf(),
        ensures
            final(self).wf(),
            tick_rel(*old(self), *final(self)),
    {
        self.velocity_tick();
        self.density_tick();
        self.reset_arrays();
    }
}

/// How one tick relates the state before it to the state after it: the
/// parameters are kept, the velocity and density fields are the exact
/// composition of the velocity and density steps, and the source buffers
/// are zeroed.
pub open spec fn tick_rel(pre: Fluid, post: Fluid) -> bool {
    &&& post.res() == pre.res()
    &&& post.time_step() == pre.time_step()
    &&& post.iter_count() == pre.iter_count()
    &&& ({
        let (nu0, nv0, nu, nv) = velocity_tick_spec(
            pre.u0_field(),
            pre.v0_field(),
            pre.u_field(),
            pre.v_field(),
            pre.time_step(),
            pre.iter_count() as int,
            pre.res() as int,
        );
        let (nd0, nd) = density_tick_spec(
            pre.d0_field(),
            pre.d_field(),
            nu,
            nv,
            pre.time_step(),
            pre.iter_count() as int,
            pre.res() as int,
        );
        post.u_field() == nu && post.v_field() == nv && post.d_field() == nd && post.u0_field()
            == zero_field_spec(pre.area()) && post.v0_field() == zero_field_spec(pre.area())
            && post.d0_field() == zero_field_spec(pre.area())
    })
}

/// Ticks are deterministic: two states with the same parameters and
/// bit-identical buffers step to bit-identical buffers. Applied tick by
/// tick, identically constructed and identically fed states stay
/// bit-identical forever.
pub proof fn lemma_tick_deterministic(a0: Fluid, a1: Fluid, b0: Fluid, b1: Fluid)
    requires
        tick_rel(a0, a1),
        tick_rel(b0, b1),
        a0.res() == b0.res(),
        a0.time_step() == b0.time_step(),
        a0.iter_count() == b0.iter_count(),
        a0.u_field() == b0.u_field(),
        a0.u0_field() == b0.u0_field(),
        a0.v_field() == b0.v_field(),
        a0.v0_field() == b0.v0_field(),
        a0.d_field() == b0.d_field(),
        a0.d0_field() == b0.d0_field(),
    ensures
        a1.res() == b1.res(),
        a1.time_step() == b1.time_step(),
        a1.iter_count() == b1.iter_count(),
        a1.u_field() == b1.u_field(),
        a1.u0_field() == b1.u0_field(),
        a1.v_field() == b1.v_field(),
        a1.v0_field() == b1.v0_field(),
        a1.d_field() == b1.d_field(),
        a1.d0_field() == b1.d0_field(),
{
}

} // verus!
