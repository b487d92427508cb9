//! A real-time, grid-based, incompressible fluid simulator in the
//! "stable fluids" style: a density field is advected and diffused through
//! a velocity field that is itself kept divergence-free by pressure
//! projection on every tick.
//!
//! Field values are IEEE 754 binary32 numbers carried as their `u32` bit
//! patterns, so that every kernel is a verified, deterministic function of
//! its inputs; the arithmetic itself is performed by a software
//! floating-point library behind a small set of trusted wrappers.

pub mod field;
pub mod fluid;
pub mod fops;
pub mod util;

pub use field::advect;
pub use field::diffuse;
pub use field::project;
pub use field::set_boundary;
pub use field::BoundaryAction;
pub use fluid::Fluid;

pub use util::add_array;
pub use util::clamp;
pub use util::clamp_ab;
pub use util::lerp;
pub use util::xy;
