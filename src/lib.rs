//! The contact-resolution core of a rigid-body simulator, verified.
//!
//! - `index` and `coarena`: a generation-checked store that attaches data to
//!   the slots of an arena and rejects stale handles.
//! - `solver_vel`: the per-body velocities that the solver updates.
//! - `two_body_constraint`: the batched contact constraints between pairs of
//!   bodies, and the data movement of the solver around them: reading and
//!   storing body velocities per lane, softening per lane, stripping the bias
//!   for the last passes, and writing impulses back to their manifolds.
//! - `velocity_lanes` and `impulse_writeback`: what storing velocities and
//!   writing impulses back amount to, and the laws that hold of them.

pub mod coarena;
pub mod impulse_writeback;
pub mod index;
pub mod solver_vel;
pub mod two_body_constraint;
pub mod velocity_lanes;
