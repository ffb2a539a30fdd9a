//! A fire-control and guidance core for an agent that tracks, leads and
//! intercepts a manoeuvring target.
//!
//! The core works on integers throughout. The caller chooses a unit of
//! length and a unit of time; velocities are in length units per time unit,
//! accelerations in length units per time unit squared, angles in millionths
//! of a degree, angular velocities and accelerations in angle units per time
//! unit and per time unit squared. Coordinates saturate at
//! [`numeric::LIMIT`]; times are any `i64`.
//!
//! The parts, leaves first:
//! - [`numeric`], [`vector`], [`angle`], [`kinematics`]: integer square root,
//!   vectors of the plane, headings, and the equation of motion;
//! - [`config`]: the constants of the agent;
//! - [`track`]: the track of one target, and the rule by which a detection
//!   joins it;
//! - [`search`]: the scan and search controller, a sweep or a track;
//! - [`solver`] and [`convergence`]: the firing solution, and why its
//!   refinement settles;
//! - [`attitude`], [`intercept`], [`gate`]: the torque, the thrust and the
//!   decision to fire;
//! - [`ship`]: the agent, tick by tick.
//!
//! The core measures no angle: where it needs the heading from one point to
//! another, the caller measures it and hands it in.

pub mod numeric;
pub mod vector;
pub mod kinematics;
pub mod angle;
pub mod config;
pub mod attitude;
pub mod track;
pub mod solver;
pub mod convergence;
pub mod gate;
pub mod intercept;
pub mod search;
pub mod ship;
