//! Engine of a gravitational particle simulator.
//!
//! A population of light bodies is pulled by a small fixed set of heavy
//! attractors, advanced in sub-steps, and captured (pinned) when a body comes
//! within an attractor's capture radius.
//!
//! The engine owns the force law, the integrator, the capture rule, the order
//! of work inside a sub-step, the split into still-mobile and newly pinned
//! bodies, and the stores. Every scalar is carried as the bit pattern of an
//! IEEE-754 double. The engine asks the caller's arithmetic for each sum,
//! product, quotient and trigonometric value, and states what it computes as
//! formulas over the results of that arithmetic.
//!
//! - `scalar`: scalars as bit patterns, their order, and the arithmetic.
//! - `body`: bodies and their transitions between mobile and pinned.
//! - `kernel`: the integrator and the force law.
//! - `substep`: one sub-step of one body against the attractor set.
//! - `parallel`: the fan-out of a sub-step over the worker pool.
//! - `scheduler`: sub-steps over a whole store, and the split after each.
//! - `simulation`: the simulation context and the calls on it.
//! - `laws`: what holds of every run.
//! - `controls`: the decisions of the frame loop around the engine.
//! - `fan`: the vertex indices that bodies are drawn with.

pub mod scalar;
pub mod body;
pub mod kernel;
pub mod substep;
pub mod parallel;
pub mod scheduler;
pub mod simulation;
pub mod laws;
pub mod controls;
pub mod fan;
