//! A fixed-size worker pool, stated as a state machine.
//!
//! The pool owns a first-in, first-out queue of [`signal::Signal`]s and a fixed
//! set of [`worker::Worker`]s. Units of work are opaque values of a type `T`
//! chosen by the caller; the pool never looks inside one. The caller's threads
//! drive the machine: a worker thread asks the pool for its next signal, runs
//! the unit that it was handed outside the pool, and tells the pool how the
//! run ended.
//!
//! - [`signal`]: the messages on the queue, and the errors.
//! - [`worker`]: one worker and its life cycle.
//! - [`model`]: the pool as a mathematical state machine, with its invariant.
//! - [`pool`]: the executable pool, each operation stated against the model.
//! - [`laws`]: what holds of every pool: each unit is delivered once, in the
//!   order of submission, and shutdown leaves no work behind.
//! - [`route`]: the routing and the answers of the small server that uses the
//!   pool.
pub mod laws;
pub mod model;
pub mod pool;
pub mod route;
pub mod signal;
pub mod worker;
