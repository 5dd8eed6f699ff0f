//! A programmable HTTP load generator: the verified core.
//!
//! The modules hold the logic that decides what the generator does: the
//! key-value store that backs the global metrics and each virtual user's
//! variables, the `%|expr|%` interpolation of serialized steps, the ramp
//! that paces the spawning of virtual users, the per-user step executor and
//! the aggregation of task results. Transport, timers and file output are
//! driven from outside through these functions.

pub mod executor;
pub mod flow;
pub mod http;
pub mod interpolate;
pub mod json;
pub mod kv;
pub mod laws;
pub mod ramp;
pub mod script;
pub mod status;
