//! A set-associative cache simulator.
//!
//! The crate replays a recorded sequence of memory accesses against a
//! configurable model of a hardware cache and reports hit/miss statistics,
//! including the effect of an optional victim buffer and of optional
//! way-prediction mechanisms (MRU and multi-column bit-vectors).
//!
//! The whole simulation is specified by a mathematical transition function
//! over ghost state (`model`); the engine's `run_trace` is proved to return
//! exactly the statistics that this function computes, which also pins down
//! determinism and the conservation laws of the counters.

pub mod config;
pub mod engine;
pub mod experiments;
pub mod laws;
pub mod line;
pub mod model;
pub mod parse;
pub mod predictor;
pub mod stats;
pub mod textnum;
pub mod trace;
pub mod victim;
pub mod wf;
