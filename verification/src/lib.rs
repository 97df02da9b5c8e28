//! A modular signal-processing rack: processing units are wired together
//! through typed ports into a dataflow graph that must stay acyclic, is
//! re-evaluated once per sample, and streams its mixed output through a
//! bounded real-time buffer.
//!
//! Sample amplitudes and other continuous quantities are fixed-point values:
//! an `i64` counts millionths, so `frame::UNIT` stands for 1.0.

pub mod audio;
pub mod damper;
pub mod file;
pub mod filter;
pub mod frame;
pub mod instance;
pub mod io;
pub mod keyboard;
pub mod module;
pub mod noise;
pub mod ops;
pub mod oscillator;
pub mod output;
pub mod rack;
pub mod scope;
pub mod topo;
pub mod types;
pub mod value;
