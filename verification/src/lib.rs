//! Composition pipeline for timed video overlays.
//!
//! Given a timeline of move timestamps, the library plans paired
//! overlay/background segments, synthesizes the argument list for an external
//! compositing engine, classifies the outcome of bounded external process
//! runs, and drives the whole export as a sequential state machine.  All
//! times are carried as whole milliseconds, the precision the pipeline works
//! at (three decimal places of a second).

pub mod codec;
pub mod decimal;
pub mod errors;
pub mod parse;
pub mod plan;
pub mod platform;
pub mod orchestrate;
pub mod outcome;
pub mod synth;
