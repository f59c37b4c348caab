//! Userspace anti-analysis evidence pipeline.
//!
//! Detectors turn low-level measurements into weighted, confidence-scored
//! evidence; the decision engine aggregates that evidence, looks for
//! contradictions between sources, damps the score for noisy environments and
//! emits a verdict. Everything here works on plain values: the probes that take
//! the measurements live with the program that drives the pipeline.

pub mod engine;
pub mod detectors;
pub mod text;
pub mod parse;
