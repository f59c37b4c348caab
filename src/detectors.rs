//! Detectors: each turns measurements into findings for the decision engine.

pub mod stats;
pub mod timing;
pub mod jitter;
pub mod int3;
pub mod record_replay;
pub mod ebpf_compare;
pub mod hardware_bp;
pub mod ptrace;
