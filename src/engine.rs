//! The decision engine and the process-wide state it consults.

pub mod policy;
pub mod signal_compat;
pub mod environment;
pub mod responses;
