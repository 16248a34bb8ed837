//! Adaptive silence detection, silence-driven auto-stop and a binary
//! streaming format for recorded audio frames.

pub mod energy;
pub mod detector;
pub mod silence;
pub mod protocol;
pub mod session;
