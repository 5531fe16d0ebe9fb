//! Measurement of CPU package/core energy consumption through the RAPL
//! (Running Average Power Limit) model-specific registers.
//!
//! The library holds the verified core of the measurement subsystem: the
//! vendor register maps, the one-time power-unit calibration, the
//! start/stop session state machine, and the CSV log-sink formatting.
//! Reading a hardware register is a privileged, OS-specific operation and
//! is performed by the embedding program; the session functions here take
//! the outcome of each register read as an argument and state exactly what
//! is recorded for every outcome.

pub mod amd;
pub mod csvfmt;
pub mod error;
pub mod intel;
pub mod numfmt;
pub mod session;
pub mod vendor;
