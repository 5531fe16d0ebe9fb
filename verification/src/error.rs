//! The error taxonomy of the measurement subsystem.

use vstd::prelude::*;

verus! {

/// Why a session operation could not proceed.
///
/// Every failure is reported to the caller as a value of this type;
/// no operation of the library halts the process.
#[derive(Clone, Copy, Debug, PartialEq, Eq, Structural)]
pub enum RaplError {
    /// The scale/unit register could not be read, so the one-time
    /// calibration failed and no session can proceed in this process
    /// until a later read succeeds.
    PowerUnitRead,
    /// An energy-counter register could not be read; the field names
    /// the model-specific register address that failed.
    RegisterRead(u64),
    /// A stop was requested while no session was armed: there is no
    /// baseline snapshot to pair the final snapshot with.
    NotStarted,
    /// A failure that fits no other variant.
    Unknown,
}

} // verus!
