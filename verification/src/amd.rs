//! Model-specific register addresses for the AMD RAPL interface.

use vstd::prelude::*;

verus! {

/// Scale/unit register; similar to Intel's `MSR_RAPL_POWER_UNIT`.
pub const MSR_RAPL_POWER_UNIT: u64 = 0xC0010299;

/// Package energy counter for the whole socket; similar to Intel's
/// package energy status register.
pub const MSR_RAPL_PKG_ENERGY_STAT: u64 = 0xC001029B;

/// Per-core energy counter; similar to Intel's PP0 energy status.
pub const AMD_MSR_CORE_ENERGY: u64 = 0xC001029A;

} // verus!
