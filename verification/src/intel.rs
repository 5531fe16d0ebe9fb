//! Model-specific register addresses for the Intel RAPL interface.

use vstd::prelude::*;

verus! {

/// Scale/unit register.
pub const MSR_RAPL_POWER_UNIT: u64 = 0x606;

/// Package energy counter.
pub const MSR_RAPL_PKG_ENERGY_STAT: u64 = 0x611;

/// Power-plane 0 (cores) energy counter.
pub const INTEL_MSR_RAPL_PP0: u64 = 0x639;

/// Power-plane 1 (graphics) energy counter.
pub const INTEL_MSR_RAPL_PP1: u64 = 0x641;

/// DRAM energy counter.
pub const INTEL_MSR_RAPL_DRAM: u64 = 0x619;

} // verus!
