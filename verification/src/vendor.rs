//! The vendor register map: which model-specific registers hold the
//! energy counters for each supported CPU vendor, in which order a
//! session reads them, and the column labels under which their values
//! are logged.

use vstd::prelude::*;
use crate::amd;
use crate::csvfmt;
use crate::intel;

verus! {

/// The CPU vendor whose RAPL register layout a session uses.
///
/// `Amd` exposes two energy counters (package, core); `Intel` exposes
/// four (PP0, PP1, DRAM, package). Selecting a vendor that does not
/// match the running hardware is undetected and yields meaningless
/// counter values; choosing correctly is the embedder's responsibility.
#[derive(Clone, Copy, Debug, PartialEq, Eq, Structural)]
pub enum Vendor {
    Amd,
    Intel,
}

/// How many energy-counter registers a session snapshot holds for `v`.
pub open spec fn spec_register_count(v: Vendor) -> nat {
    match v {
        Vendor::Amd => 2,
        Vendor::Intel => 4,
    }
}

/// The energy-counter registers of `v`, in the order a session reads
/// them at start and at stop.
pub open spec fn spec_energy_msrs(v: Vendor) -> Seq<u64> {
    match v {
        Vendor::Amd => seq![amd::MSR_RAPL_PKG_ENERGY_STAT, amd::AMD_MSR_CORE_ENERGY],
        Vendor::Intel => seq![
            intel::INTEL_MSR_RAPL_PP0,
            intel::INTEL_MSR_RAPL_PP1,
            intel::INTEL_MSR_RAPL_DRAM,
            intel::MSR_RAPL_PKG_ENERGY_STAT,
        ],
    }
}

/// The scale/unit register of `v`, read once per process for calibration.
pub open spec fn spec_power_unit_msr(v: Vendor) -> u64 {
    match v {
        Vendor::Amd => amd::MSR_RAPL_POWER_UNIT,
        Vendor::Intel => intel::MSR_RAPL_POWER_UNIT,
    }
}

/// The package-energy register of `v`.
pub open spec fn spec_pkg_energy_msr(v: Vendor) -> u64 {
    match v {
        Vendor::Amd => amd::MSR_RAPL_PKG_ENERGY_STAT,
        Vendor::Intel => intel::MSR_RAPL_PKG_ENERGY_STAT,
    }
}

/// The name under which files and records for `v` are labelled.
pub open spec fn vendor_name(v: Vendor) -> Seq<char> {
    match v {
        Vendor::Amd => "AMD"@,
        Vendor::Intel => "Intel"@,
    }
}

/// The column labels of a logged record for `v`: a start/end pair per
/// energy counter, in register order. Only the AMD stop path currently
/// emits records (see `Rapl::stop_rapl`), but the labels are fixed here
/// for both vendors.
pub open spec fn spec_columns(v: Vendor) -> Seq<Seq<char>> {
    match v {
        Vendor::Amd => seq!["PkgStart"@, "PkgEnd"@, "CoreStart"@, "CoreEnd"@],
        Vendor::Intel => seq![
            "PP0Start"@,
            "PP0End"@,
            "PP1Start"@,
            "PP1End"@,
            "DramStart"@,
            "DramEnd"@,
            "PkgStart"@,
            "PkgEnd"@,
        ],
    }
}

/// The number of logged columns is twice the register count: one start
/// and one end column per energy counter.
pub proof fn lemma_columns_arity(v: Vendor)
    ensures
        spec_columns(v).len() == 2 * spec_register_count(v),
{
}

/// Every column label is a field the csv writer copies verbatim.
pub proof fn lemma_columns_plain(v: Vendor)
    ensures
        csvfmt::all_csv_plain(spec_columns(v)),
{
    reveal_strlit("PkgStart");
    reveal_strlit("PkgEnd");
    reveal_strlit("CoreStart");
    reveal_strlit("CoreEnd");
    reveal_strlit("PP0Start");
    reveal_strlit("PP0End");
    reveal_strlit("PP1Start");
    reveal_strlit("PP1End");
    reveal_strlit("DramStart");
    reveal_strlit("DramEnd");
    assert(csvfmt::csv_plain_field("PkgStart"@));
    assert(csvfmt::csv_plain_field("PkgEnd"@));
    assert(csvfmt::csv_plain_field("CoreStart"@));
    assert(csvfmt::csv_plain_field("CoreEnd"@));
    assert(csvfmt::csv_plain_field("PP0Start"@));
    assert(csvfmt::csv_plain_field("PP0End"@));
    assert(csvfmt::csv_plain_field("PP1Start"@));
    assert(csvfmt::csv_plain_field("PP1End"@));
    assert(csvfmt::csv_plain_field("DramStart"@));
    assert(csvfmt::csv_plain_field("DramEnd"@));
}

pub fn register_count(v: Vendor) -> (n: usize)
    ensures
        n == spec_register_count(v),
{
    match v {
        Vendor::Amd => 2,
        Vendor::Intel => 4,
    }
}

/// The energy-counter registers of `v` as a vector, in read order; the
/// embedding program reads exactly these, in this order, to produce the
/// raw outcomes a session consumes.
pub fn energy_msrs(v: Vendor) -> (m: Vec<u64>)
    ensures
        m@ == spec_energy_msrs(v),
{
    let mut m: Vec<u64> = Vec::new();
    match v {
        Vendor::Amd => {
            m.push(amd::MSR_RAPL_PKG_ENERGY_STAT);
            m.push(amd::AMD_MSR_CORE_ENERGY);
        }
        Vendor::Intel => {
            m.push(intel::INTEL_MSR_RAPL_PP0);
            m.push(intel::INTEL_MSR_RAPL_PP1);
            m.push(intel::INTEL_MSR_RAPL_DRAM);
            m.push(intel::MSR_RAPL_PKG_ENERGY_STAT);
        }
    }
    proof {
        assert(m@ =~= spec_energy_msrs(v));
    }
    m
}

pub fn pkg_energy_msr(v: Vendor) -> (m: u64)
    ensures
        m == spec_pkg_energy_msr(v),
{
    match v {
        Vendor::Amd => amd::MSR_RAPL_PKG_ENERGY_STAT,
        Vendor::Intel => intel::MSR_RAPL_PKG_ENERGY_STAT,
    }
}

pub fn power_unit_msr(v: Vendor) -> (m: u64)
    ensures
        m == spec_power_unit_msr(v),
{
    match v {
        Vendor::Amd => amd::MSR_RAPL_POWER_UNIT,
        Vendor::Intel => intel::MSR_RAPL_POWER_UNIT,
    }
}

/// The configured CPU vendor's name, as used in the log filename.
pub fn get_cpu_type(v: Vendor) -> (name: &'static str)
    ensures
        name@ == vendor_name(v),
{
    match v {
        Vendor::Amd => "AMD",
        Vendor::Intel => "Intel",
    }
}

} // verus!
