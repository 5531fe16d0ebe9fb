use rapl_lib::numfmt::u64_to_dec;
use rapl_lib::vendor::{
    energy_msrs, get_cpu_type, pkg_energy_msr, power_unit_msr, register_count, Vendor,
};

#[test]
fn cpu_type_names() {
    assert_eq!(get_cpu_type(Vendor::Amd), "AMD");
    assert_eq!(get_cpu_type(Vendor::Intel), "Intel");
}

#[test]
fn register_counts_per_vendor() {
    assert_eq!(register_count(Vendor::Amd), 2);
    assert_eq!(register_count(Vendor::Intel), 4);
}

#[test]
fn amd_register_map() {
    assert_eq!(power_unit_msr(Vendor::Amd), 0xC0010299);
    assert_eq!(pkg_energy_msr(Vendor::Amd), 0xC001029B);
    assert_eq!(energy_msrs(Vendor::Amd), vec![0xC001029B, 0xC001029A]);
}

#[test]
fn intel_register_map() {
    assert_eq!(power_unit_msr(Vendor::Intel), 0x606);
    assert_eq!(pkg_energy_msr(Vendor::Intel), 0x611);
    assert_eq!(energy_msrs(Vendor::Intel), vec![0x639, 0x641, 0x619, 0x611]);
}

#[test]
fn decimal_rendering() {
    assert_eq!(u64_to_dec(0), "0");
    assert_eq!(u64_to_dec(7), "7");
    assert_eq!(u64_to_dec(10), "10");
    assert_eq!(u64_to_dec(1000), "1000");
    assert_eq!(u64_to_dec(u64::MAX), "18446744073709551615");
}
