use rapl_lib::error::RaplError;
use rapl_lib::session::{read_rapl_pkg_energy_stat, read_rapl_power_unit, read_rapl_registers, Rapl};
use rapl_lib::vendor::Vendor;

#[test]
fn scenario_amd_one_cycle() {
    let mut ctx = Rapl::new(Vendor::Amd);
    assert!(ctx.needs_power_unit());
    let r = ctx.start_rapl(Some(1000), &vec![Some(500), Some(200)]);
    assert_eq!(r, Ok(()));
    let w = ctx
        .stop_rapl(&vec![Some(800), Some(350)])
        .unwrap()
        .unwrap();
    assert_eq!(w.filename, "AMD_1000.csv");
    assert_eq!(w.bytes, "PkgStart,PkgEnd,CoreStart,CoreEnd\n500,800,200,350\n");
}

#[test]
fn second_record_has_no_header() {
    let mut ctx = Rapl::new(Vendor::Amd);
    ctx.start_rapl(Some(7), &vec![Some(1), Some(2)]).unwrap();
    let first = ctx.stop_rapl(&vec![Some(3), Some(4)]).unwrap().unwrap();
    assert_eq!(first.bytes, "PkgStart,PkgEnd,CoreStart,CoreEnd\n1,3,2,4\n");
    ctx.start_rapl(None, &vec![Some(10), Some(20)]).unwrap();
    let second = ctx.stop_rapl(&vec![Some(30), Some(40)]).unwrap().unwrap();
    assert_eq!(second.filename, first.filename);
    assert_eq!(second.bytes, "10,30,20,40\n");
}

#[test]
fn three_cycles_yield_header_plus_three_rows() {
    let mut ctx = Rapl::new(Vendor::Amd);
    let mut file = String::new();
    let cycles: [(u64, u64, u64, u64); 3] = [(1, 2, 3, 4), (5, 6, 7, 8), (9, 10, 11, 12)];
    for (pkg_s, core_s, pkg_e, core_e) in cycles {
        ctx.start_rapl(Some(16), &vec![Some(pkg_s), Some(core_s)]).unwrap();
        let w = ctx
            .stop_rapl(&vec![Some(pkg_e), Some(core_e)])
            .unwrap()
            .unwrap();
        assert_eq!(w.filename, "AMD_16.csv");
        file.push_str(&w.bytes);
    }
    assert_eq!(
        file,
        "PkgStart,PkgEnd,CoreStart,CoreEnd\n1,3,2,4\n5,7,6,8\n9,11,10,12\n"
    );
    assert_eq!(file.matches('\n').count(), 4);
}

#[test]
fn intel_stop_logs_nothing() {
    let mut ctx = Rapl::new(Vendor::Intel);
    let r = ctx.start_rapl(Some(99), &vec![Some(1), Some(2), Some(3), Some(4)]);
    assert_eq!(r, Ok(()));
    let stopped = ctx.stop_rapl(&vec![Some(5), Some(6), Some(7), Some(8)]).unwrap();
    assert!(stopped.is_none());
}

#[test]
fn calibration_is_read_once() {
    let mut ctx = Rapl::new(Vendor::Amd);
    assert!(ctx.needs_power_unit());
    assert_eq!(ctx.get_or_init_power_unit(Some(123)), Ok(123));
    assert!(!ctx.needs_power_unit());
    // A later outcome, whatever it is, never replaces the cached value.
    assert_eq!(ctx.get_or_init_power_unit(Some(456)), Ok(123));
    assert_eq!(ctx.get_or_init_power_unit(None), Ok(123));
    ctx.start_rapl(Some(789), &vec![Some(1), Some(2)]).unwrap();
    let w = ctx.stop_rapl(&vec![Some(3), Some(4)]).unwrap().unwrap();
    assert_eq!(w.filename, "AMD_123.csv");
}

#[test]
fn calibration_failure_is_reported() {
    let mut ctx = Rapl::new(Vendor::Amd);
    let r = ctx.start_rapl(None, &vec![Some(1), Some(2)]);
    assert_eq!(r, Err(RaplError::PowerUnitRead));
    assert!(ctx.needs_power_unit());
    // A later start can still calibrate and proceed.
    assert_eq!(ctx.start_rapl(Some(55), &vec![Some(1), Some(2)]), Ok(()));
}

#[test]
fn failed_register_read_names_the_register() {
    let mut ctx = Rapl::new(Vendor::Amd);
    let r = ctx.start_rapl(Some(1), &vec![Some(9), None]);
    assert_eq!(r, Err(RaplError::RegisterRead(0xC001029A)));
    let r = ctx.start_rapl(None, &vec![None, Some(9)]);
    assert_eq!(r, Err(RaplError::RegisterRead(0xC001029B)));
}

#[test]
fn stop_without_start_is_rejected() {
    let mut ctx = Rapl::new(Vendor::Amd);
    let r = ctx.stop_rapl(&vec![Some(1), Some(2)]);
    assert_eq!(r, Err(RaplError::NotStarted));
}

#[test]
fn second_stop_without_new_start_is_rejected() {
    let mut ctx = Rapl::new(Vendor::Amd);
    ctx.start_rapl(Some(1), &vec![Some(1), Some(2)]).unwrap();
    assert!(ctx.stop_rapl(&vec![Some(3), Some(4)]).is_ok());
    assert_eq!(ctx.stop_rapl(&vec![Some(5), Some(6)]), Err(RaplError::NotStarted));
}

#[test]
fn failed_stop_keeps_the_session_armed() {
    let mut ctx = Rapl::new(Vendor::Amd);
    ctx.start_rapl(Some(1), &vec![Some(10), Some(20)]).unwrap();
    let r = ctx.stop_rapl(&vec![None, Some(30)]);
    assert_eq!(r, Err(RaplError::RegisterRead(0xC001029B)));
    // The baseline survives the failed stop; a retry can still pair it.
    let w = ctx.stop_rapl(&vec![Some(11), Some(21)]).unwrap().unwrap();
    assert_eq!(w.bytes, "PkgStart,PkgEnd,CoreStart,CoreEnd\n10,11,20,21\n");
}

#[test]
fn a_new_start_overwrites_the_baseline() {
    let mut ctx = Rapl::new(Vendor::Amd);
    ctx.start_rapl(Some(1), &vec![Some(10), Some(20)]).unwrap();
    ctx.start_rapl(None, &vec![Some(100), Some(200)]).unwrap();
    let w = ctx.stop_rapl(&vec![Some(101), Some(201)]).unwrap().unwrap();
    assert_eq!(w.bytes, "PkgStart,PkgEnd,CoreStart,CoreEnd\n100,101,200,201\n");
}

#[test]
fn filenames_are_deterministic_per_vendor_and_unit() {
    let mut a = Rapl::new(Vendor::Amd);
    let mut b = Rapl::new(Vendor::Amd);
    a.start_rapl(Some(42), &vec![Some(1), Some(2)]).unwrap();
    b.start_rapl(Some(42), &vec![Some(5), Some(6)]).unwrap();
    let wa = a.stop_rapl(&vec![Some(3), Some(4)]).unwrap().unwrap();
    let wb = b.stop_rapl(&vec![Some(7), Some(8)]).unwrap().unwrap();
    assert_eq!(wa.filename, wb.filename);

    let mut c = Rapl::new(Vendor::Amd);
    c.start_rapl(Some(43), &vec![Some(1), Some(2)]).unwrap();
    let wc = c.stop_rapl(&vec![Some(3), Some(4)]).unwrap().unwrap();
    assert_ne!(wa.filename, wc.filename);
}

#[test]
fn read_rapl_power_unit_types_the_outcome() {
    assert_eq!(read_rapl_power_unit(Some(77)), Ok(77));
    assert_eq!(read_rapl_power_unit(None), Err(RaplError::PowerUnitRead));
}

#[test]
fn read_rapl_pkg_energy_stat_names_the_vendor_register() {
    assert_eq!(read_rapl_pkg_energy_stat(Vendor::Amd, Some(5)), Ok(5));
    assert_eq!(
        read_rapl_pkg_energy_stat(Vendor::Amd, None),
        Err(RaplError::RegisterRead(0xC001029B))
    );
    assert_eq!(
        read_rapl_pkg_energy_stat(Vendor::Intel, None),
        Err(RaplError::RegisterRead(0x611))
    );
}

#[test]
fn read_rapl_registers_collects_in_order() {
    let ok = read_rapl_registers(Vendor::Intel, &vec![Some(1), Some(2), Some(3), Some(4)]);
    assert_eq!(ok, Ok(vec![1, 2, 3, 4]));
    let err = read_rapl_registers(Vendor::Intel, &vec![None, Some(2), Some(3), Some(4)]);
    assert_eq!(err, Err(RaplError::RegisterRead(0x639)));
    let err = read_rapl_registers(Vendor::Intel, &vec![Some(1), Some(2), None, None]);
    assert_eq!(err, Err(RaplError::RegisterRead(0x619)));
}
