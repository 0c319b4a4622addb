use yamato::ec::Ec;
use yamato::lock::{was_granted, EcLock, LockAsk, Locking, Mutex};
use yamato::pawnio::{
    ioctl_execute_fn, ioctl_load_binary, open_refused, payload, preparation, read_port, write_port,
    Error, Fault, Layout,
};
use yamato::version::{
    candidates, driver_version_report, expand_image_path, installed_driver_version,
    min_driver_version, verdict, DriverVersion,
};

#[test]
fn ioctl_codes_match_pawnio() {
    assert_eq!(ioctl_load_binary(), 0xA1B2_2084);
    assert_eq!(ioctl_execute_fn(), 0xA1B2_2104);
}

#[test]
fn the_too_old_error_names_the_version_and_the_fix() {
    // Whoever reads this error is going to a download page to look for a
    // number, so both numbers and the page have to be in it.
    let message = Error::DriverTooOld { found: DriverVersion::new(2, 0, 0, 0) }.to_string();

    assert!(message.contains("2.0.0"), "{message}");
    assert!(message.contains("2.2.0"), "{message}");
    assert!(message.contains("https://pawnio.eu"), "{message}");
}

#[test]
fn each_layout_permits_its_own_ports_and_nothing_else() {
    // The standard pair, and not the H8S window.
    assert!(Layout::Standard.permits(0x62));
    assert!(Layout::Standard.permits(0x66));
    assert!(!Layout::Standard.permits(0x1600));
    assert!(!Layout::Standard.permits(0x1604));

    // The other way around on the alternate layout.
    assert!(Layout::Alternate.permits(0x1600));
    assert!(Layout::Alternate.permits(0x1604));
    assert!(!Layout::Alternate.permits(0x62));
    assert!(!Layout::Alternate.permits(0x66));
    // Inside a real discovered window, still not the EC pair, still no.
    assert!(!Layout::Alternate.permits(0x1610));
}

#[test]
fn the_layouts_disagree_only_where_the_hardware_does() {
    assert_eq!(Layout::Standard.read_fn(), "ioctl_pio_read");
    assert_eq!(Layout::Standard.write_fn(), "ioctl_pio_write");
    assert_eq!(Layout::Alternate.read_fn(), "ioctl_pio_inb");
    assert_eq!(Layout::Alternate.write_fn(), "ioctl_pio_outb");

    assert_eq!(Layout::Standard.module_file(), "LpcACPIEC.bin");
    assert_eq!(Layout::Alternate.module_file(), "LpcIO.bin");

    // Only the LpcIO path takes the module's own mutex.
    assert!(!Layout::Standard.uses_isa_lock());
    assert!(Layout::Alternate.uses_isa_lock());
}

#[test]
fn only_a_readable_old_version_refuses() {
    assert!(verdict(None).is_ok());
    assert!(verdict(Some(DriverVersion::new(2, 2, 0, 0))).is_ok());
    assert!(verdict(Some(DriverVersion::new(2, 3, 1, 0))).is_ok());

    assert!(matches!(
        verdict(Some(DriverVersion::new(2, 1, 9, 0))),
        Err(Error::DriverTooOld { .. })
    ));
    assert!(matches!(
        verdict(Some(DriverVersion::new(2, 0, 0, 0))),
        Err(Error::DriverTooOld { .. })
    ));
}

#[test]
fn versions_order_numerically_not_textually() {
    let floor = min_driver_version();
    assert!(DriverVersion::new(2, 10, 0, 0) > floor);
    assert!(DriverVersion::new(10, 0, 0, 0) > floor);
    assert!(DriverVersion::new(2, 2, 0, 1) > floor);
    assert!(DriverVersion::new(1, 9, 9, 9) < floor);
}

#[test]
fn display_matches_the_download_page() {
    assert_eq!(DriverVersion::new(2, 2, 0, 0).to_string(), "2.2.0");
    assert_eq!(DriverVersion::new(2, 2, 0, 5).to_string(), "2.2.0.5");
    assert_eq!(min_driver_version().to_string(), "2.2.0");
}

#[test]
fn image_paths_expand_to_files_the_filesystem_can_open() {
    let windir = r"C:\Windows";

    assert_eq!(
        expand_image_path(r"\SystemRoot\System32\DriverStore\x\PawnIO.sys", windir),
        r"C:\Windows\System32\DriverStore\x\PawnIO.sys"
    );
    assert_eq!(
        expand_image_path(r"\systemroot\System32\PawnIO.sys", windir),
        r"C:\Windows\System32\PawnIO.sys"
    );
    assert_eq!(
        expand_image_path(r"\??\C:\somewhere\PawnIO.sys", windir),
        r"C:\somewhere\PawnIO.sys"
    );
    assert_eq!(
        expand_image_path(r"System32\drivers\PawnIO.sys", windir),
        r"C:\Windows\System32\drivers\PawnIO.sys"
    );
    assert_eq!(
        expand_image_path(r"C:\already\plain\PawnIO.sys", windir),
        r"C:\already\plain\PawnIO.sys"
    );
}

#[test]
fn reading_the_installed_version_is_safe_anywhere() {
    // Whatever a machine has installed, asking must not panic.
    let _ = installed_driver_version(&vec![]);
    let _ = driver_version_report(&vec![]);
    let files = vec![(r"C:\a\PawnIO.sys".to_string(), Some(DriverVersion::new(2, 2, 0, 0)))];
    let _ = installed_driver_version(&files);
    let _ = driver_version_report(&files);
}

#[test]
fn the_standard_layout_takes_one_lock_and_the_alternate_takes_two() {
    let standard = EcLock::acquire_handle(Layout::Standard);
    assert!(!standard.needs_isa);
    let alternate = EcLock::acquire_handle(Layout::Alternate);
    assert!(alternate.needs_isa);

    // Both can be taken, and taken again after release.
    for (lock, count) in [(&standard, 1usize), (&alternate, 2)] {
        for _ in 0..2 {
            let mut heard: Vec<bool> = vec![];
            let mut taken = 0;
            loop {
                match lock.lock(&heard) {
                    Locking::Ask(ask) => {
                        if let LockAsk::Take(_) = ask {
                            taken += 1;
                        }
                        heard.push(true);
                    }
                    Locking::Held => break,
                    other => panic!("uncontended locks must be grantable: {other:?}"),
                }
            }
            assert_eq!(taken, count);
            assert_eq!(lock.unlock().len(), count);
        }
    }
}

#[test]
fn a_lock_refused_halfway_is_let_go() {
    let alternate = EcLock::acquire_handle(Layout::Alternate);
    assert!(matches!(
        alternate.lock(&vec![true, true, true, false]),
        Locking::Ask(LockAsk::Release(Mutex::Controller))
    ));
    assert!(matches!(
        alternate.lock(&vec![true, true, true, false, true]),
        Locking::Refused(Fault::Busy)
    ));
    // A handle that cannot be had refuses too.
    let standard = EcLock::acquire_handle(Layout::Standard);
    assert!(matches!(standard.lock(&vec![false]), Locking::Refused(Fault::Busy)));
}

#[test]
fn the_files_worth_asking_are_the_driver_and_then_the_library() {
    let files = candidates(Some(r"\SystemRoot\x\PawnIO.sys"), r"C:\Windows", None, r"C:\PawnIO");
    assert_eq!(files, vec![r"C:\Windows\x\PawnIO.sys", r"C:\PawnIO\PawnIOLib.dll"]);
    let files = candidates(None, r"C:\Windows", Some(r"D:\P"), r"C:\PawnIO");
    assert_eq!(files, vec![r"D:\P\PawnIOLib.dll"]);
}

#[test]
fn an_abandoned_mutex_is_ours_and_a_timeout_is_not() {
    assert!(was_granted(0));
    assert!(was_granted(0x80));
    assert!(!was_granted(0x102));
    assert!(!was_granted(0xffff_ffff));
    assert_ne!(Mutex::Controller.name(), Mutex::Isa.name());
}

#[test]
fn a_port_outside_the_layout_never_becomes_a_call() {
    assert!(read_port(Layout::Standard, 0x66).is_ok());
    assert!(matches!(read_port(Layout::Standard, 0x1604), Err(Fault::PortNotPermitted(0x1604))));
    assert!(matches!(
        write_port(Layout::Alternate, 0x62, 1),
        Err(Fault::PortNotPermitted(0x62))
    ));
}

#[test]
fn a_call_carries_its_name_and_its_cells() {
    let bytes = payload("ioctl_pio_read", &vec![0x62]);
    assert_eq!(bytes.len(), 32 + 8);
    assert_eq!(&bytes[..14], b"ioctl_pio_read");
    assert!(bytes[14..32].iter().all(|b| *b == 0));
    assert_eq!(&bytes[32..], &[0x62, 0, 0, 0, 0, 0, 0, 0]);
    assert!(preparation(Layout::Standard).is_empty());
    assert!(!preparation(Layout::Alternate).is_empty());
}

#[test]
fn every_trouble_with_the_driver_has_its_own_words() {
    let missing = open_refused(2);
    let denied = open_refused(5);
    assert_ne!(missing.to_string(), denied.to_string());
    assert_ne!(Fault::Busy.to_string(), Fault::PortNotPermitted(0x62).to_string());
    assert!(Fault::PortNotPermitted(0x62).to_string().contains("0x0062"));
    assert!(!Ec::with_layout(Layout::Standard).validated());
}
