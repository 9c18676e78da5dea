use nds_core::backup::{backup_kind_for_gamecode, BackupKind, NdsBackup, WIP_POLLS};

/// Drives a whole transaction: command byte, then `rest`, then release.
/// Returns the byte that the chip drove for each element of `rest`.
fn txn(chip: &mut NdsBackup, cmd: u8, rest: &[u8]) -> Vec<u8> {
    chip.transfer(cmd);
    let out = rest.iter().map(|&b| chip.transfer(b)).collect();
    chip.deselect();
    out
}

fn chip() -> NdsBackup {
    NdsBackup::new(BackupKind::Flash512K)
}

#[test]
fn new_chip_is_erased_and_correctly_sized() {
    let c = chip();
    assert_eq!(c.data().len(), 512 * 1024);
    assert!(c.data().iter().all(|&b| b == 0xFF));
    assert!(!c.is_dirty());
}

#[test]
fn wren_sets_wel_and_wrdi_clears_it() {
    let mut c = chip();
    txn(&mut c, 0x06, &[]);
    assert_eq!(txn(&mut c, 0x05, &[0])[0] & 0x02, 0x02, "WEL should be set");
    txn(&mut c, 0x04, &[]);
    assert_eq!(txn(&mut c, 0x05, &[0])[0] & 0x02, 0x00, "WEL should be clear");
}

#[test]
fn wip_stays_set_for_a_bounded_window_after_a_program_then_clears_wel() {
    let mut c = chip();
    txn(&mut c, 0x06, &[]);
    txn(&mut c, 0x0A, &[0x00, 0x00, 0x00, 0xAB]);
    let s: Vec<u8> = (0..(WIP_POLLS as usize + 1))
        .map(|_| txn(&mut c, 0x05, &[0])[0])
        .collect();
    assert!(s[0] & 0x01 == 0x01, "first poll must report WIP");
    assert!(
        s[WIP_POLLS as usize] & 0x01 == 0x00,
        "WIP must clear within the window: {s:02x?}"
    );
    assert_eq!(
        s[WIP_POLLS as usize] & 0x02,
        0x00,
        "WEL must auto-clear when the write completes"
    );
}

#[test]
fn page_write_stores_verbatim_and_reads_back() {
    let mut c = chip();
    txn(&mut c, 0x06, &[]);
    txn(&mut c, 0x0A, &[0x00, 0x12, 0x34, 0xDE, 0xAD, 0xBE, 0xEF]);
    let got = txn(&mut c, 0x03, &[0x00, 0x12, 0x34, 0, 0, 0, 0]);
    assert_eq!(&got[3..], &[0xDE, 0xAD, 0xBE, 0xEF]);
    assert!(c.is_dirty());
}

#[test]
fn page_write_preserves_unaddressed_bytes_including_the_same_page() {
    let mut c = chip();
    for a in [0x000FFFu32, 0x001080, 0x001100] {
        txn(&mut c, 0x06, &[]);
        let b = a.to_be_bytes();
        txn(&mut c, 0x02, &[b[1], b[2], b[3], 0x00]);
    }
    txn(&mut c, 0x06, &[]);
    txn(&mut c, 0x0A, &[0x00, 0x10, 0x00, 0x55]);
    assert_eq!(c.data()[0x001000], 0x55, "written byte");
    assert_eq!(c.data()[0x001080], 0x00, "partial PW preserves the rest of the page");
    assert_eq!(c.data()[0x000FFF], 0x00, "previous page untouched");
    assert_eq!(c.data()[0x001100], 0x00, "next page untouched");
    txn(&mut c, 0x06, &[]);
    txn(&mut c, 0x0A, &[0x00, 0x10, 0xF0, 0x12, 0x34]);
    assert_eq!(c.data()[0x001000], 0x55, "payload survives a footer update");
    assert_eq!(&c.data()[0x0010F0..0x0010F2], &[0x12, 0x34]);
}

#[test]
fn page_program_only_clears_bits() {
    let mut c = chip();
    txn(&mut c, 0x06, &[]);
    txn(&mut c, 0x02, &[0x00, 0x00, 0x00, 0xF0]);
    txn(&mut c, 0x06, &[]);
    txn(&mut c, 0x02, &[0x00, 0x00, 0x00, 0x3C]);
    assert_eq!(c.data()[0], 0xF0 & 0x3C, "PP must AND, never set bits");
}

#[test]
fn program_addresses_wrap_within_the_page() {
    let mut c = chip();
    txn(&mut c, 0x06, &[]);
    txn(&mut c, 0x0A, &[0x00, 0x00, 0xFF, 0x11, 0x22]);
    assert_eq!(c.data()[0x0000FF], 0x11);
    assert_eq!(c.data()[0x000000], 0x22, "second byte wraps to the page base");
    assert_eq!(c.data()[0x000100], 0xFF, "must not spill into the next page");
}

#[test]
fn programs_are_refused_without_write_enable() {
    let mut c = chip();
    txn(&mut c, 0x0A, &[0x00, 0x00, 0x00, 0x42]);
    assert_eq!(c.data()[0], 0xFF, "WEL clear must block the program");
    assert!(!c.is_dirty());
}

#[test]
fn a_refused_program_does_not_arm_the_busy_window() {
    let mut c = chip();
    txn(&mut c, 0x0A, &[0x00, 0x00, 0x00, 0x42]); // no WREN first
    assert_eq!(
        txn(&mut c, 0x05, &[0])[0] & 0x01,
        0x00,
        "WIP must be clear after a program that never ran"
    );
}

#[test]
fn write_enable_is_consumed_even_if_the_driver_never_polls_status() {
    let mut c = chip();
    txn(&mut c, 0x06, &[]);
    txn(&mut c, 0x0A, &[0x00, 0x00, 0x00, 0x11]);
    txn(&mut c, 0x0A, &[0x00, 0x00, 0x01, 0x22]);
    assert_eq!(c.data()[0], 0x11, "first program had WEL");
    assert_eq!(
        c.data()[1], 0xFF,
        "second program must be refused: WEL was consumed by the first"
    );
}

#[test]
fn sector_erase_clears_exactly_its_64k_sector() {
    let mut c = chip();
    for a in [0x00FFFFu32, 0x010000, 0x01FFFF, 0x020000] {
        txn(&mut c, 0x06, &[]);
        let b = a.to_be_bytes();
        txn(&mut c, 0x02, &[b[1], b[2], b[3], 0x00]);
    }
    txn(&mut c, 0x06, &[]);
    txn(&mut c, 0xD8, &[0x01, 0x80, 0x00]);
    assert_eq!(c.data()[0x00FFFF], 0x00, "below the sector");
    assert_eq!(c.data()[0x010000], 0xFF, "sector start erased");
    assert_eq!(c.data()[0x01FFFF], 0xFF, "sector end erased");
    assert_eq!(c.data()[0x020000], 0x00, "above the sector");
}

#[test]
fn page_erase_clears_exactly_its_256_byte_page() {
    let mut c = chip();
    for a in [0x0002FFu32, 0x000300, 0x0003FF, 0x000400] {
        txn(&mut c, 0x06, &[]);
        let b = a.to_be_bytes();
        txn(&mut c, 0x02, &[b[1], b[2], b[3], 0x00]);
    }
    txn(&mut c, 0x06, &[]);
    txn(&mut c, 0xDB, &[0x00, 0x03, 0x80]);
    assert_eq!(c.data()[0x0002FF], 0x00);
    assert_eq!(c.data()[0x000300], 0xFF);
    assert_eq!(c.data()[0x0003FF], 0xFF);
    assert_eq!(c.data()[0x000400], 0x00);
}

#[test]
fn rdid_reports_the_jedec_identity_for_the_configured_size() {
    let mut c = chip();
    assert_eq!(txn(&mut c, 0x9F, &[0, 0, 0]), vec![0x20, 0x40, 0x13]);
    let mut c1 = NdsBackup::new(BackupKind::Flash1M);
    assert_eq!(txn(&mut c1, 0x9F, &[0, 0, 0]), vec![0x20, 0x40, 0x14]);
}

#[test]
fn a_leading_zero_byte_does_not_swallow_the_command_behind_it() {
    let mut c = chip();
    txn(&mut c, 0x06, &[]); // WREN so the status has an observable bit set
    let plain = txn(&mut c, 0x05, &[0x00]);
    let prefixed = txn(&mut c, 0x00, &[0x05, 0x00]);
    assert_eq!(plain[0] & 0x02, 0x02, "WEL must be visible in [05 00]");
    assert_eq!(
        prefixed[1], plain[0],
        "[00 05 00] must report the same status as [05 00]"
    );
}

#[test]
fn reads_past_the_end_wrap_instead_of_panicking() {
    let mut c = NdsBackup::new(BackupKind::Flash256K);
    txn(&mut c, 0x06, &[]);
    txn(&mut c, 0x0A, &[0x00, 0x00, 0x00, 0x7E]);
    let got = txn(&mut c, 0x03, &[0x03, 0xFF, 0xFF, 0, 0]);
    assert_eq!(got[4], 0x7E, "address must wrap to 0");
}

#[test]
fn absent_chip_presents_an_erased_bus_and_never_stores() {
    let mut c = NdsBackup::new(BackupKind::Absent);
    assert!(!c.is_present());
    assert_eq!(txn(&mut c, 0x9F, &[0, 0, 0]), vec![0xFF, 0xFF, 0xFF]);
    assert!(!c.is_dirty());
}

#[test]
fn soulsilver_gamecode_selects_a_512k_flash() {
    assert_eq!(backup_kind_for_gamecode(b"IPGE"), BackupKind::Flash512K);
    assert_eq!(BackupKind::Flash512K.size_bytes(), 524288);
}

