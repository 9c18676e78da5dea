use nds_core::backup::{BackupKind, NdsBackup};
use nds_core::mmu::NdsMmu;

#[test]
fn test_auxspi_backup_round_trip_via_arm7_driver_sequence() {
    let mut mmu = NdsMmu::new();
    mmu.backup = NdsBackup::new(BackupKind::Flash512K);

    let select = |m: &mut NdsMmu| {
        m.write_byte_arm7(0x0400_01A0, 0x40);
        m.write_byte_arm7(0x0400_01A1, 0xA0);
    };
    let deselect = |m: &mut NdsMmu| {
        m.write_byte_arm7(0x0400_01A0, 0x00);
        m.write_byte_arm7(0x0400_01A1, 0x00);
    };
    let clock = |m: &mut NdsMmu, b: u8| -> u8 {
        m.write_byte_arm7(0x0400_01A2, b);
        let mut guard = 0;
        while m.read_halfword_arm7(0x0400_01A0) & 0x80 != 0 {
            guard += 1;
            assert!(guard < 16, "busy bit never cleared — driver would hang");
        }
        m.read_halfword_arm7(0x0400_01A2) as u8
    };

    select(&mut mmu);
    clock(&mut mmu, 0x06); // WREN
    deselect(&mut mmu);

    select(&mut mmu);
    clock(&mut mmu, 0x05); // RDSR
    assert_eq!(clock(&mut mmu, 0x00) & 0x02, 0x02, "WREN must set WEL");
    deselect(&mut mmu);

    select(&mut mmu);
    for b in [0x0A, 0x00, 0x20, 0x00, 0xC0, 0xFF, 0xEE] {
        clock(&mut mmu, b); // PW at 0x002000
    }
    deselect(&mut mmu);

    select(&mut mmu);
    for b in [0x03, 0x00, 0x20, 0x00] {
        clock(&mut mmu, b); // READ from 0x002000
    }
    let got = [clock(&mut mmu, 0), clock(&mut mmu, 0), clock(&mut mmu, 0)];
    deselect(&mut mmu);

    assert_eq!(got, [0xC0, 0xFF, 0xEE]);
    assert!(mmu.backup.is_dirty(), "a programmed chip must want persisting");
    assert!(!mmu.aux.aux_bus_log.is_empty(), "census must see ARM7 traffic");
}

#[test]
fn test_auxspi_halfword_write_clocks_exactly_one_byte() {
    let mut mmu = NdsMmu::new();
    mmu.backup = NdsBackup::new(BackupKind::Flash256K);
    mmu.write_halfword_arm7(0x0400_01A0, 0xA040);
    mmu.write_halfword_arm7(0x0400_01A2, 0x009F); // RDID
    assert_eq!(mmu.read_halfword_arm7(0x0400_01A2) as u8, 0x00);
    mmu.write_halfword_arm7(0x0400_01A2, 0x0000);
    assert_eq!(mmu.read_halfword_arm7(0x0400_01A2) as u8, 0x20);
    mmu.write_halfword_arm7(0x0400_01A2, 0x0000);
    assert_eq!(mmu.read_halfword_arm7(0x0400_01A2) as u8, 0x40);
    mmu.write_halfword_arm7(0x0400_01A2, 0x0000);
    assert_eq!(mmu.read_halfword_arm7(0x0400_01A2) as u8, 0x12);
}

#[test]
fn test_auxspi_hold_bit_deselects_after_the_transfer_not_on_the_control_write() {
    let mut mmu = NdsMmu::new();
    mmu.backup = NdsBackup::new(BackupKind::Flash512K);
    mmu.write_halfword_arm7(0x0400_01A0, 0xA042);
    mmu.write_halfword_arm7(0x0400_01A2, 0x009F);
    mmu.write_halfword_arm7(0x0400_01A0, 0xA040);
    mmu.write_halfword_arm7(0x0400_01A2, 0x0000);
    assert_eq!(
        mmu.read_halfword_arm7(0x0400_01A2) as u8,
        0x20,
        "second byte of the frame must be the manufacturer id"
    );
    mmu.write_halfword_arm7(0x0400_01A0, 0xA000);
    mmu.write_halfword_arm7(0x0400_01A2, 0x0000);
    assert_eq!(
        mmu.read_halfword_arm7(0x0400_01A2) as u8,
        0x40,
        "third byte must continue the same frame, not start a new command"
    );

    mmu.write_halfword_arm7(0x0400_01A0, 0xA040);
    mmu.write_halfword_arm7(0x0400_01A2, 0x0000);
    assert_eq!(mmu.read_halfword_arm7(0x0400_01A2) as u8, 0x00);
    assert_eq!(mmu.aux.aux_cross_deselects, 0);
}

#[test]
fn test_auxspi_slot_disable_ends_the_transaction_exactly_once() {
    let mut mmu = NdsMmu::new();
    mmu.backup = NdsBackup::new(BackupKind::Flash512K);
    mmu.write_halfword_arm7(0x0400_01A0, 0xA040);
    mmu.write_halfword_arm7(0x0400_01A2, 0x009F);
    mmu.write_halfword_arm7(0x0400_01A0, 0xA042);
    mmu.write_halfword_arm7(0x0400_01A2, 0x0000);
    assert_eq!(mmu.read_halfword_arm7(0x0400_01A2) as u8, 0x20);
    mmu.write_halfword_arm7(0x0400_01A0, 0x0000);
    mmu.write_halfword_arm7(0x0400_01A0, 0xA040);
    mmu.write_halfword_arm7(0x0400_01A2, 0x0000);
    assert_eq!(
        mmu.read_halfword_arm7(0x0400_01A2) as u8,
        0x00,
        "slot disable must have ended the frame"
    );
}

#[test]
fn test_auxspi_word_store_to_cnt_does_not_clock_the_chip() {
    let mut mmu = NdsMmu::new();
    mmu.backup = NdsBackup::new(BackupKind::Flash512K);
    mmu.write_word_arm7(0x0400_01A0, 0x0000_A040);
    mmu.write_halfword_arm7(0x0400_01A2, 0x009F);
    mmu.write_halfword_arm7(0x0400_01A2, 0x0000);
    assert_eq!(
        mmu.read_halfword_arm7(0x0400_01A2) as u8,
        0x20,
        "RDID must be the first byte of the frame"
    );
}

#[test]
fn test_auxspi_data_is_ignored_when_the_slot_is_not_in_serial_mode() {
    let mut mmu = NdsMmu::new();
    mmu.backup = NdsBackup::new(BackupKind::Flash512K);
    mmu.write_halfword_arm7(0x0400_01A0, 0x8040);
    mmu.write_halfword_arm7(0x0400_01A2, 0x009F);
    mmu.write_halfword_arm7(0x0400_01A2, 0x0000);
    assert_eq!(
        mmu.read_halfword_arm7(0x0400_01A2) as u8,
        0x00,
        "parallel-mode writes must not reach the backup chip"
    );
    mmu.write_halfword_arm7(0x0400_01A0, 0xA040);
    mmu.write_halfword_arm7(0x0400_01A2, 0x009F);
    mmu.write_halfword_arm7(0x0400_01A2, 0x0000);
    assert_eq!(mmu.read_halfword_arm7(0x0400_01A2) as u8, 0x20);
}

#[test]
fn test_aux_census_tags_register_and_core_distinctly() {
    let mut mmu = NdsMmu::new();
    mmu.write_byte_arm7(0x0400_01A0, 0x40);
    mmu.write_byte_arm7(0x0400_01A1, 0xA0);
    mmu.write_byte_arm7(0x0400_01A2, 0x05);
    mmu.write_byte_arm9(0x0400_01A2, 0x06);
    assert_eq!(
        mmu.aux.aux_bus_log,
        vec![(0x00, 0x40), (0x01, 0xA0), (0x02, 0x05), (0x82, 0x06)]
    );
    for (tag, _) in &mmu.aux.aux_bus_log {
        assert!(tag & 0x7F <= 3, "register index must be 0..=3, got {tag:#04x}");
    }
}

#[test]
fn test_auxspidata_reads_as_erased_chip() {
    let mmu = NdsMmu::new();
    assert!(!mmu.backup.is_present());
    assert_eq!(mmu.read_byte_arm9(0x0400_01A2), 0xFF);
    assert_eq!(mmu.read_byte_arm7(0x0400_01A2), 0xFF);
}

#[test]
fn test_reset_preserves_backup_contents() {
    let mut mmu = NdsMmu::new();
    mmu.backup = NdsBackup::new(BackupKind::Flash256K);
    mmu.write_halfword_arm7(0x0400_01A0, 0xA040);
    mmu.write_byte_arm7(0x0400_01A2, 0x06); // WREN
    mmu.write_halfword_arm7(0x0400_01A0, 0x0000);
    mmu.write_halfword_arm7(0x0400_01A0, 0xA040);
    for b in [0x0A, 0x00, 0x00, 0x00, 0x5A] {
        mmu.write_byte_arm7(0x0400_01A2, b);
    }
    mmu.write_halfword_arm7(0x0400_01A0, 0x0000);
    assert_eq!(mmu.backup.data()[0], 0x5A);

    mmu.reset();
    assert_eq!(mmu.backup.data()[0], 0x5A, "reset must not erase the save");
    assert_eq!(mmu.backup.data().len(), 256 * 1024);
}

