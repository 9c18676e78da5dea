use nds_core::mmu::code::CODE_PAGE_BYTES;
use nds_core::mmu::NdsMmu;
use nds_core::tcm::Cp15Registers;

#[test]
fn stores_read_back_through_every_mirror() {
    let mut mmu = NdsMmu::new();
    mmu.write_byte_arm9(0x0200_1234, 0x5A);
    assert_eq!(mmu.read_byte_arm9(0x0280_1234), 0x5A);
    assert_eq!(mmu.read_byte_arm7(0x0240_1234), 0x5A, "main memory is shared");
    assert_eq!(mmu.read_byte_arm9(0x0200_1235), 0);
    mmu.write_byte_arm7(0x0380_0010, 0x6B);
    assert_eq!(mmu.read_byte_arm7(0x0381_0010), 0x6B);
}

#[test]
fn a_word_store_leaves_its_neighbours_alone() {
    let mut mmu = NdsMmu::new();
    mmu.write_word_arm9(0x0200_0100, 1);
    mmu.write_word_arm9(0x0200_0104, 2);
    mmu.write_halfword_arm9(0x0200_0108, 3);
    assert_eq!(mmu.read_word_arm9(0x0200_0100), 1);
    assert_eq!(mmu.read_word_arm9(0x0280_0104), 2);
}

#[test]
fn start_up_images_are_read_only() {
    let mut mmu = NdsMmu::new();
    let before = mmu.read_word_arm9(0xFFFF_0018);
    mmu.write_word_arm9(0xFFFF_0018, !before);
    assert_eq!(mmu.read_word_arm9(0xFFFF_0018), before);
    let before = mmu.read_word_arm7(0x0000_0018);
    mmu.write_word_arm7(0x0000_0018, !before);
    assert_eq!(mmu.read_word_arm7(0x0000_0018), before);
}

#[test]
fn no_store_moves_the_memories() {
    let mut mmu = NdsMmu::new();
    mmu.set_cp15(Cp15Registers { control: 0x5_0000, itcm_control: 0x0100_000C, dtcm_control: 0 });
    let before = mmu.cp15();
    for a in (0x0400_0000..0x0400_0400).step_by(4) {
        mmu.write_word_arm9(a, 0xFFFF_FFFF);
    }
    assert_eq!(mmu.cp15(), before);
}

#[test]
fn a_store_moves_the_version_of_its_page_only() {
    let mut mmu = NdsMmu::new();
    mmu.code.code_watch = true;
    let page = mmu.code_page_arm9(0x0200_0000).expect("tracked");
    let next = mmu.code_page_arm9(0x0200_0000 + CODE_PAGE_BYTES as u32).expect("tracked");
    assert_ne!(page, next);
    let (a, b) = (mmu.code_version(page), mmu.code_version(next));
    mmu.write_word_arm9(0x0200_0010, 7);
    assert_eq!(mmu.code_version(page), a + 1);
    assert_eq!(mmu.code_version(next), b);
    assert_eq!(mmu.code_page_arm9(0x0400_0000), None);
}

#[test]
fn remapping_discards_all_compiled_code() {
    let mut mmu = NdsMmu::new();
    let page = mmu.code_page_arm7(0x0380_0000).expect("tracked");
    let v = mmu.code_version(page);
    let cp15 = mmu.cp15();
    mmu.set_cp15(cp15);
    assert_eq!(mmu.code_version(page), v + 1);
    mmu.invalidate_all_code();
    assert_eq!(mmu.code_version(page), v + 2);
}

#[test]
fn a_transfer_copies_memory_and_raises_its_interrupt() {
    let mut mmu = NdsMmu::new();
    for i in 0..8u32 {
        mmu.write_word_arm9(0x0200_0000 + 4 * i, 0x100 + i);
    }
    mmu.write_word_arm9(0x0400_00BC, 0x0200_0000);
    mmu.write_word_arm9(0x0400_00C0, 0x0200_1000);
    mmu.write_word_arm9(0x0400_00C4, 0xC400_0008); // 8 words, at once, interrupt
    for i in 0..8u32 {
        assert_eq!(mmu.read_word_arm9(0x0200_1000 + 4 * i), 0x100 + i);
    }
    assert_eq!(mmu.read_word_arm9(0x0400_00C4) & 0x8000_0000, 0);
    assert_eq!(mmu.irq.arm9_if, 1 << 9);
}

#[test]
fn an_enabled_channel_does_not_start_again() {
    let mut mmu = NdsMmu::new();
    mmu.write_word_arm9(0x0400_00B0, 0x0200_0000);
    mmu.write_word_arm9(0x0400_00B4, 0x0200_1000);
    mmu.write_word_arm9(0x0400_00B8, 0x8C00_0001); // waits for an event
    assert_eq!(mmu.dma.arm9.armed.iter().sum::<u32>(), 1);
    mmu.write_byte_arm9(0x0400_00BB, 0x8C);
    assert_eq!(mmu.dma.arm9.armed.iter().sum::<u32>(), 1, "no rising edge");
    assert_ne!(mmu.read_word_arm9(0x0400_00B8) & 0x8000_0000, 0, "it stays armed");
}

#[test]
fn a_second_processor_transfer_moves_halfwords() {
    let mut mmu = NdsMmu::new();
    mmu.write_halfword_arm7(0x0380_0000, 0xBEEF);
    mmu.write_word_arm7(0x0400_00B0, 0x0380_0000);
    mmu.write_word_arm7(0x0400_00B4, 0x0380_0100);
    mmu.write_word_arm7(0x0400_00B8, 0x8000_0001);
    assert_eq!(mmu.read_halfword_arm7(0x0380_0100), 0xBEEF);
}

#[test]
fn the_display_status_keeps_its_flags() {
    let mut mmu = NdsMmu::new();
    mmu.arm9_io[4] = 0x03;
    mmu.write_byte_arm9(0x0400_0004, 0x38);
    assert_eq!(mmu.read_byte_arm9(0x0400_0004), 0x3B);
}

#[test]
fn logs_are_bounded() {
    let mut mmu = NdsMmu::new();
    for i in 0..10_000u32 {
        mmu.write_byte_arm7(0x0400_01A2, i as u8);
    }
    let kept = mmu.aux.aux_bus_log.len();
    assert!(kept < 10_000);
    assert_eq!(kept as u32 + mmu.aux.aux_bus_dropped, 10_000, "no write goes unseen");
}

#[test]
fn signals_cross_between_the_processors() {
    let mut mmu = NdsMmu::new();
    mmu.write_ipcsync_arm7(0x4000); // the second processor accepts interrupts
    mmu.ipc_yield = false;
    mmu.write_ipcsync_arm9(0x2500);
    assert_eq!(mmu.read_ipcsync_arm7() & 0xF, 5);
    assert_eq!(mmu.irq.arm7_if, 1 << 16);
    assert!(mmu.ipc_yield);
}

#[test]
fn an_idle_card_port_reads_zero() {
    let mut mmu = NdsMmu::new();
    mmu.rom = vec![0xAA; 64];
    assert_eq!(mmu.gamecard_read_data(), 0);
    assert_eq!(mmu.gamecard.bytes_left, 0);
}

#[test]
fn a_reset_keeps_the_cartridge() {
    let mut mmu = NdsMmu::new();
    mmu.rom = vec![1, 2, 3];
    mmu.write_word_arm9(0x0200_0000, 5);
    mmu.irq.arm9_ie = 7;
    mmu.reset();
    assert_eq!(mmu.rom, vec![1, 2, 3]);
    assert_eq!(mmu.read_word_arm9(0x0200_0000), 0);
    assert_eq!(mmu.irq.arm9_ie, 0);
}
