use nds_core::backup::{BackupKind, NdsBackup, CMD_LABELS};
use nds_core::gx::cmd_name;
use nds_core::mmu::code::CODE_MASK_ARM9;
use nds_core::mmu::NdsMmu;
use nds_core::vram::VramManager;

#[test]
fn commands_have_names() {
    assert_eq!(cmd_name(0x10), "MTX_MODE");
    assert_eq!(cmd_name(0x50), "SWAP_BUFFERS");
    assert_eq!(cmd_name(0x01), "?");
}

#[test]
fn interrupts_are_raised_together() {
    let mut mmu = NdsMmu::new();
    mmu.trigger_interrupt_arm9(0x41);
    mmu.trigger_interrupt_arm9(0x42);
    mmu.trigger_interrupt_arm7(8);
    assert_eq!((mmu.irq.arm9_if, mmu.irq.arm7_if), (0x43, 8));
    mmu.write_byte_arm9(0x0400_0214, 1);
    assert_eq!(mmu.irq.arm9_if, 0x42, "a one acknowledges");
}

#[test]
fn only_a_chip_can_be_dirty() {
    let mut chip = NdsBackup::new(BackupKind::Absent);
    chip.mark_dirty();
    assert!(!chip.is_dirty());
    let mut chip = NdsBackup::new(BackupKind::Flash256K);
    chip.mark_dirty();
    assert!(chip.is_dirty());
    assert_eq!(CMD_LABELS.len(), chip.cmd_counts.len());
}

#[test]
fn flat_writes_reach_every_answering_bank() {
    let mut vram = VramManager::new();
    vram.set_control(0, 0x81);
    vram.set_control(1, 0x81);
    vram.write_target(1, 0x20, 9);
    assert_eq!(vram.read_target(1, 0x20), 9);
    assert_eq!((vram.banks[0].data[0x20], vram.banks[1].data[0x20]), (9, 9));
    vram.write_target(5, 0x20, 9);
    assert_eq!(vram.dropped_writes, 1);
    assert_eq!(vram.read_target(5, 0x20), 0);
}

#[test]
fn a_store_moves_the_epoch_of_the_processor_that_compiled_there() {
    let mut mmu = NdsMmu::new();
    let page = mmu.code_page_arm9(0x0200_0000).expect("tracked");
    mmu.code.code_watch = true;
    mmu.mark_code_page(page, CODE_MASK_ARM9);
    let (e9, e7) = (mmu.code.code_write_epoch, mmu.code.code_write_epoch7);
    mmu.write_byte_arm7(0x0200_0000, 1);
    assert_eq!(mmu.code.code_write_epoch, e9 + 1);
    assert_eq!(mmu.code.code_write_epoch7, e7);
}

#[test]
fn sync_nibbles_cross_over() {
    let mut mmu = NdsMmu::new();
    mmu.write_ipcsync_arm7(0x0700);
    assert_eq!(mmu.read_ipcsync_arm9() & 0xF, 7);
    assert_eq!(mmu.read_ipcsync_arm9() & 0x0F00, 0);
}
