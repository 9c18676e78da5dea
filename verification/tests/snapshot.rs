use nds_core::backup::{BackupKind, ChipFault, NdsBackup};
use nds_core::cpu::arm9::Arm9Cpu;
use nds_core::mmu::memory::Misfit;
use nds_core::mmu::snapshot::ResumeFault;
use nds_core::mmu::NdsMmu;
use nds_core::ppu::NdsPpu;
use nds_core::tcm::Cp15Registers;

fn machine() -> NdsMmu {
    let mut mmu = NdsMmu::new();
    mmu.backup = NdsBackup::new(BackupKind::Flash512K);
    mmu.set_cp15(Cp15Registers { control: 0x1_0000, itcm_control: 0, dtcm_control: 0x0B00_000A });
    mmu.write_word_arm9(0x0200_0000, 0x1234_5678);
    mmu.write_word_arm9(0x0B00_0000, 0x0BAD_CAFE);
    mmu.write_word_arm7(0x0380_0000, 0x5555_AAAA);
    mmu.vram.banks[0].control = 0x80;
    mmu.write_halfword_arm9(0x0680_0000, 0xBEEF);
    mmu.write_ipc_fifo_cnt_arm9(0x8000);
    mmu.write_ipc_fifo_cnt_arm7(0x8000);
    mmu.write_ipc_fifo_tx_arm9(42);
    mmu.irq.arm9_ie = 5;
    mmu
}

#[test]
fn a_snapshot_resumes_in_a_later_session() {
    let mut saved = machine().capture();
    let mut later = NdsMmu::new();
    later.backup = NdsBackup::new(BackupKind::Flash512K);
    later.rom = vec![7; 16];
    later.buttons.a = true;
    assert_eq!(later.resume_from(&saved), Ok(()));
    assert_eq!(later.read_word_arm9(0x0200_0000), 0x1234_5678);
    assert_eq!(later.read_word_arm9(0x0B00_0000), 0x0BAD_CAFE, "the windows were derived again");
    assert_eq!(later.read_word_arm7(0x0380_0000), 0x5555_AAAA);
    assert_eq!(later.read_halfword_arm9(0x0680_0000), 0xBEEF);
    assert_eq!(later.irq.arm9_ie, 5);
    assert_eq!(later.read_ipc_fifo_rx_arm7(), 42);
    assert_eq!(later.rom, vec![7; 16], "the cartridge stays");
    assert!(later.buttons.a, "and so do the buttons");
    assert_eq!(saved.read_ipc_fifo_rx_arm7(), 42, "the snapshot is a machine of its own");
}

#[test]
fn resuming_discards_compiled_code() {
    let mut mmu = machine();
    let saved = mmu.capture();
    let page = mmu.code_page_arm9(0x0200_0000).expect("tracked");
    let before = mmu.code_version(page);
    assert_eq!(mmu.resume_from(&saved), Ok(()));
    assert_eq!(mmu.code_version(page), before + 1);
}

#[test]
fn each_fault_is_reported_before_anything_changes() {
    type Spoil = fn(&mut NdsMmu);
    let cases: [(Spoil, ResumeFault, &str); 9] = [
        (|m| m.ram.main_ram.truncate(9), ResumeFault::Memory(Misfit::Main), "main_ram size mismatch"),
        (
            |m| m.ram.shared_wram.truncate(9),
            ResumeFault::Memory(Misfit::Shared),
            "shared_wram size mismatch",
        ),
        (
            |m| m.ram.arm7_wram.truncate(9),
            ResumeFault::Memory(Misfit::Wram7),
            "arm7_wram size mismatch",
        ),
        (|m| m.ram.itcm.truncate(9), ResumeFault::Memory(Misfit::Itcm), "itcm size mismatch"),
        (|m| m.ram.dtcm.truncate(9), ResumeFault::Memory(Misfit::Dtcm), "dtcm size mismatch"),
        (|m| m.vram.banks[8].data.truncate(9), ResumeFault::VramBank, "vram bank size mismatch"),
        (
            |m| m.backup = NdsBackup::new(BackupKind::Flash1M),
            ResumeFault::OtherChip,
            "snapshot names a different backup device",
        ),
        (|m| m.arm9_io.truncate(9), ResumeFault::Arm9Io, "arm9_io size mismatch"),
        (|m| m.arm7_io.truncate(9), ResumeFault::Arm7Io, "arm7_io size mismatch"),
    ];
    for (spoil, fault, message) in cases {
        let mut saved = machine().capture();
        spoil(&mut saved);
        let mut later = NdsMmu::new();
        later.backup = NdsBackup::new(BackupKind::Flash512K);
        assert_eq!(later.resume_from(&saved), Err(fault));
        assert_eq!(fault.message(), message);
        assert_eq!(later.read_word_arm9(0x0200_0000), 0);
    }
    assert_eq!(ResumeFault::Firmware.message(), "firmware image size mismatch");
    assert_eq!(ResumeFault::ChipSize.message(), "backup chip size mismatch");
}

#[test]
fn a_saved_chip_brings_its_contents_back() {
    let mut chip = NdsBackup::new(BackupKind::Flash256K);
    chip.transfer(0x06);
    chip.deselect();
    for b in [0x0A, 0, 0, 0, 0x77] {
        chip.transfer(b);
    }
    chip.deselect();
    let mut other = NdsBackup::new(BackupKind::Flash256K);
    assert_eq!(other.resume_from(&chip), Ok(()));
    assert_eq!(other.data(), chip.data());
    assert_eq!(other.data()[0], 0x77);
    assert!(other.is_dirty(), "it still has to reach the disk");
    let mut wrong = NdsBackup::new(BackupKind::Flash512K);
    assert_eq!(wrong.resume_from(&chip), Err(ChipFault::Kind));
    assert_eq!(wrong.data()[0], 0xFF);
}

#[test]
fn a_saved_processor_and_display_resume() {
    let mut cpu = Arm9Cpu::new();
    cpu.cpu.registers.gpr[3] = 9;
    cpu.cpu.registers.bank_sp[1] = 8;
    cpu.cp15.control = 0x5_0000;
    let mut other = Arm9Cpu::new();
    other.resume_from(&cpu);
    assert_eq!(other.cpu.registers.gpr[3], 9);
    assert_eq!(other.cpu.registers.bank_sp[1], 8);
    assert_eq!(other.cp15, cpu.cp15);
    let mut ppu = NdsPpu::new();
    ppu.frame_count = 3;
    let mut shown = NdsPpu::new();
    shown.resume_from(&ppu);
    assert_eq!(shown, ppu);
}
