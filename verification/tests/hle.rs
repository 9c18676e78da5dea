use nds_core::cpu::arm7::Arm7Cpu;
use nds_core::cpu::arm9::Arm9Cpu;
use nds_core::hle::{boot_load_rom, NdsHeader};
use nds_core::mmu::NdsMmu;
use nds_core::user_settings::build_user_settings;

fn put(rom: &mut [u8], off: usize, val: u32) {
    rom[off..off + 4].copy_from_slice(&val.to_le_bytes());
}

/// An image with two programs of 64 bytes each.
fn image() -> Vec<u8> {
    let mut rom = vec![0u8; 0x1000];
    put(&mut rom, 0x20, 0x200);
    put(&mut rom, 0x24, 0x0200_0000);
    put(&mut rom, 0x28, 0x0200_0000);
    put(&mut rom, 0x2C, 0x40);
    put(&mut rom, 0x30, 0x400);
    put(&mut rom, 0x34, 0x0380_0000);
    put(&mut rom, 0x38, 0x0380_0000);
    put(&mut rom, 0x3C, 0x40);
    rom
}

fn boot(rom: &[u8]) -> (NdsMmu, Arm9Cpu, Arm7Cpu, Result<(), &'static str>) {
    let mut mmu = NdsMmu::new();
    let mut arm9 = Arm9Cpu::new();
    let mut arm7 = Arm7Cpu::new();
    let r = boot_load_rom(&mut mmu, &mut arm9, &mut arm7, rom);
    (mmu, arm9, arm7, r)
}

fn title(bytes: &[u8]) -> String {
    let mut rom = vec![0u8; 0x200];
    rom[..bytes.len()].copy_from_slice(bytes);
    match NdsHeader::parse(&rom) {
        Ok(h) => h.game_title,
        Err(e) => panic!("{e}"),
    }
}

#[test]
fn header_fields_are_little_endian_words() {
    let mut rom = image();
    rom[0x0C..0x10].copy_from_slice(b"ABCE");
    put(&mut rom, 0x74, 0x0102_0304);
    put(&mut rom, 0x78, 0xA0B0_C0D0);
    match NdsHeader::parse(&rom) {
        Ok(h) => {
            assert_eq!(h.game_code, *b"ABCE");
            assert_eq!((h.arm9_rom_offset, h.arm9_size), (0x200, 0x40));
            assert_eq!((h.arm7_entry_address, h.arm7_ram_address), (0x0380_0000, 0x0380_0000));
            assert_eq!((h.arm9_autoload_info, h.arm7_autoload_info), (0x0102_0304, 0xA0B0_C0D0));
        }
        Err(e) => panic!("{e}"),
    }
}

#[test]
fn titles_end_at_a_zero_and_lose_their_blanks() {
    assert_eq!(title(b"GAME\0XY"), "GAME");
    assert_eq!(title(b"  A GAME  "), "A GAME");
    assert_eq!(title(b"TWELVE LONG!TAIL"), "TWELVE LONG!");
    assert_eq!(title(b"A\x01B\x7FC\xFF"), "A?B?C?");
    assert_eq!(title(b"     "), "");
    assert_eq!(title(b"\0GAME"), "");
}

#[test]
fn a_short_image_is_truncated() {
    assert_eq!(NdsHeader::parse(&[0u8; 0x1FF]).err(), Some("NDS ROM truncated"));
    assert!(NdsHeader::parse(&[0u8; 0x200]).is_ok());
    let (mmu, arm9, _, r) = boot(&[0u8; 0x10]);
    assert_eq!(r, Err("NDS ROM truncated"));
    assert_eq!(mmu.wram_control, 3, "the machine was prepared all the same");
    assert_eq!(arm9.cp15, mmu.cp15());
}

#[test]
fn programs_outside_the_image_are_refused() {
    let mut rom = image();
    put(&mut rom, 0x2C, 0xE01);
    let (_, _, _, r) = boot(&rom);
    assert_eq!(r, Err("ARM9 binary offset/size out of ROM bounds"));
    let mut rom = image();
    rom[0x200] = 0x77;
    put(&mut rom, 0x30, 0xFFFF_FFFF);
    let (mmu, _, _, r) = boot(&rom);
    assert_eq!(r, Err("ARM7 binary offset/size out of ROM bounds"));
    assert_eq!(mmu.read_byte_arm9(0x0200_0000), 0x77, "the first program was loaded before");
}

#[test]
fn a_boot_places_the_memories_and_starts_both_processors() {
    let (mmu, arm9, arm7, r) = boot(&image());
    assert_eq!(r, Ok(()));
    assert!(mmu.itcm_enabled() && mmu.dtcm_enabled());
    assert_eq!((mmu.itcm_base(), mmu.dtcm_base()), (0x0100_0000, 0x0B00_0000));
    assert!(mmu.in_itcm_arm9(0x0100_7FFF) && !mmu.in_itcm_arm9(0x0100_8000));
    assert_eq!(arm9.cp15, mmu.cp15());
    assert_eq!(arm9.cpu.registers.gpr[15], 0x0200_0008);
    assert_eq!(arm7.cpu.registers.gpr[15], 0x0380_0008);
    assert!(arm9.cpu.armv5 && !arm7.cpu.armv5);
}

#[test]
fn a_boot_leaves_valid_user_settings() {
    let (mmu, _, _, _) = boot(&image());
    let settings = build_user_settings();
    for (i, b) in settings[..0x74].iter().enumerate() {
        assert_eq!(mmu.read_byte_arm9(0x027F_FC80 + i as u32), *b);
    }
}

#[test]
fn the_cartridge_reports_the_chip_that_the_boot_left() {
    let rom = image();
    let (mut mmu, _, _, _) = boot(&rom);
    mmu.rom = rom;
    mmu.write_byte_arm9(0x0400_01A8, 0xB8);
    mmu.write_byte_arm9(0x0400_01A7, 0x87); // start a block of one word
    assert_eq!(mmu.gamecard_read_data(), mmu.read_word_arm9(0x027F_F800));
    assert_eq!(mmu.read_word_arm9(0x027F_FC10), mmu.read_word_arm9(0x027F_F800));
}

/// An image whose second program holds an autoload table with two entries.
fn image_with_table7(bss: u32) -> Vec<u8> {
    let mut rom = image();
    put(&mut rom, 0x78, 0x0380_0010);
    put(&mut rom, 0x410, 0x0380_1000);
    put(&mut rom, 0x414, 4);
    put(&mut rom, 0x418, bss);
    put(&mut rom, 0x41C, 0x0380_2000);
    put(&mut rom, 0x420, 4);
    put(&mut rom, 0x424, 0);
    put(&mut rom, 0x440, 0x1111_1111);
    put(&mut rom, 0x444, 0x2222_2222);
    rom
}

#[test]
fn second_table_passes_over_an_oversized_zero_area() {
    let (mmu, _, _, r) = boot(&image_with_table7(0x80_0000));
    assert_eq!(r, Ok(()));
    assert_eq!(mmu.read_word_arm7(0x0380_1000), 0x1111_1111);
    assert_eq!(mmu.read_word_arm7(0x0380_2000), 0x2222_2222, "the table goes on");
    let (mmu, _, _, _) = boot(&image_with_table7(8));
    assert_eq!(mmu.read_word_arm7(0x0380_1000), 0x1111_1111);
    assert_eq!(mmu.read_word_arm7(0x0380_1004), 0);
}

#[test]
fn a_section_past_the_image_is_passed_over() {
    let mut rom = image();
    put(&mut rom, 0x74, 0x0200_0010);
    put(&mut rom, 0x210, 0x0210_0000);
    put(&mut rom, 0x214, 0x1000);
    put(&mut rom, 0x21C, 0x0220_0000);
    put(&mut rom, 0x220, 4);
    put(&mut rom, 0x240, 0x3333_3333);
    let (mmu, _, _, r) = boot(&rom);
    assert_eq!(r, Ok(()));
    assert_eq!(mmu.read_word_arm9(0x0210_0000), 0);
    assert_eq!(mmu.read_word_arm9(0x0220_0000), 0x3333_3333, "the source did not move");
}
