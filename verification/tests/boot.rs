use nds_core::cpu::arm7::Arm7Cpu;
use nds_core::cpu::arm9::Arm9Cpu;
use nds_core::hle::boot_load_rom;
use nds_core::mmu::NdsMmu;

#[test]
fn test_boot_writes_gamecard_chip_id_boot_info() {
    let mut mmu = NdsMmu::new();
    let mut arm9 = Arm9Cpu::new();
    let mut arm7 = Arm7Cpu::new();
    let rom = vec![0u8; 0x200]; // minimal parseable header, empty binaries
    boot_load_rom(&mut mmu, &mut arm9, &mut arm7, &rom).unwrap();
    let id = NdsMmu::gamecard_chip_id_for_len(rom.len());
    assert_eq!(id & 0xFF, 0xC2, "Macronix manufacturer byte");
    for slot in [0x027F_F800u32, 0x027F_F804, 0x027F_FC00, 0x027F_FC04, 0x027F_FC10] {
        assert_eq!(mmu.read_word_arm9(slot), id, "boot-info chip ID at {slot:#010x}");
    }
    assert_eq!(mmu.read_halfword_arm9(0x027F_FC40), 1, "boot indicator = cartridge boot");
}

#[test]
fn test_nds_cartridge_load_and_boot() {
    let mut mmu = NdsMmu::new();
    let mut arm9 = Arm9Cpu::new();
    let mut arm7 = Arm7Cpu::new();

    let mut rom = vec![0u8; 0x1000];
    
    rom[0..9].copy_from_slice(b"MOCK GAME");
    rom[0x0C..0x10].copy_from_slice(b"MCKG");

    let arm9_rom_offset: u32 = 0x200;
    let arm9_ram_addr: u32 = 0x02000800;
    let arm9_size: u32 = 0x200;
    rom[0x20..0x24].copy_from_slice(&arm9_rom_offset.to_le_bytes());
    rom[0x24..0x28].copy_from_slice(&arm9_ram_addr.to_le_bytes()); // entry point
    rom[0x28..0x2C].copy_from_slice(&arm9_ram_addr.to_le_bytes()); // ram address
    rom[0x2C..0x30].copy_from_slice(&arm9_size.to_le_bytes());

    let instr1: u32 = 0xEA000000;
    let instr2: u32 = 0xE1A00000;
    rom[0x200..0x204].copy_from_slice(&instr1.to_le_bytes());
    rom[0x204..0x208].copy_from_slice(&instr2.to_le_bytes());

    let arm7_rom_offset: u32 = 0x400;
    let arm7_ram_addr: u32 = 0x03800000;
    let arm7_size: u32 = 0x100;
    rom[0x30..0x34].copy_from_slice(&arm7_rom_offset.to_le_bytes());
    rom[0x34..0x38].copy_from_slice(&arm7_ram_addr.to_le_bytes()); // entry point
    rom[0x38..0x3C].copy_from_slice(&arm7_ram_addr.to_le_bytes()); // ram address
    rom[0x3C..0x40].copy_from_slice(&arm7_size.to_le_bytes());

    let arm7_instr: u32 = 0xE12FFF11; // BX R1
    rom[0x400..0x404].copy_from_slice(&arm7_instr.to_le_bytes());

    let res = boot_load_rom(&mut mmu, &mut arm9, &mut arm7, &rom);
    assert!(res.is_ok());

    assert_eq!(mmu.read_word_arm9(0x02000800), instr1);
    assert_eq!(mmu.read_word_arm9(0x02000804), instr2);
    assert_eq!(mmu.read_word_arm7(0x03800000), arm7_instr);

    assert_eq!(&mmu.ram.main_ram[0x3FFE00..0x3FFE09], b"MOCK GAME");

    assert_eq!(mmu.read_byte_arm9(0x027FFFC0), 0x66);
    assert_eq!(mmu.read_byte_arm7(0x027FFFC4), 0x66);

    assert_eq!(arm9.cpu.registers.cpsr, 0x1F);
    assert_eq!(arm9.cpu.registers.gpr[13], 0x03002F00); // SP
    assert_eq!(arm9.cpu.registers.gpr[15], arm9_ram_addr + 8); // PC
    assert_eq!(arm9.cpu.pipeline[0], instr1);
    assert_eq!(arm9.cpu.pipeline[1], instr2);

    assert_eq!(arm7.cpu.registers.cpsr, 0x1F);
    assert_eq!(arm7.cpu.registers.gpr[13], 0x0380FFFC); // SP
    assert_eq!(arm7.cpu.registers.gpr[15], arm7_ram_addr + 8); // PC
    assert_eq!(arm7.cpu.pipeline[0], arm7_instr);
}

#[test]
fn test_nds_cartridge_load_and_boot_with_autoload() {
    let mut mmu = NdsMmu::new();
    let mut arm9 = Arm9Cpu::new();
    let mut arm7 = Arm7Cpu::new();

    let mut rom = vec![0u8; 0x1000];
    
    rom[0..9].copy_from_slice(b"MOCK GAME");
    rom[0x0C..0x10].copy_from_slice(b"MCKG");

    let arm9_rom_offset: u32 = 0x200;
    let arm9_ram_addr: u32 = 0x02000800;
    let arm9_size: u32 = 0x200;
    rom[0x20..0x24].copy_from_slice(&arm9_rom_offset.to_le_bytes());
    rom[0x24..0x28].copy_from_slice(&arm9_ram_addr.to_le_bytes()); // entry point
    rom[0x28..0x2C].copy_from_slice(&arm9_ram_addr.to_le_bytes()); // ram address
    rom[0x2C..0x30].copy_from_slice(&arm9_size.to_le_bytes());

    let arm9_autoload_info: u32 = 0x02000900;
    rom[0x74..0x78].copy_from_slice(&arm9_autoload_info.to_le_bytes());

    let dest_addr: u32 = 0x02300000;
    let size: u32 = 16;
    let bss_size: u32 = 8;
    rom[0x300..0x304].copy_from_slice(&dest_addr.to_le_bytes());
    rom[0x304..0x308].copy_from_slice(&size.to_le_bytes());
    rom[0x308..0x30C].copy_from_slice(&bss_size.to_le_bytes());

    rom[0x30C..0x310].copy_from_slice(&0u32.to_le_bytes());

    let autoload_data = [1, 2, 3, 4, 5, 6, 7, 8, 9, 10, 11, 12, 13, 14, 15, 16];
    rom[0x400..0x410].copy_from_slice(&autoload_data);

    let arm7_rom_offset: u32 = 0x500;
    let arm7_ram_addr: u32 = 0x03800000;
    let arm7_size: u32 = 0x100;
    rom[0x30..0x34].copy_from_slice(&arm7_rom_offset.to_le_bytes());
    rom[0x34..0x38].copy_from_slice(&arm7_ram_addr.to_le_bytes()); // entry point
    rom[0x38..0x3C].copy_from_slice(&arm7_ram_addr.to_le_bytes()); // ram address
    rom[0x3C..0x40].copy_from_slice(&arm7_size.to_le_bytes());

    let arm7_instr: u32 = 0xE12FFF11;
    rom[0x500..0x504].copy_from_slice(&arm7_instr.to_le_bytes());

    let res = boot_load_rom(&mut mmu, &mut arm9, &mut arm7, &rom);
    assert!(res.is_ok());

    for i in 0..16 {
        assert_eq!(mmu.read_byte_arm9(dest_addr + i as u32), autoload_data[i]);
    }
    for i in 0..8 {
        assert_eq!(mmu.read_byte_arm9(dest_addr + 16 + i as u32), 0);
    }
}

#[test]
fn test_hle_autoload_and_ipc_robustness() {
    let mut mmu = NdsMmu::new();
    let mut arm9 = Arm9Cpu::new();
    let mut arm7 = Arm7Cpu::new();

    let mut rom = vec![0u8; 0x2000];
    rom[0..9].copy_from_slice(b"MOCK GAME");
    rom[0x0C..0x10].copy_from_slice(b"MCKG");

    let arm9_rom_offset: u32 = 0x200;
    let arm9_ram_addr: u32 = 0x02000800;
    let arm9_size: u32 = 0x400;
    rom[0x20..0x24].copy_from_slice(&arm9_rom_offset.to_le_bytes());
    rom[0x24..0x28].copy_from_slice(&arm9_ram_addr.to_le_bytes());
    rom[0x28..0x2C].copy_from_slice(&arm9_ram_addr.to_le_bytes());
    rom[0x2C..0x30].copy_from_slice(&arm9_size.to_le_bytes());

    let arm9_autoload_info: u32 = 0x02000B00;
    rom[0x74..0x78].copy_from_slice(&arm9_autoload_info.to_le_bytes());

    let dest_1: u32 = 0x02100000;
    let size_1: u32 = 0x10;
    let bss_1: u32 = 0x10;
    rom[0x500..0x504].copy_from_slice(&dest_1.to_le_bytes());
    rom[0x504..0x508].copy_from_slice(&size_1.to_le_bytes());
    rom[0x508..0x50C].copy_from_slice(&bss_1.to_le_bytes());

    let dest_2: u32 = 0x01002000;
    let size_2: u32 = 0x20;
    let bss_2: u32 = 0x20;
    rom[0x50C..0x510].copy_from_slice(&dest_2.to_le_bytes());
    rom[0x510..0x514].copy_from_slice(&size_2.to_le_bytes());
    rom[0x514..0x518].copy_from_slice(&bss_2.to_le_bytes());

    let dest_3: u32 = 0x0B001000;
    let size_3: u32 = 0x30;
    let bss_3: u32 = 0x30;
    rom[0x518..0x51C].copy_from_slice(&dest_3.to_le_bytes());
    rom[0x51C..0x520].copy_from_slice(&size_3.to_le_bytes());
    rom[0x520..0x524].copy_from_slice(&bss_3.to_le_bytes());

    rom[0x524..0x528].copy_from_slice(&0u32.to_le_bytes());

    let data_1 = [0xA1; 16];
    rom[0x600..0x610].copy_from_slice(&data_1);

    let data_2 = [0xB2; 32];
    rom[0x610..0x630].copy_from_slice(&data_2);

    let data_3 = [0xC3; 48];
    rom[0x630..0x660].copy_from_slice(&data_3);

    let arm7_rom_offset: u32 = 0x700;
    let arm7_ram_addr: u32 = 0x03800000;
    let arm7_size: u32 = 0x100;
    rom[0x30..0x34].copy_from_slice(&arm7_rom_offset.to_le_bytes());
    rom[0x34..0x38].copy_from_slice(&arm7_ram_addr.to_le_bytes());
    rom[0x38..0x3C].copy_from_slice(&arm7_ram_addr.to_le_bytes());
    rom[0x3C..0x40].copy_from_slice(&arm7_size.to_le_bytes());

    let res = boot_load_rom(&mut mmu, &mut arm9, &mut arm7, &rom);
    assert!(res.is_ok());

    for i in 0..16 {
        assert_eq!(mmu.read_byte_arm9(dest_1 + i), 0xA1);
    }
    for i in 0..16 {
        assert_eq!(mmu.read_byte_arm9(dest_1 + 16 + i), 0);
    }

    for i in 0..32 {
        assert_eq!(mmu.read_byte_arm9(dest_2 + i), 0xB2);
    }
    for i in 0..32 {
        assert_eq!(mmu.read_byte_arm9(dest_2 + 32 + i), 0);
    }

    for i in 0..48 {
        assert_eq!(mmu.read_byte_arm9(dest_3 + i), 0xC3);
    }
    for i in 0..48 {
        assert_eq!(mmu.read_byte_arm9(dest_3 + 48 + i), 0);
    }

    mmu.reset();
    let dest_large: u32 = 0x02100000;
    let size_large: u32 = 4;
    let bss_large: u32 = 8 * 1024 * 1024;
    rom[0x500..0x504].copy_from_slice(&dest_large.to_le_bytes());
    rom[0x504..0x508].copy_from_slice(&size_large.to_le_bytes());
    rom[0x508..0x50C].copy_from_slice(&bss_large.to_le_bytes());
    rom[0x50C..0x510].copy_from_slice(&0u32.to_le_bytes()); // terminator

    let data_large = [0xD4; 4];
    rom[0x600..0x604].copy_from_slice(&data_large);

    let res = boot_load_rom(&mut mmu, &mut arm9, &mut arm7, &rom);
    assert!(res.is_ok());
    assert_eq!(mmu.read_byte_arm9(dest_large), 0xD4);

    mmu.reset();
    let bss_almost_large: u32 = 8 * 1024 * 1024 - 1;
    rom[0x508..0x50C].copy_from_slice(&bss_almost_large.to_le_bytes());
    let res = boot_load_rom(&mut mmu, &mut arm9, &mut arm7, &rom);
    assert!(res.is_ok());

    mmu.reset();
    let bad_autoload_info = arm9_ram_addr - 4; // underflow checked_sub
    rom[0x74..0x78].copy_from_slice(&bad_autoload_info.to_le_bytes());
    let res = boot_load_rom(&mut mmu, &mut arm9, &mut arm7, &rom);
    assert!(res.is_ok()); // Should skip autoload and boot successfully

    mmu.reset();
    let bad_autoload_info = arm9_ram_addr + arm9_size + 10;
    rom[0x74..0x78].copy_from_slice(&bad_autoload_info.to_le_bytes());
    let res = boot_load_rom(&mut mmu, &mut arm9, &mut arm7, &rom);
    assert!(res.is_ok()); // Should break safely and boot successfully

    mmu.reset();
    mmu.write_ipc_fifo_cnt_arm9(0x8000);
    mmu.write_ipc_fifo_cnt_arm7(0x8000);

    let cnt9 = mmu.read_ipc_fifo_cnt_arm9();
    assert!((cnt9 & 1) != 0);       // Send FIFO empty
    assert!((cnt9 & 0x0100) != 0);  // Recv FIFO empty

    mmu.write_ipc_fifo_cnt_arm7(0x8000 | (1 << 10));

    mmu.write_ipc_fifo_tx_arm9(0x12345678);
    assert_eq!(mmu.read_ipc_fifo_cnt_arm9() & 1, 0); // Not empty anymore
    assert_ne!(mmu.irq.arm7_if & (1 << 18), 0);
    assert_eq!(mmu.irq.arm7_if & (1 << 17), 0, "must not raise Send-Empty (bit 17)");

    mmu.write_ipc_fifo_cnt_arm9(0x8000 | (1 << 2));

    let val = mmu.read_ipc_fifo_rx_arm7();
    assert_eq!(val, 0x12345678);
    assert!((mmu.read_ipc_fifo_cnt_arm9() & 1) != 0); // Empty again
    assert_ne!(mmu.irq.arm9_if & (1 << 17), 0);
    assert_eq!(mmu.irq.arm9_if & (1 << 18), 0, "must not raise Recv-Not-Empty (bit 18)");

    for i in 0..16 {
        mmu.write_ipc_fifo_tx_arm9(i);
    }
    let cnt9 = mmu.read_ipc_fifo_cnt_arm9();
    assert!((cnt9 & 2) != 0); // Send FIFO full
    let cnt7 = mmu.read_ipc_fifo_cnt_arm7();
    assert!((cnt7 & 0x0200) != 0); // Recv FIFO full on ARM7

    mmu.write_ipc_fifo_tx_arm9(99);
    assert!((mmu.read_ipc_fifo_cnt_arm9() & (1 << 14)) != 0);

    mmu.write_ipc_fifo_cnt_arm9(0x8000 | (1 << 14));
    assert_eq!(mmu.read_ipc_fifo_cnt_arm9() & (1 << 14), 0);

    mmu.ipc.fifo_9to7.clear();
    mmu.read_ipc_fifo_rx_arm7();
    assert!((mmu.read_ipc_fifo_cnt_arm7() & (1 << 14)) != 0);

    mmu.write_ipc_fifo_cnt_arm7(0x8000 | (1 << 14));
    assert_eq!(mmu.read_ipc_fifo_cnt_arm7() & (1 << 14), 0);

    mmu.write_ipc_fifo_cnt_arm9(0x8000 | (1 << 2) | (1 << 10));
    mmu.write_ipc_fifo_tx_arm9(42);
    assert_eq!(mmu.ipc.fifo_9to7.len(), 1);

    mmu.write_ipc_fifo_cnt_arm9(0); // Disable
    assert_eq!(mmu.ipc.fifo_9to7.len(), 0);
    let disabled_cnt = mmu.read_ipc_fifo_cnt_arm9();
    assert_eq!(disabled_cnt & (1 << 15), 0);
    assert_eq!(disabled_cnt & (1 << 2), 0);
    assert_eq!(disabled_cnt & (1 << 10), 0);

    mmu.reset();
    mmu.write_ipcsync_arm7(1 << 14); // Set bit 14
    mmu.write_ipcsync_arm9(1 << 13);
    assert_ne!(mmu.irq.arm7_if & (1 << 16), 0);

    mmu.reset();
    mmu.write_ipcsync_arm9(1 << 14);
    mmu.write_ipcsync_arm7(1 << 13);
    assert_ne!(mmu.irq.arm9_if & (1 << 16), 0);
}

