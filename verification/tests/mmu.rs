use nds_core::cpu::arm9::Arm9Cpu;
use nds_core::mmu::NdsMmu;
use nds_core::vram::VramManager;

#[test]
fn test_cp15_mcr_propagation_and_tcm_mapping() {
    let mut mmu = NdsMmu::new();
    let mut arm9 = Arm9Cpu::new();

    mmu.ram.main_ram[0] = 0xAA;
    mmu.ram.itcm[0] = 0xBB;
    mmu.ram.dtcm[0] = 0xCC;

    assert_eq!(mmu.read_byte_arm9(0x02000000), 0xAA);

    let mut dtcm_val = 0x0B000000 | (5 << 1);
    arm9.execute_cp15_transfer(&mut mmu, true, 9, 1, 0, &mut dtcm_val);
    assert_eq!(mmu.cp15().dtcm_control, 0x0B000000 | (5 << 1));
    assert_eq!(arm9.cp15.dtcm_control, 0x0B000000 | (5 << 1));
    assert_eq!(mmu.dtcm_base(), 0x0B000000);

    let mut itcm_val = 0x01000000 | (6 << 1);
    arm9.execute_cp15_transfer(&mut mmu, true, 9, 1, 1, &mut itcm_val);
    assert_eq!(mmu.cp15().itcm_control, 0x01000000 | (6 << 1));
    assert_eq!(mmu.itcm_base(), 0x01000000);

    assert!(!mmu.dtcm_enabled());
    assert!(!mmu.itcm_enabled());

    let mut ctrl_val = (1 << 16) | (1 << 18);
    arm9.execute_cp15_transfer(&mut mmu, true, 1, 0, 0, &mut ctrl_val);
    assert!(mmu.dtcm_enabled());
    assert!(mmu.itcm_enabled());

    assert_eq!(mmu.read_byte_arm9(0x0B000000), 0xCC);
    assert_eq!(mmu.read_byte_arm9(0x01000000), 0xBB);
    assert_eq!(mmu.read_byte_arm9(0x02000000), 0xAA);

    let mut disable_ctrl = 0;
    arm9.execute_cp15_transfer(&mut mmu, true, 1, 0, 0, &mut disable_ctrl);
    assert!(!mmu.dtcm_enabled());
    assert!(!mmu.itcm_enabled());
}

#[test]
fn test_shared_wram_mappings_all_modes() {
    let mut mmu = NdsMmu::new();

    mmu.ram.shared_wram[0] = 0x11;
    mmu.ram.shared_wram[128 * 1024 - 1] = 0x22;
    mmu.ram.shared_wram[128 * 1024] = 0x33;
    mmu.ram.shared_wram[256 * 1024 - 1] = 0x44;

    mmu.write_byte_arm9(0x04000247, 0); // Set WRAMCNT to 0
    assert_eq!(mmu.wram_control, 0);

    assert_eq!(mmu.read_byte_arm9(0x02400000), 0x11);
    assert_eq!(mmu.read_byte_arm9(0x02400000 + 128 * 1024 - 1), 0x22);
    assert_eq!(mmu.read_byte_arm9(0x02400000 + 128 * 1024), 0x33);
    assert_eq!(mmu.read_byte_arm9(0x02400000 + 256 * 1024 - 1), 0x44);

    assert_eq!(mmu.read_byte_arm9(0x02440000), 0x11);
    assert_eq!(mmu.read_byte_arm9(0x02440000 + 128 * 1024 - 1), 0x22);

    assert_eq!(mmu.read_byte_arm7(0x03000000), 0);
    assert_eq!(mmu.read_byte_arm7(0x03020000), 0);

    mmu.write_byte_arm9(0x04000247, 1); // Set WRAMCNT to 1
    assert_eq!(mmu.wram_control, 1);

    assert_eq!(mmu.read_byte_arm9(0x02440000), 0x33);
    assert_eq!(mmu.read_byte_arm9(0x02440000 + 128 * 1024 - 1), 0x44);
    assert_eq!(mmu.read_byte_arm9(0x02400000), 0);
    assert_eq!(mmu.read_byte_arm9(0x02400000 + 128 * 1024 - 1), 0);

    assert_eq!(mmu.read_byte_arm7(0x03000000), 0x11);
    assert_eq!(mmu.read_byte_arm7(0x03000000 + 128 * 1024 - 1), 0x22);
    assert_eq!(mmu.read_byte_arm7(0x03000000 + 128 * 1024), 0x11); // Mirror

    mmu.write_byte_arm9(0x04000247, 2);
    assert_eq!(mmu.wram_control, 2);

    assert_eq!(mmu.read_byte_arm9(0x02400000), 0x11);
    assert_eq!(mmu.read_byte_arm9(0x02400000 + 128 * 1024 - 1), 0x22);
    assert_eq!(mmu.read_byte_arm9(0x02400000 + 128 * 1024), 0);

    assert_eq!(mmu.read_byte_arm7(0x03000000), 0x33);
    assert_eq!(mmu.read_byte_arm7(0x03000000 + 128 * 1024 - 1), 0x44);
    assert_eq!(mmu.read_byte_arm7(0x03000000 + 128 * 1024), 0x33); // Mirror

    mmu.write_byte_arm9(0x04000247, 3);
    assert_eq!(mmu.wram_control, 3);

    assert_eq!(mmu.read_byte_arm9(0x02400000), 0);
    assert_eq!(mmu.read_byte_arm9(0x02440000), 0);

    assert_eq!(mmu.read_byte_arm7(0x03000000), 0x11);
    assert_eq!(mmu.read_byte_arm7(0x03000000 + 128 * 1024 - 1), 0x22);
    assert_eq!(mmu.read_byte_arm7(0x03000000 + 128 * 1024), 0x33);
    assert_eq!(mmu.read_byte_arm7(0x03000000 + 256 * 1024 - 1), 0x44);

    assert_eq!(mmu.read_byte_arm7(0x03000000 + 256 * 1024), 0x11);

    mmu.write_byte_arm7(0x04000241, 0); // Try to set Mode 0
    assert_eq!(mmu.wram_control, 3); // Remains Mode 3
}

#[test]
fn test_ipc_fifo_stress_and_disable() {
    let mut mmu = NdsMmu::new();

    mmu.write_ipc_fifo_cnt_arm9(0x8000);
    mmu.write_ipc_fifo_cnt_arm7(0x8000);

    assert_eq!(mmu.read_ipc_fifo_cnt_arm9() & 1, 1);       // ARM9 TX empty
    assert_eq!(mmu.read_ipc_fifo_cnt_arm9() & 0x0100, 0x0100); // ARM9 RX empty
    assert_eq!(mmu.read_ipc_fifo_cnt_arm7() & 1, 1);       // ARM7 TX empty
    assert_eq!(mmu.read_ipc_fifo_cnt_arm7() & 0x0100, 0x0100); // ARM7 RX empty

    for i in 0..16 {
        mmu.write_ipc_fifo_tx_arm9(100 + i);
    }
    assert_eq!(mmu.read_ipc_fifo_cnt_arm9() & 2, 2);       // ARM9 TX full
    assert_eq!(mmu.read_ipc_fifo_cnt_arm7() & 0x0200, 0x0200);       // ARM7 RX full

    mmu.write_ipc_fifo_tx_arm9(999);
    assert_eq!(mmu.ipc.fifo_9to7.len(), 16); // Remains 16
    assert_eq!(mmu.read_ipc_fifo_cnt_arm9() & (1 << 14), 1 << 14); // Error flag set on ARM9

    mmu.write_ipc_fifo_cnt_arm9(0x8000 | (1 << 14));
    assert_eq!(mmu.read_ipc_fifo_cnt_arm9() & (1 << 14), 0); // Error flag cleared

    for i in 0..16 {
        assert_eq!(mmu.read_ipc_fifo_rx_arm7(), 100 + i);
    }
    assert_eq!(mmu.read_ipc_fifo_cnt_arm9() & 1, 1);
    assert_eq!(mmu.read_ipc_fifo_cnt_arm7() & 1, 1);

    assert_eq!(mmu.read_ipc_fifo_rx_arm7(), 0);
    assert_eq!(mmu.read_ipc_fifo_cnt_arm7() & (1 << 14), 1 << 14); // Error flag set on ARM7

    mmu.write_ipc_fifo_tx_arm9(50);
    assert_eq!(mmu.ipc.fifo_9to7.len(), 1);
    mmu.write_ipc_fifo_cnt_arm9(0); // Disable
    assert_eq!(mmu.ipc.fifo_9to7.len(), 0); // Cleared
    assert_eq!(mmu.read_ipc_fifo_cnt_arm9() & (1 << 15), 0); // Disabled
    assert_eq!(mmu.read_ipc_fifo_cnt_arm9() & (1 << 14), 0); // Error cleared

    mmu.write_ipc_fifo_cnt_arm9(0x8000 | (1 << 2) | (1 << 10));
    assert_eq!(mmu.read_ipc_fifo_cnt_arm9() & 0x8404, 0x8404);

    mmu.write_ipc_fifo_cnt_arm9(0);
    
    let cnt_after_disable = mmu.read_ipc_fifo_cnt_arm9();
    assert_eq!(cnt_after_disable & (1 << 2), 0);
    assert_eq!(cnt_after_disable & (1 << 10), 0);
}

#[test]
fn test_nds_timer_overflow_reload_and_irq() {
    let mut mmu = NdsMmu::new();
    mmu.write_byte_arm9(0x0400_0100, 0xF0); // reload lo
    mmu.write_byte_arm9(0x0400_0101, 0xFF); // reload hi
    mmu.write_byte_arm9(0x0400_0102, 0xC0); // start + IRQ, prescaler F/1
    assert_eq!(
        mmu.read_halfword_arm9(0x0400_0100),
        0xFFF0,
        "start loads the counter from the reload latch"
    );
    mmu.tick_nds_timers(0x0F);
    assert_eq!(mmu.read_halfword_arm9(0x0400_0100), 0xFFFF, "counts at F/1");
    assert_eq!(mmu.irq.arm9_if & (1 << 3), 0, "no IRQ before overflow");
    mmu.tick_nds_timers(1);
    assert_eq!(
        mmu.read_halfword_arm9(0x0400_0100),
        0xFFF0,
        "overflow reloads the latch"
    );
    assert_eq!(mmu.irq.arm9_if & (1 << 3), 1 << 3, "overflow raises IF bit 3");
}

#[test]
fn test_nds_timer_count_up_cascade() {
    let mut mmu = NdsMmu::new();
    mmu.write_byte_arm9(0x0400_0100, 0xFF);
    mmu.write_byte_arm9(0x0400_0101, 0xFF);
    mmu.write_byte_arm9(0x0400_0102, 0x80);
    mmu.write_byte_arm9(0x0400_0104, 0xFF);
    mmu.write_byte_arm9(0x0400_0105, 0xFF);
    mmu.write_byte_arm9(0x0400_0106, 0xC4);
    mmu.tick_nds_timers(1); // TM0 overflow -> TM1 +1 -> TM1 overflow
    assert_eq!(mmu.irq.arm9_if & (1 << 4), 1 << 4, "cascaded TM1 overflow raises IF bit 4");
    assert_eq!(mmu.irq.arm9_if & (1 << 3), 0, "TM0 IRQ disabled: bit 3 stays clear");
}

#[test]
fn test_nds_timer_arm7_block_is_independent() {
    let mut mmu = NdsMmu::new();
    mmu.write_byte_arm7(0x0400_0100, 0xFF);
    mmu.write_byte_arm7(0x0400_0101, 0xFF);
    mmu.write_byte_arm7(0x0400_0102, 0xC0);
    mmu.tick_nds_timers(64); // several overflows batched into one delta
    assert_eq!(mmu.irq.arm7_if & (1 << 3), 1 << 3, "ARM7 timer IRQ lands in arm7_if");
    assert_eq!(mmu.irq.arm9_if, 0, "ARM9 IF untouched");
}

#[test]
fn word_reads_match_the_byte_path_everywhere() {
    let mut mmu = NdsMmu::new();
    for (i, b) in mmu.ram.main_ram.iter_mut().enumerate() {
        *b = (i as u8) ^ 0x5A;
    }
    for (i, b) in mmu.ram.itcm.iter_mut().enumerate() {
        *b = (i as u8).wrapping_mul(3) ^ 0x11;
    }
    for (i, b) in mmu.ram.dtcm.iter_mut().enumerate() {
        *b = (i as u8).wrapping_mul(7) ^ 0x22;
    }
    let mut cp15 = mmu.cp15();
    cp15.itcm_control = 0x0100_0000 | (6 << 1);
    cp15.dtcm_control = 0x0B00_0000 | (5 << 1);
    cp15.control |= (1 << 18) | (1 << 16);
    mmu.set_cp15(cp15);

    let main_top = 0x0200_0000 + 4 * 1024 * 1024;
    let addrs = [
        0x0200_0000,      // main RAM, aligned, fast path
        0x0200_0001,      // main RAM, unaligned, fast path
        0x0201_2345,      // main RAM, deep inside
        main_top - 4,     // last word wholly inside main RAM
        main_top - 2,     // straddles the top: fast path must decline
        main_top - 1,
        0x0240_0000,      // the shared-WRAM window inside the 0x02 arm
        0x0248_0000,      // above it: the mirroring fallback
        0x0400_0004,      // I/O (DISPSTAT) — never fast-pathed
        0x0500_0000,      // palette
        0x0100_0000,      // ITCM base
        0x0100_7FFE,      // ITCM, straddles the end of the 32 KB window
        0x0B00_0000,      // DTCM base
        0x0B00_3FFE,      // DTCM, straddles the end of the 16 KB window
        0x0000_0000,      // BIOS
        0xFFFF_0018,      // high vectors
    ];
    for &a in &addrs {
        let want_w = u32::from(mmu.read_byte_arm9(a))
            | (u32::from(mmu.read_byte_arm9(a.wrapping_add(1))) << 8)
            | (u32::from(mmu.read_byte_arm9(a.wrapping_add(2))) << 16)
            | (u32::from(mmu.read_byte_arm9(a.wrapping_add(3))) << 24);
        assert_eq!(mmu.read_word_arm9(a), want_w, "word read at {a:#010x}");
        let want_h = u16::from(mmu.read_byte_arm9(a))
            | (u16::from(mmu.read_byte_arm9(a.wrapping_add(1))) << 8);
        assert_eq!(mmu.read_halfword_arm9(a), want_h, "halfword read at {a:#010x}");
    }

    let mut cp15 = mmu.cp15();
    cp15.control &= !((1 << 18) | (1 << 16));
    mmu.set_cp15(cp15);
    for &a in &[0x0100_0000u32, 0x0B00_0000] {
        let want = u32::from(mmu.read_byte_arm9(a))
            | (u32::from(mmu.read_byte_arm9(a.wrapping_add(1))) << 8)
            | (u32::from(mmu.read_byte_arm9(a.wrapping_add(2))) << 16)
            | (u32::from(mmu.read_byte_arm9(a.wrapping_add(3))) << 24);
        assert_eq!(mmu.read_word_arm9(a), want, "TCM disabled at {a:#010x}");
    }
}

#[test]
fn word_writes_match_the_byte_path_everywhere() {
    let configure = || {
        let mut mmu = NdsMmu::new();
        let mut cp15 = mmu.cp15();
        cp15.itcm_control = 0x0100_0000 | (6 << 1);
        cp15.dtcm_control = 0x0B00_0000 | (5 << 1);
        cp15.control |= (1 << 18) | (1 << 16);
        mmu.set_cp15(cp15);
        mmu
    };

    let main_top: u32 = 0x0200_0000 + 4 * 1024 * 1024;
    let arm9_addrs = [
        0x0200_0000,  // main RAM, fast path
        0x0201_2344,  // main RAM, deep inside
        main_top - 4, // last word wholly inside main RAM
        main_top - 2, // straddles the top: fast path must decline
        0x0240_0000,  // shared-WRAM window inside the 0x02 arm
        0x0248_0000,  // above it: the mirroring fallback
        0x0100_0000,  // ITCM base
        0x0100_7FFE,  // ITCM, straddles the end of the window
        0x0B00_0000,  // DTCM base
        0x0B00_3FFE,  // DTCM, straddles the end of the window
        0x0500_0000,  // palette — not a fast-path region
        0x0600_0000,  // VRAM — bank routing, never fast-pathed
    ];
    for &a in &arm9_addrs {
        let (mut fast, mut slow) = (configure(), configure());
        fast.write_word_arm9(a, 0x1234_5678);
        slow.write_byte_arm9(a, 0x78);
        slow.write_byte_arm9(a.wrapping_add(1), 0x56);
        slow.write_byte_arm9(a.wrapping_add(2), 0x34);
        slow.write_byte_arm9(a.wrapping_add(3), 0x12);
        for i in 0..4u32 {
            let at = a.wrapping_add(i);
            assert_eq!(
                fast.read_byte_arm9(at),
                slow.read_byte_arm9(at),
                "arm9 word store at {a:#010x}, byte {i}"
            );
        }

        let (mut fast, mut slow) = (configure(), configure());
        fast.write_halfword_arm9(a, 0xBEEF);
        slow.write_byte_arm9(a, 0xEF);
        slow.write_byte_arm9(a.wrapping_add(1), 0xBE);
        for i in 0..2u32 {
            let at = a.wrapping_add(i);
            assert_eq!(
                fast.read_byte_arm9(at),
                slow.read_byte_arm9(at),
                "arm9 halfword store at {a:#010x}, byte {i}"
            );
        }
    }

    let arm7_addrs = [
        0x0200_0000,
        0x0203_FFFC,
        0x0380_0000,  // private WRAM base
        0x0380_FFFE,  // private WRAM, straddles the 64 KB end
        0x0300_0000,  // shared WRAM: WRAMCNT-dependent, must decline
        0x0400_0004,  // I/O
    ];
    for &a in &arm7_addrs {
        let (mut fast, mut slow) = (NdsMmu::new(), NdsMmu::new());
        fast.write_word_arm7(a, 0x1234_5678);
        slow.write_byte_arm7(a, 0x78);
        slow.write_byte_arm7(a.wrapping_add(1), 0x56);
        slow.write_byte_arm7(a.wrapping_add(2), 0x34);
        slow.write_byte_arm7(a.wrapping_add(3), 0x12);
        for i in 0..4u32 {
            let at = a.wrapping_add(i);
            assert_eq!(
                fast.read_byte_arm7(at),
                slow.read_byte_arm7(at),
                "arm7 word store at {a:#010x}, byte {i}"
            );
        }

        let (mut fast, mut slow) = (NdsMmu::new(), NdsMmu::new());
        fast.write_halfword_arm7(a, 0xBEEF);
        slow.write_byte_arm7(a, 0xEF);
        slow.write_byte_arm7(a.wrapping_add(1), 0xBE);
        for i in 0..2u32 {
            let at = a.wrapping_add(i);
            assert_eq!(
                fast.read_byte_arm7(at),
                slow.read_byte_arm7(at),
                "arm7 halfword store at {a:#010x}, byte {i}"
            );
        }
    }

    let mut watched = configure();
    watched.stores.ram_write_watch = Some((0x0200_0000, 0x0200_0010));
    assert!(
        watched.contiguous_arm9_mut(0x0200_0000, 4).is_none(),
        "an armed ram_write_watch must disable the write fast path"
    );
}

#[test]
fn arm7_word_reads_match_the_byte_path_everywhere() {
    let mut mmu = NdsMmu::new();
    for (i, b) in mmu.ram.main_ram.iter_mut().enumerate() {
        *b = (i as u8) ^ 0x3C;
    }
    for (i, b) in mmu.ram.arm7_wram.iter_mut().enumerate() {
        *b = (i as u8).wrapping_mul(5) ^ 0x44;
    }
    for (i, b) in mmu.ram.shared_wram.iter_mut().enumerate() {
        *b = (i as u8).wrapping_mul(9) ^ 0x66;
    }
    let addrs = [
        0x0200_0000u32,          // main RAM
        0x0200_0003,             // unaligned
        0x0240_0000,             // above 4 MB: folds through the mirror
        0x023F_FFFE,             // straddles the top of main RAM
        0x0300_0000,             // shared WRAM — never fast-pathed
        0x0380_0000,             // private ARM7 WRAM base
        0x0380_FFFE,             // straddles the end of the 64 KB window
        0x0400_0004,             // I/O
        0x0400_01C0,             // SPICNT: has a halfword special case
        0x0000_0000,             // BIOS
    ];
    for &a in &addrs {
        let want_w = u32::from(mmu.read_byte_arm7(a))
            | (u32::from(mmu.read_byte_arm7(a.wrapping_add(1))) << 8)
            | (u32::from(mmu.read_byte_arm7(a.wrapping_add(2))) << 16)
            | (u32::from(mmu.read_byte_arm7(a.wrapping_add(3))) << 24);
        assert_eq!(mmu.read_word_arm7(a), want_w, "word read at {a:#010x}");
    }
    for &a in &addrs {
        if a == 0x0400_01C0 {
            continue;
        }
        let want_h = u16::from(mmu.read_byte_arm7(a))
            | (u16::from(mmu.read_byte_arm7(a.wrapping_add(1))) << 8);
        assert_eq!(mmu.read_halfword_arm7(a), want_h, "halfword read at {a:#010x}");
    }
    for mode in 0..4u8 {
        mmu.wram_control = mode;
        let a = 0x0300_1000;
        let want = u32::from(mmu.read_byte_arm7(a))
            | (u32::from(mmu.read_byte_arm7(a + 1)) << 8)
            | (u32::from(mmu.read_byte_arm7(a + 2)) << 16)
            | (u32::from(mmu.read_byte_arm7(a + 3)) << 24);
        assert_eq!(mmu.read_word_arm7(a), want, "shared WRAM mode {mode}");
    }
}

#[test]
fn test_tcm_range_check_overflow_guards() {
    let mut mmu = NdsMmu::new();
    let mut cp15 = mmu.cp15();
    cp15.itcm_control = 0xFFFF0000 | (6 << 1);
    cp15.dtcm_control = 0x00001000 | (5 << 1);
    mmu.set_cp15(cp15);

    assert!(mmu.in_itcm_range_arm9(0xFFFF0000)); // offset 0
    assert!(mmu.in_itcm_range_arm9(0xFFFF_0000u32.wrapping_add(0x7FFF))); // last in
    assert!(!mmu.in_itcm_range_arm9(0xFFFF_0000u32.wrapping_add(0x8000))); // first out
    assert!(!mmu.in_itcm_range_arm9(0xFEFF_0000)); // far below base wraps -> out

    assert!(mmu.in_dtcm_range_arm9(0x00001000)); // offset 0
    assert!(mmu.in_dtcm_range_arm9(0x00001000 + 0x3FFF)); // last in
    assert!(!mmu.in_dtcm_range_arm9(0x00001000 + 0x4000)); // first out
    assert!(!mmu.in_dtcm_range_arm9(0x00000FFF)); // underflow wraps -> out
}

#[test]
fn wramcnt_modes_follow_the_gbatek_allocation_table() {
    let probe = |mode: u8| -> (bool, bool) {
        let mut mmu = NdsMmu::new();
        mmu.wram_control = mode;
        mmu.write_byte_arm9(0x0240_0000, 0xA9);
        mmu.write_byte_arm7(0x0300_0000, 0xA7);
        (
            mmu.read_byte_arm9(0x0240_0000) == 0xA9,
            mmu.read_byte_arm7(0x0300_0000) == 0xA7,
        )
    };
    assert_eq!(probe(0).0, true, "mode 0 must map the window to the ARM9");
    assert_eq!(probe(3).0, false, "mode 3 gives the ARM9 nothing");
    assert_eq!(probe(3).1, true, "mode 3 must map the whole window to the ARM7");
    assert_eq!(probe(2).0, true, "mode 2 maps the ARM9's lower half at its base");
    assert_eq!(probe(1).0, false, "mode 1 puts the ARM9's half at +0x40000, not its base");
    let mut mmu = NdsMmu::new();
    mmu.wram_control = 1;
    mmu.write_byte_arm9(0x0244_0000, 0x5A);
    assert_eq!(mmu.read_byte_arm9(0x0244_0000), 0x5A, "mode 1 = ARM9 upper half");
    assert!(probe(1).1 && probe(2).1, "the split modes map a half to the ARM7");
}

#[test]
fn test_gxstat_hle_read_never_reports_error_or_busy() {
    let mut mmu = NdsMmu::new();
    mmu.write_word_arm9(0x0400_0600, 0x0000_C000); // the game's error-ack write
    assert_eq!(
        mmu.read_word_arm9(0x0400_0600),
        0x0600_0002,
        "box-test-inside only; no error/busy; FIFO reads empty + <half"
    );
    mmu.write_byte_arm9(0x0400_0603, 0x40);
    assert_eq!(mmu.read_word_arm9(0x0400_0600), 0x4600_0002);
    assert_ne!(mmu.irq.arm9_if & (1 << 21), 0, "GX FIFO IRQ must latch on mode select");
    mmu.irq.arm9_if = 0;
    mmu.write_word_arm9(0x0400_0400, 0x1234_5678);
    assert_ne!(mmu.irq.arm9_if & (1 << 21), 0, "GX FIFO IRQ must latch on push");
    assert!(mmu.has_3d_activity);
}

#[test]
fn test_bg_a_uses_per_bank_windows_and_excludes_engine_b_banks() {
    let mut v = VramManager::new();
    v.banks[5].control = 0x80 | 1 | (2 << 3);
    v.write_bg_a(0x10000, 0xF1);
    assert_eq!(v.banks[5].data[0], 0xF1, "F/G OFS.1 selects a 64K step");
    assert_eq!(v.read_bg_a(0x10000), 0xF1);
    assert_eq!(v.read_bg_a(0x8000), 0, "no other step is mapped");

    let mut v = VramManager::new();
    v.banks[4].control = 0x80 | 1 | (3 << 3);
    v.write_bg_a(0x0004, 0xEE);
    assert_eq!(v.banks[4].data[4], 0xEE, "bank E ignores OFS");

    let mut v = VramManager::new();
    v.banks[7].control = 0x81;
    v.banks[7].data[0] = 0xBB;
    assert_eq!(v.read_bg_a(0x0000), 0, "H at MST 1 belongs to engine B");
    assert_eq!(v.read_bg_b(0x0000), 0xBB);
}

#[test]
fn test_bg_b_resolves_banks_c_h_and_i_without_collision() {
    let mut v = VramManager::new();
    v.banks[2].control = 0x84;
    v.banks[7].control = 0x81;
    v.banks[8].control = 0x81;
    v.banks[3].control = 0x84;

    v.write_bg_b(0x0000, 0xC1); // bank C
    v.write_bg_b(0x0100, 0xC2);
    assert_eq!(v.read_bg_b(0x0000), 0xC1);
    assert_eq!(v.read_bg_b(0x0100), 0xC2);
    assert_eq!(v.banks[2].data[0], 0xC1, "must land in bank C");
    assert_eq!(v.banks[3].data[0], 0x00, "engine-B OBJ bank D untouched");

    v.banks[2].control = 0;
    v.write_bg_b(0x0004, 0xAA);
    v.write_bg_b(0x8004, 0xBB);
    assert_eq!(v.read_bg_b(0x0004), 0xAA);
    assert_eq!(v.read_bg_b(0x8004), 0xBB);
    assert_eq!(v.banks[7].data[4], 0xAA, "bank H at window base");
    assert_eq!(v.banks[8].data[4], 0xBB, "bank I offset by 0x8000");
    assert_eq!(v.read_bg_b(0x1F000), 0);
}

#[test]
fn test_sndcap_registers_store_and_read_back() {
    let mut mmu = NdsMmu::new();
    mmu.write_byte_arm7(0x0400_0508, 0x8F); // cap0 CNT: armed + source bits
    mmu.write_byte_arm7(0x0400_0510, 0x00); // cap0 DAD = 0x02064000
    mmu.write_byte_arm7(0x0400_0511, 0x40);
    mmu.write_byte_arm7(0x0400_0512, 0x06);
    mmu.write_byte_arm7(0x0400_0513, 0x02);
    mmu.write_byte_arm7(0x0400_0514, 0x80); // cap0 LEN = 0x80 words
    mmu.write_byte_arm7(0x0400_0515, 0x00);
    mmu.write_byte_arm7(0x0400_0509, 0x80); // cap1 CNT armed
    mmu.write_byte_arm7(0x0400_051C, 0x40); // cap1 LEN
    assert_eq!(mmu.apu.cap_cnt, [0x8F, 0x80]);
    assert_eq!(mmu.apu.cap_dad[0], 0x0206_4000);
    assert_eq!(mmu.apu.cap_len, [0x80, 0x40]);
    assert_eq!(mmu.read_byte_arm7(0x0400_0508), 0x8F);
    assert_eq!(mmu.read_byte_arm7(0x0400_0512), 0x06);
    assert_eq!(mmu.read_byte_arm7(0x0400_0514), 0);
    assert_eq!(mmu.apu.cap_write_log.len(), 9);
}

#[test]
fn test_arm9_hardware_divider_and_sqrt() {
    let mut mmu = NdsMmu::new();
    mmu.write_halfword_arm9(0x0400_0280, 0);
    mmu.write_word_arm9(0x0400_0290, (-100i32) as u32);
    mmu.write_word_arm9(0x0400_0298, 7);
    let q = mmu.read_word_arm9(0x0400_02A0) as i32;
    let q_hi = mmu.read_word_arm9(0x0400_02A4) as i32;
    let r = mmu.read_word_arm9(0x0400_02A8) as i32;
    assert_eq!(q, -14);
    assert_eq!(q_hi, -1, "quotient sign-extends across the 64-bit result");
    assert_eq!(r, -2);
    assert_eq!(
        mmu.read_halfword_arm9(0x0400_0280) & 0xC000,
        0,
        "busy clear, no div0"
    );
    mmu.write_halfword_arm9(0x0400_0280, 1);
    mmu.write_word_arm9(0x0400_0290, 1 << 28);
    mmu.write_word_arm9(0x0400_0294, 0);
    mmu.write_word_arm9(0x0400_0298, 1152);
    assert_eq!(mmu.read_word_arm9(0x0400_02A0), (1u32 << 28) / 1152);
    mmu.write_word_arm9(0x0400_0298, 0);
    assert_ne!(mmu.read_halfword_arm9(0x0400_0280) & 0x4000, 0);
    assert_eq!(mmu.read_word_arm9(0x0400_02A0), 0);
    mmu.write_halfword_arm9(0x0400_02B0, 0);
    mmu.write_word_arm9(0x0400_02B8, 1 << 28);
    assert_eq!(mmu.read_word_arm9(0x0400_02B4), 1 << 14);
    mmu.write_halfword_arm9(0x0400_02B0, 1);
    mmu.write_word_arm9(0x0400_02B8, 3);
    mmu.write_word_arm9(0x0400_02BC, 1 << 8);
    assert_eq!(mmu.read_word_arm9(0x0400_02B4), 1 << 20);
}

#[test]
fn test_gx_words_reach_decoder_via_fifo_and_ports() {
    let mut mmu = NdsMmu::new();
    mmu.write_word_arm9(0x0400_0440, 1);
    assert_eq!(mmu.gx.histo[0x10], 1);
    mmu.write_word_arm9(0x0400_0400, 0x0000_0015);
    assert_eq!(mmu.gx.histo[0x15], 1);
    assert_eq!(mmu.gx.trace.len(), 2);
    assert!(mmu.has_3d_activity);
}

#[test]
fn test_clear_color_write_maps_alpha_to_opacity() {
    let mut mmu = NdsMmu::new();
    mmu.write_word_arm9(0x0400_0350, (31 << 16) | 0x7C00);
    assert_eq!(mmu.gx.engine.clear_px, 0x8000 | 0x7C00);
    mmu.write_word_arm9(0x0400_0350, 0x7C00);
    assert_eq!(mmu.gx.engine.clear_px, 0);
}

#[test]
fn test_obj_vram_windows_do_not_cross_engines() {
    let mut mmu = NdsMmu::new();
    mmu.write_byte_arm9(0x04000241, 0x82); // VRAMCNT_B: enable, MST 2 -> OBJ-A
    mmu.write_byte_arm9(0x04000249, 0x82); // VRAMCNT_I: enable, MST 2 -> OBJ-B
    mmu.write_byte_arm9(0x0640_2000, 0xAA); // engine A OBJ tile byte
    mmu.write_byte_arm9(0x0660_2000, 0xBB); // engine B OBJ tile byte
    assert_eq!(mmu.vram.banks[1].data[0x2000], 0xAA, "OBJ-A write lands in bank B");
    assert_eq!(mmu.vram.banks[1].data.iter().filter(|&&b| b == 0xBB).count(), 0,
        "engine-B write must not leak into bank B");
    assert_eq!(mmu.vram.banks[8].data[0x2000], 0xBB, "OBJ-B write lands in bank I");
    assert_eq!(mmu.vram.banks[8].data.iter().filter(|&&b| b == 0xAA).count(), 0,
        "engine-A write must not clobber bank I");
    assert_eq!(mmu.read_byte_arm9(0x0640_2000), 0xAA);
    assert_eq!(mmu.read_byte_arm9(0x0660_2000), 0xBB);
    assert_eq!(mmu.vram.read_obj_a(0x2000), 0xAA);
    assert_eq!(mmu.vram.read_obj_b(0x2000), 0xBB);
}

