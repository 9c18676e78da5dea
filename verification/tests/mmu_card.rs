use nds_core::mmu::NdsMmu;

#[test]
fn test_gamecard_slot_dma_drains_block() {
    let mut mmu = NdsMmu::new();
    mmu.rom = (0..0x2000u32).map(|i| i as u8).collect();
    mmu.write_word_arm9(0x0400_00BC, 0x0410_0010);
    mmu.write_word_arm9(0x0400_00C0, 0x0200_1000);
    mmu.write_word_arm9(0x0400_00C4, 0xAF00_0001);
    mmu.write_byte_arm9(0x0400_01A8, 0xB7);
    mmu.write_byte_arm9(0x0400_01A9, 0x00);
    mmu.write_byte_arm9(0x0400_01AA, 0x00);
    mmu.write_byte_arm9(0x0400_01AB, 0x02);
    mmu.write_byte_arm9(0x0400_01AC, 0x00);
    mmu.write_word_arm9(0x0400_01A4, 0x8000_0000 | (1 << 24));
    assert_eq!(mmu.gamecard.bytes_left, 0, "DMA drained the whole block");
    assert_eq!(
        mmu.read_word_arm9(0x0200_1000),
        0x0302_0100,
        "first word landed at the destination"
    );
    assert_eq!(
        mmu.read_word_arm9(0x0200_1000 + 508),
        0xFFFE_FDFC,
        "last word of the 512-byte block landed"
    );
    let romctrl = mmu.read_word_arm9(0x0400_01A4);
    assert_eq!(romctrl & (1 << 31), 0, "busy cleared on completion");
    let cnt = mmu.read_word_arm9(0x0400_00C4);
    assert_eq!(cnt & (1 << 31), 1 << 31, "repeat-mode channel stays armed");

    mmu.write_byte_arm9(0x0400_01AB, 0x04); // cmd addr -> ROM 0x400
    mmu.write_word_arm9(0x0400_01A4, 0x8000_0000 | (1 << 24));
    assert_eq!(
        mmu.read_word_arm9(0x0200_1200),
        0x0302_0100,
        "second block continued at the advanced cursor (rom[0x400..] = 00 01 02 03)"
    );
}

#[test]
fn test_gamecard_b7_block_read_streams_and_clears_busy() {
    let mut mmu = NdsMmu::new();
    mmu.rom = vec![0u8; 0x2000];
    for i in 0..16u32 {
        mmu.rom[0x1000 + i as usize] = (0xA0 + i) as u8; // recognizable pattern
    }
    mmu.write_byte_arm9(0x0400_01A8, 0xB7);
    mmu.write_byte_arm9(0x0400_01A9, 0x00);
    mmu.write_byte_arm9(0x0400_01AA, 0x00);
    mmu.write_byte_arm9(0x0400_01AB, 0x10);
    mmu.write_byte_arm9(0x0400_01AC, 0x00);
    mmu.write_word_arm9(0x0400_01A4, 0x8000_0000 | (1 << 24));

    let rc = mmu.read_word_arm9(0x0400_01A4);
    assert_ne!(rc & (1 << 31), 0, "busy set after block start");
    assert_ne!(rc & (1 << 23), 0, "word-ready set while data remains");

    assert_eq!(mmu.gamecard_read_data(), u32::from_le_bytes([0xA0, 0xA1, 0xA2, 0xA3]));
    assert_eq!(mmu.gamecard_read_data(), u32::from_le_bytes([0xA4, 0xA5, 0xA6, 0xA7]));
    for _ in 0..126 {
        mmu.gamecard_read_data();
    }
    assert_eq!(
        mmu.read_word_arm9(0x0400_01A4) & (1 << 31),
        0,
        "busy cleared once the block is fully drained"
    );
    assert_eq!(mmu.gamecard_read_data(), 0, "no data outside an active transfer");
}

#[test]
fn test_gamecard_zero_length_block_completes_immediately() {
    let mut mmu = NdsMmu::new();
    mmu.rom = vec![0u8; 0x100];
    mmu.write_byte_arm9(0x0400_01A8, 0xB7);
    mmu.write_word_arm9(0x0400_01A4, 0x8000_0000); // start, block-size field 0
    assert_eq!(
        mmu.read_word_arm9(0x0400_01A4) & (1 << 31),
        0,
        "zero-length block clears busy at start"
    );
}

#[test]
fn test_gamecard_chip_id_command() {
    let mut mmu = NdsMmu::new();
    mmu.rom = vec![0u8; 0x0800_0000]; // 128 MB -> (0x80)-1 = 0x7F in bits 8-14
    mmu.write_byte_arm9(0x0400_01A8, 0xB8);
    mmu.write_word_arm9(0x0400_01A4, 0x8000_0000 | (7 << 24)); // start, 4-byte block
    assert_eq!(mmu.gamecard_read_data(), 0x0000_7FC2, "Macronix ID + 128MB size code");
    assert_eq!(
        mmu.read_word_arm9(0x0400_01A4) & (1 << 31),
        0,
        "busy cleared after the 4-byte chip-ID block"
    );
}

#[test]
fn test_arm9_immediate_dma_copies_and_clears_enable() {
    let mut mmu = NdsMmu::new();
    for i in 0..4u32 {
        mmu.write_word_arm9(0x0200_0000 + i * 4, 0x1000_0000 + i);
    }
    mmu.write_word_arm9(0x0400_00D4, 0x0200_0000); // SAD
    mmu.write_word_arm9(0x0400_00D8, 0x0200_1000); // DAD
    mmu.write_word_arm9(0x0400_00DC, 0x8400_0004); // enable(31)+word(26)+len 4, immediate

    for i in 0..4u32 {
        assert_eq!(
            mmu.read_word_arm9(0x0200_1000 + i * 4),
            0x1000_0000 + i,
            "DMA copied word {i}"
        );
    }
    assert_eq!(
        mmu.read_word_arm9(0x0400_00DC) & 0x8000_0000,
        0,
        "enable bit cleared on completion so the busy-wait exits"
    );
}

#[test]
fn test_arm9_non_immediate_dma_does_not_run_yet() {
    let mut mmu = NdsMmu::new();
    mmu.write_word_arm9(0x0200_0000, 0xDEAD_BEEF);
    mmu.write_word_arm9(0x0400_00D4, 0x0200_0000); // SAD
    mmu.write_word_arm9(0x0400_00D8, 0x0200_1000); // DAD
    mmu.write_word_arm9(0x0400_00DC, 0x8400_0001 | (1 << 27));
    assert_eq!(mmu.read_word_arm9(0x0200_1000), 0, "timed DMA must not copy at enable time");
}

/// Channel 0 reloads both channels and starts channel 1, which starts channel 0
/// again, each inside the other.
#[test]
fn transfers_nest_as_deep_as_they_are_started() {
    const LISTS: u32 = 60;
    const START0: u32 = 0x8400_0006;
    const START1: u32 = 0x8420_0004;
    let mut mmu = NdsMmu::new();
    let list = |k: u32| 0x0200_0000 + k * 24;
    let back = 0x0201_0000;
    for k in 0..LISTS {
        let last = k + 1 == LISTS;
        let words = [
            list(k + 1),
            0x0400_00B0,
            0,
            back,
            0x0400_00C4,
            if last { 0 } else { START1 },
        ];
        for (i, w) in (0u32..).zip(words) {
            mmu.write_word_arm9(list(k) + i * 4, w);
        }
    }
    for (i, w) in (0u32..).zip([0, 0x0400_00C4, back, START0]) {
        mmu.write_word_arm9(back + i * 4, w);
    }
    mmu.write_word_arm9(0x0400_00B0, list(0));
    mmu.write_word_arm9(0x0400_00B4, 0x0400_00B0);
    mmu.write_word_arm9(0x0400_00B8, START0);
    assert_eq!(mmu.dma.arm9.fired[0], 2 * LISTS - 1);
    assert_eq!(mmu.dma.arm9.units[0], u64::from(6 * LISTS + 4 * (LISTS - 1)));
    assert_eq!(mmu.read_word_arm9(0x0400_00B0), list(LISTS), "the last list was reached");
    assert_eq!(mmu.read_word_arm9(0x0400_00B8) >> 31, 0, "nothing is left running");
}
