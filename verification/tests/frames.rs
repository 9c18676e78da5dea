use nds_core::backup::{BackupKind, NdsBackup};
use nds_core::gx::{polygon_alpha, viewport_extent};
use nds_core::mmu::NdsMmu;
use nds_core::ppu::NdsPpu;
use nds_core::spi::FirmwareState;
use nds_core::texture::fetch_texel;
use nds_core::vram::VramManager;

#[test]
fn timers_do_not_depend_on_slicing() {
    let run = |slices: &[u32]| {
        let mut mmu = NdsMmu::new();
        mmu.write_halfword_arm9(0x0400_0100, 0xFFF0);
        mmu.write_byte_arm9(0x0400_0102, 0xC1); // every 64 cycles, interrupt
        mmu.write_halfword_arm9(0x0400_0104, 0xFFFD);
        mmu.write_byte_arm9(0x0400_0106, 0xC4); // counts the first one's overflows
        mmu.write_byte_arm9(0x0400_010A, 0x80); // every cycle
        mmu.write_halfword_arm7(0x0400_010C, 0xFF00);
        mmu.write_byte_arm7(0x0400_010E, 0xC3);
        for &s in slices {
            mmu.tick_nds_timers(s);
        }
        (
            (0..4).map(|c| mmu.read_halfword_arm9(0x0400_0100 + 4 * c)).collect::<Vec<_>>(),
            (0..4).map(|c| mmu.read_halfword_arm7(0x0400_0100 + 4 * c)).collect::<Vec<_>>(),
            mmu.irq.arm9_if,
            mmu.irq.arm7_if,
        )
    };
    let whole = run(&[10_000]);
    assert_eq!(whole, run(&[4_000, 6_000]));
    assert_eq!(whole, run(&[63, 1, 9_000, 935, 1]));
    assert_eq!(whole.0, vec![0xFFFC, 0xFFFD, 10_000, 0]);
    assert_eq!(whole.2, 0x18);
}

#[test]
fn a_repeating_texture_has_its_period() {
    let mut vram = VramManager::new();
    vram.banks[0].control = 0x83;
    vram.banks[4].control = 0x83;
    for i in 0..64u8 {
        vram.banks[0].data[i as usize] = i + 1;
        vram.banks[4].data[2 * (i as usize + 1)] = i + 1;
    }
    let plain = 4 << 26 | 3 << 16;
    let mirrored = plain | 3 << 18;
    for x in -20..20 {
        for y in [-9, 0, 5] {
            let at = |tex: u32, x: i32, y: i32| fetch_texel(&vram, tex, 0, x, y);
            assert_eq!(at(plain, x + 8, y), at(plain, x, y));
            assert_eq!(at(plain, x, y + 8), at(plain, x, y));
            assert_eq!(at(mirrored, x + 16, y), at(mirrored, x, y));
            assert_eq!(at(mirrored, x, y + 16), at(mirrored, x, y));
            assert_eq!(at(mirrored, 15 - x, y), at(mirrored, x, y));
            assert_eq!(at(mirrored, x, 15 - y), at(mirrored, x, y));
        }
    }
}

#[test]
fn a_page_write_fills_its_page_and_no_other() {
    for (addr, n) in [(0x1F0u32, 40usize), (0x7FF00, 256), (0x12345, 1), (0x80, 255)] {
        let mut chip = NdsBackup::new(BackupKind::Flash512K);
        assert_eq!(chip.transfer(0x06), 0);
        chip.deselect();
        let data: Vec<u8> = (0..n).map(|i| i as u8 ^ 0xA5).collect();
        for b in [0x0A, (addr >> 16) as u8, (addr >> 8) as u8, addr as u8] {
            assert_eq!(chip.transfer(b), 0);
        }
        for &b in &data {
            assert_eq!(chip.transfer(b), 0);
        }
        let page = (addr - addr % 256) as usize;
        let mut want = vec![0xFFu8; 512 * 1024];
        for (i, &b) in data.iter().enumerate() {
            want[page + (addr as usize + i) % 256] = b;
        }
        assert_eq!(chip.data(), &want[..]);
    }
}

#[test]
fn a_chip_that_is_never_enabled_never_changes() {
    let mut chip = NdsBackup::new(BackupKind::Flash256K);
    let frames: [&[u8]; 6] = [
        &[0x0A, 0, 0, 0, 1, 2, 3],
        &[0x02, 0, 1, 0, 0x06, 0x06],
        &[0xDB, 0, 0, 0],
        &[0xD8, 0, 0, 0],
        &[0x03, 0x06, 0x06, 0x06, 0x06],
        &[0x04],
    ];
    for frame in frames {
        for &b in frame {
            chip.transfer(b);
        }
        chip.deselect();
        chip.transfer(0x05);
        assert_eq!(chip.transfer(0), 0, "neither busy nor enabled");
        chip.deselect();
    }
    assert!(chip.data().iter().all(|&b| b == 0xFF));
    assert!(!chip.is_dirty());
}

#[test]
fn firmware_bytes_read_back_in_a_later_frame() {
    let read = |f: &mut FirmwareState, addr: u32, n: usize| -> Vec<u8> {
        for b in [0x03, (addr >> 16) as u8, (addr >> 8) as u8, addr as u8] {
            f.process_byte(b);
        }
        let out = (0..n).map(|_| f.process_byte(0)).collect();
        f.reset_state();
        out
    };
    let mut f = FirmwareState::new();
    let before = read(&mut f, 0x3FE00, 16);
    for b in [0x0A, 0x03, 0xFF, 0xFE, 1, 2, 3, 4] {
        f.process_byte(b);
    }
    f.reset_state();
    assert_eq!(read(&mut f, 0x3FFFE, 4), vec![1, 2, 3, 4]);
    assert_eq!(read(&mut f, 0, 3), vec![3, 4, 0xFF], "it wrapped to the start");
    assert_eq!(read(&mut f, 0x3FE00, 16), before, "other bytes are as before");
}

#[test]
fn the_screen_bit_exchanges_the_rows() {
    let mut mmu = NdsMmu::new();
    mmu.arm9_io[2] = 1; // the first engine shows graphics, the second is off
    mmu.ram.palette_ram[0] = 0x1F;
    let ppu = NdsPpu::new();
    let render = |mmu: &NdsMmu| {
        let mut video = vec![0x1234u16; 256 * 384];
        ppu.render_scanline(7, mmu, &mut video);
        video
    };
    let off = render(&mmu);
    mmu.arm9_io[0x305] = 0x80;
    let on = render(&mmu);
    let (top, bottom) = (7 * 256, 199 * 256);
    assert_eq!(on[top..top + 256], off[bottom..bottom + 256]);
    assert_eq!(on[bottom..bottom + 256], off[top..top + 256]);
    assert_eq!((on[top], on[bottom]), (0x1F, 0x7FFF));
    assert!(on.iter().enumerate().all(|(i, &p)| i / 256 == 7 || i / 256 == 199 || p == 0x1234));
    let mut video = on.clone();
    ppu.render_scanline(192, &mmu, &mut video);
    assert_eq!(video, on, "past the visible lines nothing changes");
}

#[test]
fn polygon_fields_are_decoded() {
    assert_eq!(polygon_alpha(0), 31);
    assert_eq!(polygon_alpha(0x1_0000), 1);
    assert_eq!(polygon_alpha(0xFFFF_FFFF), 31);
    assert_eq!((viewport_extent(0, 255), viewport_extent(0, 191)), (256, 192));
    assert_eq!((viewport_extent(10, 9), viewport_extent(5, 5)), (256, 1));
}
