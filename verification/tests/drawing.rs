use nds_core::gx::GxDecoder;
use nds_core::mmu::NdsMmu;
use nds_core::ppu::color::{blend, brighten, darken};
use nds_core::ppu::NdsPpu;
use nds_core::texture::{draw_order, fetch_texel, note_texel};
use nds_core::vram::VramManager;

#[test]
fn opaque_polygons_come_first_and_each_is_drawn_once() {
    let a3i5 = 1 << 26;
    let polys = [(0, 31), (a3i5, 31), (0, 15), (3 << 26, 31), (6 << 26, 31)];
    assert_eq!(draw_order(&polys), vec![0, 3, 1, 2, 4]);
    assert!(draw_order(&[]).is_empty());
}

#[test]
fn texture_coordinates_clamp_repeat_and_mirror() {
    let mut vram = VramManager::new();
    vram.banks[0].control = 0x83;
    vram.banks[4].control = 0x83;
    for i in 0..8u8 {
        vram.banks[0].data[i as usize] = i;
        vram.banks[4].data[2 * i as usize] = i;
    }
    let tex = 4 << 26; // eight by eight texels of 256 colors
    let at = |flags: u32, x: i32| fetch_texel(&vram, tex | flags, 0, x, 0).map(|t| t.0);
    assert_eq!((at(0, 5), at(0, -3), at(0, 12)), (Some(5), Some(0), Some(7)));
    let repeat = 1 << 16;
    assert_eq!((at(repeat, 9), at(repeat, -1)), (Some(1), Some(7)));
    let mirror = repeat | 1 << 18;
    assert_eq!((at(mirror, 8), at(mirror, 15), at(mirror, 16)), (Some(7), Some(0), Some(0)));
    for x in 0..8 {
        assert_eq!(at(mirror, x), at(mirror, 15 - x), "the mirror is symmetric");
    }
}

#[test]
fn texel_counts_are_kept_per_texture_and_palette() {
    let mut stats = Vec::new();
    note_texel(&mut stats, 1, 2, true);
    note_texel(&mut stats, 1, 2, false);
    note_texel(&mut stats, 1, 3, true);
    assert_eq!(stats, vec![(1, 2, 1, 1), (1, 3, 1, 0)]);
    for i in 0..1000 {
        note_texel(&mut stats, i, 9, true);
    }
    let kept = stats.len();
    note_texel(&mut stats, 5000, 9, true);
    assert_eq!(stats.len(), kept, "the list is bounded");
    note_texel(&mut stats, 1, 2, true);
    assert_eq!(stats[0], (1, 2, 2, 1), "known pairs still count");
}

#[test]
fn fades_and_blends_reach_their_ends() {
    let c = 3 | 17 << 5 | 30 << 10;
    assert_eq!((brighten(c, 0), brighten(c, 16)), (c, 0x7FFF));
    assert_eq!((darken(c, 0), darken(c, 16)), (c, 0));
    assert_eq!((blend(c, 0x1234, 16, 0), blend(c, 0x1234, 0, 16)), (c, 0x1234));
    assert_eq!(brighten(0, 8), 15 | 15 << 5 | 15 << 10);
}

#[test]
fn display_timing_does_not_depend_on_slicing_or_rendering() {
    let run = |slice: u32, render: bool| {
        let mut mmu = NdsMmu::new();
        mmu.arm9_io[4] = 0x38;
        mmu.arm9_io[5] = 100;
        let mut ppu = NdsPpu::new();
        let mut video = vec![0u16; 256 * 384];
        let mut left = 2130 * 300;
        while left > 0 {
            let n = slice.min(left);
            ppu.tick(n, &mut mmu, &mut video, render);
            left -= n;
        }
        (ppu, mmu.irq.arm9_if, mmu.arm9_io[4], mmu.arm9_io[6], mmu.arm9_io[7])
    };
    let whole = run(2130 * 300, false);
    assert_eq!(whole, run(64, false));
    assert_eq!(whole, run(977, true));
    assert_eq!(whole.0.frame_count, 1);
    assert_eq!(whole.3, 37, "263 lines make a frame");
}

#[test]
fn banks_serve_one_window_at_a_time() {
    let mut vram = VramManager::new();
    vram.set_control(0, 0x81); // bank A behind the first engine's backgrounds
    vram.write_bg_a(0x100, 0x5A);
    assert_eq!(vram.read_bg_a(0x100), 0x5A);
    assert_eq!(vram.read_bg_b(0x100), 0);
    assert_eq!(vram.read_obj_a(0x100), 0);
    vram.set_control(0, 0x80); // now it answers directly
    assert_eq!(vram.read_lcdc(0x100), 0x5A);
    assert_eq!(vram.read_bg_a(0x100), 0);
    vram.set_control(0, 0x00);
    assert_eq!(vram.read_lcdc(0x100), 0, "a disabled bank serves nothing");
}

#[test]
fn a_bank_of_the_second_processor_reads_back() {
    let mut vram = VramManager::new();
    vram.set_control(2, 0x82);
    vram.set_control(3, 0x8A);
    vram.write_arm7(0x10, 1);
    vram.write_arm7(0x2_0010, 2);
    assert_eq!((vram.read_arm7(0x10), vram.read_arm7(0x2_0010)), (1, 2));
    assert_eq!((vram.banks[2].data[0x10], vram.banks[3].data[0x10]), (1, 2));
}

#[test]
fn a_zero_command_word_does_nothing() {
    let mut gx = GxDecoder::new();
    gx.push_fifo_word(0);
    assert_eq!(gx.total(), 1, "it is counted");
    assert_eq!(gx.histo[0], 1);
    assert!(gx.engine.ops.is_empty());
    assert_eq!(gx.unknown_cmds, 0);
}
