use nds_core::mmu::NdsMmu;
use nds_core::ppu::{vcount_setting, NdsPpu};

#[test]
fn dispstat_vcount_setting_decodes_the_split_field() {
    assert_eq!(vcount_setting(0x6400), 100, "low byte alone");
    assert_eq!(
        vcount_setting(0xC800),
        200,
        "a low byte >= 128 must not spill into bit 8"
    );
    assert_eq!(vcount_setting(0x0080), 256, "DISPSTAT bit 7 is LYC bit 8");
    assert_eq!(vcount_setting(0x0680), 262, "the last scanline of a frame");
    assert_eq!(vcount_setting(0x0000), 0);
    assert_eq!(vcount_setting(0x643F), 100, "bits 0-5 are flags/enables");
}

#[test]
fn obj_sprite_renders_flips_and_clips() {
    let mut mmu = NdsMmu::new();
    mmu.arm9_io[0] = 0x10; // DISPCNT bit4: OBJ 1D mapping
    mmu.arm9_io[1] = 0x11; // bits 8 (BG0 on, harmless) + 12 (OBJ enable)
    mmu.arm9_io[2] = 0x01; // bits 16-17: display mode 1 (graphics)
    mmu.arm9_io[0x305] = 0x80; // POWCNT1 bit15: engine A on top screen
    mmu.vram.banks[5].control = 0x82; // bank F: enabled, MST 2 = OBJ-A, OFS 0
    let f = &mut mmu.vram.banks[5].data;
    f[32] = 0x01; // px0 lo-nibble=1, px1 hi-nibble=0
    f[35] = 0x20; // px6 lo-nibble=0, px7 hi-nibble=2
    for b in 36..64 {
        f[b] = 0x33;
    }
    for (idx, col) in [(1usize, 0x001Fu16), (2, 0x03E0), (3, 0x7C00)] {
        mmu.ram.palette_ram[0x200 + idx * 2..0x200 + idx * 2 + 2]
            .copy_from_slice(&col.to_le_bytes());
    }
    let x = (-4i32 & 0x1FF) as u16;
    mmu.ram.oam[0..2].copy_from_slice(&20u16.to_le_bytes());
    mmu.ram.oam[2..4].copy_from_slice(&x.to_le_bytes());
    mmu.ram.oam[4..6].copy_from_slice(&1u16.to_le_bytes());

    let ppu = NdsPpu::new();
    let mut fb = vec![0u16; 256 * 384];
    ppu.render_scanline(20, &mmu, &mut fb); // sprite row 0
    let top = |x: usize| fb[20 * 256 + x];
    assert_eq!(top(3), 0x03E0, "px7 (color 2) lands at x=-4+7=3");
    assert_eq!(top(0), 0, "px4 is color 0 = transparent -> backdrop");
    ppu.render_scanline(21, &mmu, &mut fb); // sprite row 1: solid color 3
    assert_eq!(fb[21 * 256 + 0], 0x7C00);
    assert_eq!(fb[21 * 256 + 3], 0x7C00);
    assert_eq!(fb[21 * 256 + 4], 0, "x=4 is past the visible tail");

    mmu.ram.oam[2..4].copy_from_slice(&(x | 0x1000).to_le_bytes());
    ppu.render_scanline(20, &mmu, &mut fb);
    assert_eq!(fb[20 * 256 + 3], 0x001F, "flipped px0 at x=3");

    mmu.ram.oam[0..2].copy_from_slice(&(20u16 | 0x200).to_le_bytes());
    ppu.render_scanline(21, &mmu, &mut fb);
    assert_eq!(fb[21 * 256 + 0], 0, "disabled sprite renders nothing");
}

#[test]
fn affine_obj_identity_and_double_size() {
    let mut mmu = NdsMmu::new();
    mmu.arm9_io[0] = 0x10; // OBJ 1D mapping
    mmu.arm9_io[1] = 0x11; // OBJ enable
    mmu.arm9_io[2] = 0x01; // display mode 1
    mmu.arm9_io[0x305] = 0x80; // engine A on top
    mmu.vram.banks[5].control = 0x82; // bank F = OBJ-A
    for b in 36..64 {
        mmu.vram.banks[5].data[b] = 0x33;
    }
    mmu.ram.palette_ram[0x200 + 6..0x200 + 8].copy_from_slice(&0x7C00u16.to_le_bytes());
    mmu.ram.oam[0..2].copy_from_slice(&(20u16 | 0x100).to_le_bytes());
    mmu.ram.oam[2..4].copy_from_slice(&100u16.to_le_bytes());
    mmu.ram.oam[4..6].copy_from_slice(&1u16.to_le_bytes());
    mmu.ram.oam[6..8].copy_from_slice(&0x0100u16.to_le_bytes());
    mmu.ram.oam[30..32].copy_from_slice(&0x0100u16.to_le_bytes());

    let ppu = NdsPpu::new();
    let mut fb = vec![0u16; 256 * 384];
    ppu.render_scanline(21, &mmu, &mut fb); // sprite row 1: solid
    assert_eq!(fb[21 * 256 + 100], 0x7C00, "identity affine == regular");
    assert_eq!(fb[21 * 256 + 107], 0x7C00);
    assert_eq!(fb[21 * 256 + 108], 0, "past the 8px window");

    mmu.ram.oam[0..2].copy_from_slice(&(20u16 | 0x300).to_le_bytes());
    ppu.render_scanline(29, &mmu, &mut fb); // dy=1 -> ty=5 (solid row)
    assert_eq!(fb[29 * 256 + 104], 0x7C00, "centered texel area");
    assert_eq!(fb[29 * 256 + 111], 0x7C00);
    assert_eq!(fb[29 * 256 + 102], 0, "window padding is transparent");
    assert_eq!(fb[29 * 256 + 112], 0, "right padding transparent");
}

#[test]
fn obj_overlap_resolves_by_priority_then_index() {
    let mut mmu = NdsMmu::new();
    mmu.arm9_io[0] = 0x10;
    mmu.arm9_io[1] = 0x11;
    mmu.arm9_io[2] = 0x01;
    mmu.arm9_io[0x305] = 0x80;
    mmu.vram.banks[5].control = 0x82;
    let f = &mut mmu.vram.banks[5].data;
    f[32..64].iter_mut().for_each(|b| *b = 0x11); // tile 1: color 1
    f[64..96].iter_mut().for_each(|b| *b = 0x22); // tile 2: color 2
    mmu.ram.palette_ram[0x202..0x204].copy_from_slice(&0x001Fu16.to_le_bytes());
    mmu.ram.palette_ram[0x204..0x206].copy_from_slice(&0x03E0u16.to_le_bytes());
    for (i, tile, prio) in [(0usize, 1u16, 1u16), (1, 2, 0)] {
        mmu.ram.oam[i * 8..i * 8 + 2].copy_from_slice(&20u16.to_le_bytes());
        mmu.ram.oam[i * 8 + 2..i * 8 + 4].copy_from_slice(&50u16.to_le_bytes());
        mmu.ram.oam[i * 8 + 4..i * 8 + 6].copy_from_slice(&(tile | (prio << 10)).to_le_bytes());
    }
    let ppu = NdsPpu::new();
    let mut fb = vec![0u16; 256 * 384];
    ppu.render_scanline(20, &mmu, &mut fb);
    assert_eq!(fb[20 * 256 + 50], 0x03E0, "prio 0 beats lower index at prio 1");
    mmu.ram.oam[12..14].copy_from_slice(&(2u16 | (1 << 10)).to_le_bytes());
    ppu.render_scanline(20, &mmu, &mut fb);
    assert_eq!(fb[20 * 256 + 50], 0x001F, "equal prio -> lower index wins");
}

#[test]
fn win0_masks_layers_outside_rectangle() {
    let mut mmu = NdsMmu::new();
    mmu.arm9_io[0] = 0x10;
    mmu.arm9_io[1] = 0x31; // OBJ enable + WIN0 enable (DISPCNT bit 13)
    mmu.arm9_io[2] = 0x01;
    mmu.arm9_io[0x305] = 0x80;
    mmu.vram.banks[5].control = 0x82;
    for b in 36..64 {
        mmu.vram.banks[5].data[b] = 0x33; // tile 1 rows 1+: color 3
    }
    mmu.ram.palette_ram[0x200 + 6..0x200 + 8].copy_from_slice(&0x7C00u16.to_le_bytes());
    mmu.ram.oam[0..2].copy_from_slice(&20u16.to_le_bytes());
    mmu.ram.oam[2..4].copy_from_slice(&0u16.to_le_bytes());
    mmu.ram.oam[4..6].copy_from_slice(&1u16.to_le_bytes());
    mmu.arm9_io[0x40] = 6; // X2
    mmu.arm9_io[0x41] = 2; // X1
    mmu.arm9_io[0x44] = 192; // Y2
    mmu.arm9_io[0x45] = 0; // Y1
    mmu.arm9_io[0x48] = 0x10;
    mmu.arm9_io[0x4A] = 0x00;

    let ppu = NdsPpu::new();
    let mut fb = vec![0u16; 256 * 384];
    ppu.render_scanline(21, &mmu, &mut fb);
    assert_eq!(fb[21 * 256 + 1], 0, "outside WIN0: OBJ masked by WINOUT");
    assert_eq!(fb[21 * 256 + 2], 0x7C00, "inside WIN0: OBJ passes");
    assert_eq!(fb[21 * 256 + 5], 0x7C00, "inside WIN0 right edge");
    assert_eq!(fb[21 * 256 + 6], 0, "X2 is exclusive");
}

#[test]
fn master_bright_fades_and_alpha_blend_math() {
    let mut mmu = NdsMmu::new();
    mmu.arm9_io[0x305] = 0x80; // engine A on the top screen
    let ppu = NdsPpu::new();
    let mut fb = vec![0u16; 256 * 384];
    mmu.arm9_io[0x6C] = 0x10;
    mmu.arm9_io[0x6D] = 0x80; // mode 2 (toward black), factor 16
    ppu.render_scanline(0, &mmu, &mut fb);
    assert_eq!(fb[0], 0, "factor-16 fade-down = black");
    mmu.arm9_io[0x6D] = 0x40;
    ppu.render_scanline(0, &mmu, &mut fb);
    assert_eq!(fb[0], 0x7FFF);
    mmu.arm9_io[0x6C] = 0x08;
    mmu.arm9_io[0x6D] = 0x80;
    ppu.render_scanline(0, &mmu, &mut fb);
    assert_eq!(fb[0], 16 | (16 << 5) | (16 << 10));
    assert_eq!(NdsPpu::alpha_blend(0x7FFF, 0, 0, 16), 0);
    assert_eq!(NdsPpu::alpha_blend(0x7FFF, 0x1234, 16, 0), 0x7FFF);
    assert_eq!(
        NdsPpu::alpha_blend(0x7FFF, 0, 8, 8),
        15 | (15 << 5) | (15 << 10)
    );
    assert_eq!(NdsPpu::alpha_blend(0x7FFF, 0x7FFF, 16, 16), 0x7FFF);
}

#[test]
fn bldcnt_alpha_blends_obj_over_backdrop() {
    let mut mmu = NdsMmu::new();
    mmu.arm9_io[0] = 0x10; // DISPCNT bit4: OBJ 1D mapping
    mmu.arm9_io[1] = 0x11; // BG0 on + OBJ enable
    mmu.arm9_io[2] = 0x01; // display mode 1 (graphics)
    mmu.arm9_io[0x305] = 0x80; // engine A on top
    mmu.vram.banks[5].control = 0x82; // bank F: MST 2 = OBJ-A
    for b in 32..64 {
        mmu.vram.banks[5].data[b] = 0x11;
    }
    let red: u16 = 0x001F;
    let green: u16 = 0x03E0;
    mmu.ram.palette_ram[0x202] = (red & 0xFF) as u8;
    mmu.ram.palette_ram[0x203] = (red >> 8) as u8;
    mmu.ram.palette_ram[0] = (green & 0xFF) as u8;
    mmu.ram.palette_ram[1] = (green >> 8) as u8;
    mmu.ram.oam[0] = 20; // y
    mmu.ram.oam[2] = 10; // x
    mmu.ram.oam[4] = 1; // tile
    let ppu = NdsPpu::new();
    let mut fb = vec![0u16; 256 * 384];
    ppu.render_scanline(20, &mmu, &mut fb);
    assert_eq!(fb[20 * 256 + 10], red, "no blend: sprite is opaque red");
    mmu.arm9_io[0x50] = 0x50; // bits 4 (OBJ first) + 6 (effect 1)
    mmu.arm9_io[0x51] = 0x20; // bit 13 -> second target backdrop
    mmu.arm9_io[0x52] = 0x00; // EVA 0
    mmu.arm9_io[0x53] = 0x10; // EVB 16
    ppu.render_scanline(20, &mmu, &mut fb);
    assert_eq!(fb[20 * 256 + 10], green, "EVA=0/EVB=16 shows the layer beneath");
    assert_eq!(fb[20 * 256 + 0], green, "backdrop itself (not first target) untouched");
}

#[test]
fn bg0_3d_presents_rasterizer_output() {
    let mut mmu = NdsMmu::new();
    mmu.arm9_io[0] = 0x08; // DISPCNT bit3: BG0 is the 3D output
    mmu.arm9_io[1] = 0x01; // BG0 enable
    mmu.arm9_io[2] = 0x01; // display mode 1 (graphics)
    mmu.arm9_io[0x305] = 0x80; // engine A on top
    mmu.gx.engine.fb[7 * 256 + 5] = 0x8000 | 0x001F;
    let ppu = NdsPpu::new();
    let mut fb = vec![0u16; 256 * 384];
    ppu.render_scanline(7, &mmu, &mut fb);
    assert_eq!(fb[7 * 256 + 5], 0x001F, "opaque 3D pixel presented");
    assert_eq!(fb[7 * 256 + 6], 0, "transparent 3D pixel shows backdrop");
}

