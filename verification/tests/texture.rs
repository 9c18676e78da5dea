use nds_core::texture::fetch_texel;
use nds_core::vram::VramManager;

/// Bank A as texture image slot 0 and bank E as the texture palettes.
fn tex_vram() -> VramManager {
    let mut vram = VramManager::new();
    vram.banks[0].control = 0x83;
    vram.banks[4].control = 0x83;
    vram
}

#[test]
fn fetch_texel_decodes_pal16_color0_and_a3i5_alpha() {
    let mut vram = tex_vram();
    vram.banks[4].data[2..4].copy_from_slice(&0x03E0u16.to_le_bytes());
    vram.banks[4].data[4..6].copy_from_slice(&0x7C00u16.to_le_bytes());
    vram.banks[4].data[62..64].copy_from_slice(&0x001Fu16.to_le_bytes());
    vram.banks[0].data[0] = 0x21;
    let pal16 = 3 << 26; // fmt=pal16, size 8x8, offset 0
    assert_eq!(fetch_texel(&vram, pal16, 0, 0, 0), Some((0x03E0, 31)));
    assert_eq!(fetch_texel(&vram, pal16, 0, 1, 0), Some((0x7C00, 31)));
    assert_eq!(fetch_texel(&vram, pal16, 0, 2, 0), Some((0x0000, 31)));
    assert_eq!(fetch_texel(&vram, pal16 | 1 << 29, 0, 2, 0), None);
    vram.banks[0].data[8] = 0x3F; // alpha 1, idx 31
    vram.banks[0].data[9] = 0x1F; // alpha 0, idx 31
    let a3i5 = (1 << 26) | 1; // fmt=A3I5, offset 1*8 bytes
    assert_eq!(fetch_texel(&vram, a3i5, 0, 0, 0), Some((0x001F, 4)));
    assert_eq!(fetch_texel(&vram, a3i5, 0, 1, 0), None);
    assert_eq!(fetch_texel(&vram, pal16 | 1 << 16, 0, 8, 0), Some((0x03E0, 31)));
}

#[test]
fn palette_bases_reach_the_address_limit() {
    let mut vram = tex_vram();
    vram.banks[0].data[0] = 0x21;
    assert_eq!(fetch_texel(&vram, 3 << 26, 0x0FFF_FFFF, 0, 0), Some((0, 31)));
    assert_eq!(fetch_texel(&vram, 0, u32::MAX, 0, 0), None, "no palette is read");
}
