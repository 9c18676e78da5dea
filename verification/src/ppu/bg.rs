//! Tiled backgrounds.

use vstd::prelude::*;
use crate::bytes;
use crate::mmu::{MmuModel, NdsMmu};
use crate::ppu::obj;

verus! {

/// First register of an engine.
pub open spec fn engine_base(engine_b: bool) -> int {
    if engine_b {
        0x1000
    } else {
        0
    }
}

/// First byte of an engine's background palette.
pub open spec fn bg_pal_base(engine_b: bool) -> int {
    if engine_b {
        0x400
    } else {
        0
    }
}

/// Halfword register of an engine.
pub open spec fn reg16(m: MmuModel, engine_b: bool, off: int) -> u16 {
    bytes::le16(m.io9[engine_base(engine_b) + off], m.io9[engine_base(engine_b) + off + 1])
}

/// Byte of an engine's background memory.
pub open spec fn bg_byte(m: MmuModel, engine_b: bool, off: u32) -> u8 {
    if engine_b {
        m.vram.byte_at(m.vram.bg_b_slot(off))
    } else {
        m.vram.byte_at(m.vram.bg_a_slot(off))
    }
}

/// Width and height of the map by its size field.
pub open spec fn map_width(size: int) -> int {
    if size == 1 || size == 3 {
        512
    } else {
        256
    }
}

pub open spec fn map_height(size: int) -> int {
    if size >= 2 {
        512
    } else {
        256
    }
}

/// Block of 32 by 32 map entries that holds a map position.
pub open spec fn map_block(size: int, xx: int, yy: int) -> int {
    if size == 1 {
        xx / 256
    } else if size == 2 {
        yy / 256
    } else if size == 3 {
        xx / 256 + (yy / 256) * 2
    } else {
        0
    }
}

/// First byte of the tiles. The first engine adds a base of its own from the
/// display control.
pub open spec fn char_base(engine_b: bool, dispcnt: u32, bgcnt: u16) -> int {
    (if engine_b {
        0
    } else {
        (dispcnt as int / 0x100_0000 % 8) * 0x1_0000
    }) + (bgcnt as int / 4 % 16) * 0x4000
}

/// First byte of the map.
pub open spec fn screen_base(engine_b: bool, dispcnt: u32, bgcnt: u16) -> int {
    (if engine_b {
        0
    } else {
        (dispcnt as int / 0x800_0000 % 8) * 0x1_0000
    }) + (bgcnt as int / 0x100 % 32) * 0x800
}

/// Map position that a screen position shows.
pub open spec fn map_x(m: MmuModel, engine_b: bool, bg: int, bgcnt: u16, x: int) -> int {
    (x + reg16(m, engine_b, 0x10 + bg * 4) as int % 512) % map_width(bgcnt as int / 0x4000)
}

pub open spec fn map_y(m: MmuModel, engine_b: bool, bg: int, bgcnt: u16, ly: u16) -> int {
    (ly + reg16(m, engine_b, 0x12 + bg * 4) as int % 512) % map_height(bgcnt as int / 0x4000)
}

/// Map entry at a map position: tile number, flips, palette.
#[verifier::opaque]
pub open spec fn map_entry(
    m: MmuModel,
    engine_b: bool,
    dispcnt: u32,
    bgcnt: u16,
    xx: int,
    yy: int,
) -> u16 {
    let off = screen_base(engine_b, dispcnt, bgcnt) + map_block(bgcnt as int / 0x4000, xx, yy)
        * 0x800 + ((yy / 8 % 32) * 32 + xx / 8 % 32) * 2;
    bytes::le16(bg_byte(m, engine_b, off as u32), bg_byte(m, engine_b, (off + 1) as u32))
}

/// Color of a map position under a map entry; color number 0 is transparent.
#[verifier::opaque]
pub open spec fn tile_color(
    m: MmuModel,
    engine_b: bool,
    dispcnt: u32,
    bgcnt: u16,
    entry: u16,
    xx: int,
    yy: int,
) -> Option<u16> {
    let tile = entry as int % 0x400;
    let px = if entry / 0x400 % 2 == 1 {
        7 - xx % 8
    } else {
        xx % 8
    };
    let py = if entry / 0x800 % 2 == 1 {
        7 - yy % 8
    } else {
        yy % 8
    };
    let wide = bgcnt / 0x80 % 2 == 1;
    let base = char_base(engine_b, dispcnt, bgcnt);
    let ci = if wide {
        bg_byte(m, engine_b, (base + tile * 64 + py * 8 + px) as u32) as int
    } else {
        let b = bg_byte(m, engine_b, (base + tile * 32 + py * 4 + px / 2) as u32);
        if px % 2 == 1 {
            b as int / 16
        } else {
            b as int % 16
        }
    };
    let pi = if wide {
        ci
    } else {
        (entry as int / 0x1000) * 16 + ci
    };
    if ci == 0 {
        None
    } else {
        Some(obj::palette_color(m.ram.palette, bg_pal_base(engine_b) + pi * 2))
    }
}

/// Color that a background shows at a screen position.
#[verifier::opaque]
pub open spec fn bg_color(
    m: MmuModel,
    engine_b: bool,
    bg: int,
    dispcnt: u32,
    bgcnt: u16,
    ly: u16,
    x: int,
) -> Option<u16> {
    let xx = map_x(m, engine_b, bg, bgcnt, x);
    let yy = map_y(m, engine_b, bg, bgcnt, ly);
    tile_color(
        m,
        engine_b,
        dispcnt,
        bgcnt,
        map_entry(m, engine_b, dispcnt, bgcnt, xx, yy),
        xx,
        yy,
    )
}

/// Halfword register of an engine.
pub fn read_reg16(mmu: &NdsMmu, engine_b: bool, off: usize) -> (v: u16)
    requires
        mmu@.wf(),
        off <= 0x100,
    ensures
        v == reg16(mmu@, engine_b, off as int),
{
    let i: usize = if engine_b {
        0x1000 + off
    } else {
        off
    };
    bytes::halfword(mmu.arm9_io[i], mmu.arm9_io[i + 1])
}

fn fetch(mmu: &NdsMmu, engine_b: bool, off: u32) -> (b: u8)
    requires
        mmu@.wf(),
    ensures
        b == bg_byte(mmu@, engine_b, off),
{
    if engine_b {
        mmu.vram.read_bg_b(off)
    } else {
        mmu.vram.read_bg_a(off)
    }
}

fn entry_at(mmu: &NdsMmu, engine_b: bool, dispcnt: u32, bgcnt: u16, xx: u32, yy: u32) -> (e: u16)
    requires
        mmu@.wf(),
        xx < 512,
        yy < 512,
    ensures
        e == map_entry(mmu@, engine_b, dispcnt, bgcnt, xx as int, yy as int),
{
    proof {
        reveal(map_entry);
    }
    let gscreen: u32 = if engine_b {
        0
    } else {
        (dispcnt / 0x800_0000 % 8) * 0x1_0000
    };
    let sbase: u32 = gscreen + (bgcnt as u32 / 0x100 % 32) * 0x800;
    let size: u16 = bgcnt / 0x4000;
    let block: u32 = match size {
        1 => xx / 256,
        2 => yy / 256,
        3 => xx / 256 + (yy / 256) * 2,
        _ => 0,
    };
    let off: u32 = sbase + block * 0x800 + ((yy / 8 % 32) * 32 + xx / 8 % 32) * 2;
    bytes::halfword(fetch(mmu, engine_b, off), fetch(mmu, engine_b, off + 1))
}

fn color_in_tile(
    mmu: &NdsMmu,
    engine_b: bool,
    dispcnt: u32,
    bgcnt: u16,
    entry: u16,
    xx: u32,
    yy: u32,
) -> (c: Option<u16>)
    requires
        mmu@.wf(),
    ensures
        c == tile_color(mmu@, engine_b, dispcnt, bgcnt, entry, xx as int, yy as int),
{
    proof {
        reveal(tile_color);
    }
    let gchar: u32 = if engine_b {
        0
    } else {
        (dispcnt / 0x100_0000 % 8) * 0x1_0000
    };
    let cbase: u32 = gchar + (bgcnt as u32 / 4 % 16) * 0x4000;
    let tile: u32 = entry as u32 % 0x400;
    let px: u32 = if entry / 0x400 % 2 == 1 {
        7 - xx % 8
    } else {
        xx % 8
    };
    let py: u32 = if entry / 0x800 % 2 == 1 {
        7 - yy % 8
    } else {
        yy % 8
    };
    let wide: bool = bgcnt / 0x80 % 2 == 1;
    let ci: usize = if wide {
        fetch(mmu, engine_b, cbase + tile * 64 + py * 8 + px) as usize
    } else {
        let b: u8 = fetch(mmu, engine_b, cbase + tile * 32 + py * 4 + px / 2);
        if px % 2 == 1 {
            (b / 16) as usize
        } else {
            (b % 16) as usize
        }
    };
    if ci == 0 {
        return None;
    }
    let pi: usize = if wide {
        ci
    } else {
        (entry / 0x1000) as usize * 16 + ci
    };
    let base: usize = if engine_b {
        0x400
    } else {
        0
    };
    Some(obj::palette_at(mmu, base + pi * 2))
}

/// Color that a background shows at a screen position.
pub fn text_bg_color(
    mmu: &NdsMmu,
    engine_b: bool,
    bg: usize,
    dispcnt: u32,
    bgcnt: u16,
    ly: u16,
    x: u32,
) -> (c: Option<u16>)
    requires
        mmu@.wf(),
        bg < 4,
        ly < 192,
        x < 256,
    ensures
        c == bg_color(mmu@, engine_b, bg as int, dispcnt, bgcnt, ly, x as int),
{
    proof {
        reveal(bg_color);
    }
    let size: u16 = bgcnt / 0x4000;
    let hofs: u32 = read_reg16(mmu, engine_b, 0x10 + bg * 4) as u32 % 512;
    let vofs: u32 = read_reg16(mmu, engine_b, 0x12 + bg * 4) as u32 % 512;
    let xx: u32 = if size == 1 || size == 3 {
        (x + hofs) % 512
    } else {
        (x + hofs) % 256
    };
    let yy: u32 = if size >= 2 {
        (ly as u32 + vofs) % 512
    } else {
        (ly as u32 + vofs) % 256
    };
    let entry: u16 = entry_at(mmu, engine_b, dispcnt, bgcnt, xx, yy);
    color_in_tile(mmu, engine_b, dispcnt, bgcnt, entry, xx, yy)
}

/// Scrolling by a whole map shows the same picture.
pub proof fn law_map_repeats(m: MmuModel, engine_b: bool, bg: int, bgcnt: u16, x: int)
    ensures
        map_x(m, engine_b, bg, bgcnt, x + map_width(bgcnt as int / 0x4000)) == map_x(
            m,
            engine_b,
            bg,
            bgcnt,
            x,
        ),
{
    let w = map_width(bgcnt as int / 0x4000);
    let h = reg16(m, engine_b, 0x10 + bg * 4) as int % 512;
    if w == 512 {
        assert((x + 512 + h) % 512 == (x + h) % 512);
    } else {
        assert((x + 256 + h) % 256 == (x + h) % 256);
    }
}

} // verus!
