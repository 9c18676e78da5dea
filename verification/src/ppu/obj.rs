//! Sprites of one scan line.

use vstd::prelude::*;
use crate::bytes;
use crate::mmu::memory::Spot;
use crate::mmu::{MmuModel, NdsMmu};

verus! {

/// A sprite that meets a scan line, decoded from its attributes.
#[derive(Clone, Copy, Debug, PartialEq, Eq, Structural)]
pub struct Sprite {
    /// Left edge.
    pub x0: i32,
    /// Line within the sprite's area.
    pub row: u32,
    /// Size in texels.
    pub w: u32,
    pub h: u32,
    /// Size of the area it is drawn in.
    pub aw: u32,
    pub ah: u32,
    /// Whether texels are found through the matrix, which is in 1/256.
    pub rotscale: bool,
    pub pa: i32,
    pub pb: i32,
    pub pc: i32,
    pub pd: i32,
    pub hflip: bool,
    pub vflip: bool,
    pub color256: bool,
    pub tile: u32,
    pub prio: u8,
    pub pal16: u32,
}

/// Halfword of a byte sequence.
pub open spec fn half_at(s: Seq<u8>, i: int) -> u16 {
    bytes::le16(s[i], s[i + 1])
}

/// Two's-complement value of a halfword.
pub open spec fn signed_half(h: u16) -> i32 {
    (if h >= 0x8000 {
        h - 0x1_0000
    } else {
        h as int
    }) as i32
}

/// Size by shape and size fields: square, wide, tall; the fourth shape does not
/// exist.
pub open spec fn obj_size(shape: int, size: int) -> Option<(u32, u32)> {
    if shape == 0 {
        Some(
            if size == 0 {
                (8u32, 8u32)
            } else if size == 1 {
                (16, 16)
            } else if size == 2 {
                (32, 32)
            } else {
                (64, 64)
            },
        )
    } else if shape == 1 {
        Some(
            if size == 0 {
                (16u32, 8u32)
            } else if size == 1 {
                (32, 8)
            } else if size == 2 {
                (32, 16)
            } else {
                (64, 32)
            },
        )
    } else if shape == 2 {
        Some(
            if size == 0 {
                (8u32, 16u32)
            } else if size == 1 {
                (8, 32)
            } else if size == 2 {
                (16, 32)
            } else {
                (32, 64)
            },
        )
    } else {
        None
    }
}

/// First attribute byte and first palette byte of an engine's sprites.
pub open spec fn oam_base(engine_b: bool) -> int {
    if engine_b {
        0x400
    } else {
        0
    }
}

pub open spec fn obj_pal_base(engine_b: bool) -> int {
    if engine_b {
        0x600
    } else {
        0x200
    }
}

/// Palette entry at a byte offset.
pub open spec fn palette_color(pal: Seq<u8>, i: int) -> u16 {
    half_at(pal, i) % 0x8000
}

/// Sprite `i` of an engine if it meets a line: not disabled, of a kind that is
/// drawn, of an existing shape, and covering the line.
pub open spec fn sprite_on(oam: Seq<u8>, base: int, i: int, ly: u16) -> Option<Sprite> {
    let at = base + i * 8;
    let a0 = half_at(oam, at);
    let a1 = half_at(oam, at + 2);
    let a2 = half_at(oam, at + 4);
    let rotscale = a0 / 0x100 % 2 == 1;
    let bit9 = a0 / 0x200 % 2 == 1;
    match obj_size(a0 as int / 0x4000, a1 as int / 0x4000) {
        None => None,
        Some(wh) => {
            let double = rotscale && bit9;
            let aw = if double {
                (wh.0 * 2) as u32
            } else {
                wh.0
            };
            let ah = if double {
                (wh.1 * 2) as u32
            } else {
                wh.1
            };
            let row = ((ly as int % 256 + 256 - a0 as int % 256) % 256) as u32;
            if (!rotscale && bit9) || a0 / 0x400 % 4 >= 2 || row >= ah {
                None
            } else {
                let g = base + (a1 as int / 0x200 % 32) * 32;
                Some(
                    Sprite {
                        x0: if a1 % 0x200 >= 256 {
                            (a1 % 0x200 - 512) as i32
                        } else {
                            (a1 % 0x200) as i32
                        },
                        row,
                        w: wh.0,
                        h: wh.1,
                        aw,
                        ah,
                        rotscale,
                        pa: if rotscale {
                            signed_half(half_at(oam, g + 6))
                        } else {
                            0x100
                        },
                        pb: if rotscale {
                            signed_half(half_at(oam, g + 14))
                        } else {
                            0
                        },
                        pc: if rotscale {
                            signed_half(half_at(oam, g + 22))
                        } else {
                            0
                        },
                        pd: if rotscale {
                            signed_half(half_at(oam, g + 30))
                        } else {
                            0x100
                        },
                        hflip: !rotscale && a1 / 0x1000 % 2 == 1,
                        vflip: !rotscale && a1 / 0x2000 % 2 == 1,
                        color256: a0 / 0x2000 % 2 == 1,
                        tile: (a2 % 0x400) as u32,
                        prio: (a2 / 0x400 % 4) as u8,
                        pal16: (a2 / 0x1000) as u32,
                    },
                )
            }
        },
    }
}

impl Sprite {
    /// Ranges that decoding keeps.
    pub open spec fn wf(self) -> bool {
        &&& -256 <= self.x0 < 256
        &&& self.w == 8 || self.w == 16 || self.w == 32 || self.w == 64
        &&& self.h == 8 || self.h == 16 || self.h == 32 || self.h == 64
        &&& self.aw == self.w || (self.rotscale && self.aw == 2 * self.w)
        &&& self.ah == self.h || (self.rotscale && self.ah == 2 * self.h)
        &&& self.row < self.ah
        &&& -0x8000 <= self.pa < 0x8000
        &&& -0x8000 <= self.pb < 0x8000
        &&& -0x8000 <= self.pc < 0x8000
        &&& -0x8000 <= self.pd < 0x8000
        &&& self.tile < 0x400
        &&& self.prio < 4
        &&& self.pal16 < 16
    }

    /// Texel shown at screen column `x`.
    pub open spec fn texel(self, x: int) -> Option<(u32, u32)> {
        let sx = x - self.x0;
        if !(0 <= sx < self.aw) {
            None
        } else if self.rotscale {
            let dx = sx - self.aw as int / 2;
            let dy = self.row - self.ah as int / 2;
            let tx = (self.pa * dx + self.pb * dy) / 256 + self.w as int / 2;
            let ty = (self.pc * dx + self.pd * dy) / 256 + self.h as int / 2;
            if 0 <= tx < self.w && 0 <= ty < self.h {
                Some((tx as u32, ty as u32))
            } else {
                None
            }
        } else {
            Some(
                (
                    if self.hflip {
                        (self.w - 1 - sx) as u32
                    } else {
                        sx as u32
                    },
                    if self.vflip {
                        (self.h - 1 - self.row) as u32
                    } else {
                        self.row
                    },
                ),
            )
        }
    }

    /// Offset in sprite memory of a texel. In one-dimensional mapping the tile
    /// number counts in units that the display control selects; in two
    /// dimensions a row of tiles is 32 tile slots long.
    pub open spec fn offset(self, dispcnt: u32, px: u32, py: u32) -> u32 {
        let tx = px as int / 8;
        let ty = py as int / 8;
        let ix = px as int % 8;
        let iy = py as int % 8;
        let flat = dispcnt / 0x10 % 2 == 1;
        let unit = tile_unit(dispcnt as int / 0x10_0000 % 4);
        if self.color256 {
            let t = if flat {
                self.tile * unit + (ty * (self.w as int / 8) + tx) * 64
            } else {
                (self.tile + ty * 32 + tx * 2) * 32
            };
            (t + iy * 8 + ix) as u32
        } else {
            let t = if flat {
                self.tile * unit + (ty * (self.w as int / 8) + tx) * 32
            } else {
                (self.tile + ty * 32 + tx) * 32
            };
            (t + iy * 4 + ix / 2) as u32
        }
    }
}

/// Bytes per tile number in one-dimensional mapping.
pub open spec fn tile_unit(boundary: int) -> int {
    if boundary == 0 {
        32
    } else if boundary == 1 {
        64
    } else if boundary == 2 {
        128
    } else {
        256
    }
}

/// Byte of an engine's sprite memory.
pub open spec fn obj_byte(m: MmuModel, engine_b: bool, off: u32) -> u8 {
    if engine_b {
        m.vram.byte_at(m.vram.obj_b_slot(off))
    } else {
        m.vram.byte_at(m.vram.obj_a_slot(off))
    }
}

/// Color that a sprite shows at column `x`; color number 0 is transparent.
pub open spec fn sprite_color(
    m: MmuModel,
    engine_b: bool,
    dispcnt: u32,
    sp: Sprite,
    x: int,
) -> Option<u16> {
    match sp.texel(x) {
        None => None,
        Some(p) => {
            let raw = obj_byte(m, engine_b, sp.offset(dispcnt, p.0, p.1));
            let ci = if sp.color256 {
                raw as int
            } else if p.0 % 2 == 1 {
                raw as int / 16
            } else {
                raw as int % 16
            };
            let pi = if sp.color256 {
                ci
            } else {
                sp.pal16 * 16 + ci
            };
            if ci == 0 {
                None
            } else {
                Some(palette_color(m.ram.palette, obj_pal_base(engine_b) + pi * 2))
            }
        },
    }
}

/// Color and priority at column `x` after the first `n` sprites; priority 0xFF
/// where there is none. A sprite takes the pixel from one of a larger priority
/// number; of equals the earlier keeps it.
#[verifier::opaque]
pub open spec fn obj_pixel(
    m: MmuModel,
    engine_b: bool,
    dispcnt: u32,
    ly: u16,
    n: int,
    x: int,
) -> (u16, u8)
    decreases n,
{
    if n <= 0 {
        (0u16, 0xFFu8)
    } else {
        let p = obj_pixel(m, engine_b, dispcnt, ly, n - 1, x);
        match sprite_on(m.ram.oam, oam_base(engine_b), n - 1, ly) {
            None => p,
            Some(sp) => if sp.prio >= p.1 {
                p
            } else {
                match sprite_color(m, engine_b, dispcnt, sp, x) {
                    None => p,
                    Some(c) => (c, sp.prio),
                }
            },
        }
    }
}

fn oam_half(mmu: &NdsMmu, i: usize) -> (h: u16)
    requires
        mmu@.wf(),
        i < 2047,
    ensures
        h == half_at(mmu@.ram.oam, i as int),
{
    bytes::halfword(mmu.ram.get(Spot::Oam(i)), mmu.ram.get(Spot::Oam(i + 1)))
}

fn to_signed(h: u16) -> (v: i32)
    ensures
        v == signed_half(h),
        -0x8000 <= v < 0x8000,
{
    if h >= 0x8000 {
        h as i32 - 0x1_0000
    } else {
        h as i32
    }
}

/// Palette entry at a byte offset.
pub fn palette_at(mmu: &NdsMmu, i: usize) -> (c: u16)
    requires
        mmu@.wf(),
        i < 4095,
    ensures
        c == palette_color(mmu@.ram.palette, i as int),
{
    bytes::halfword(mmu.ram.get(Spot::Palette(i)), mmu.ram.get(Spot::Palette(i + 1))) % 0x8000
}

fn size_of(shape: u16, size: u16) -> (r: Option<(u32, u32)>)
    requires
        shape < 4,
        size < 4,
    ensures
        r == obj_size(shape as int, size as int),
{
    match (shape, size) {
        (0, 0) => Some((8, 8)),
        (0, 1) => Some((16, 16)),
        (0, 2) => Some((32, 32)),
        (0, _) => Some((64, 64)),
        (1, 0) => Some((16, 8)),
        (1, 1) => Some((32, 8)),
        (1, 2) => Some((32, 16)),
        (1, _) => Some((64, 32)),
        (2, 0) => Some((8, 16)),
        (2, 1) => Some((8, 32)),
        (2, 2) => Some((16, 32)),
        (2, _) => Some((32, 64)),
        _ => None,
    }
}

fn decode_sprite(mmu: &NdsMmu, engine_b: bool, i: usize, ly: u16) -> (r: Option<Sprite>)
    requires
        mmu@.wf(),
        i < 128,
    ensures
        r == sprite_on(mmu@.ram.oam, oam_base(engine_b), i as int, ly),
        r is Some ==> r->0.wf(),
{
    let base: usize = if engine_b {
        0x400
    } else {
        0
    };
    let at: usize = base + i * 8;
    let a0: u16 = oam_half(mmu, at);
    let a1: u16 = oam_half(mmu, at + 2);
    let a2: u16 = oam_half(mmu, at + 4);
    let rotscale: bool = a0 / 0x100 % 2 == 1;
    let bit9: bool = a0 / 0x200 % 2 == 1;
    let (w, h): (u32, u32) = match size_of(a0 / 0x4000, a1 / 0x4000) {
        Some(wh) => wh,
        None => {
            return None;
        },
    };
    let double: bool = rotscale && bit9;
    let aw: u32 = if double {
        w * 2
    } else {
        w
    };
    let ah: u32 = if double {
        h * 2
    } else {
        h
    };
    let row: u32 = (ly as u32 % 256 + 256 - a0 as u32 % 256) % 256;
    if (!rotscale && bit9) || a0 / 0x400 % 4 >= 2 || row >= ah {
        return None;
    }
    let xs: i32 = (a1 % 0x200) as i32;
    let g: usize = base + (a1 / 0x200 % 32) as usize * 32;
    let (pa, pb, pc, pd): (i32, i32, i32, i32) = if rotscale {
        (
            to_signed(oam_half(mmu, g + 6)),
            to_signed(oam_half(mmu, g + 14)),
            to_signed(oam_half(mmu, g + 22)),
            to_signed(oam_half(mmu, g + 30)),
        )
    } else {
        (0x100, 0, 0, 0x100)
    };
    Some(
        Sprite {
            x0: if xs >= 256 {
                xs - 512
            } else {
                xs
            },
            row,
            w,
            h,
            aw,
            ah,
            rotscale,
            pa,
            pb,
            pc,
            pd,
            hflip: !rotscale && a1 / 0x1000 % 2 == 1,
            vflip: !rotscale && a1 / 0x2000 % 2 == 1,
            color256: a0 / 0x2000 % 2 == 1,
            tile: (a2 % 0x400) as u32,
            prio: (a2 / 0x400 % 4) as u8,
            pal16: (a2 / 0x1000) as u32,
        },
    )
}

/// Quotient by 256, rounded down.
fn floor256(v: i32) -> (q: i32)
    requires
        -0x1000_0000 <= v <= 0x1000_0000,
    ensures
        q == v as int / 256,
{
    if v >= 0 {
        v / 256
    } else {
        -((255 - v) / 256)
    }
}

proof fn lemma_product_bound(p: int, d: int)
    requires
        -0x8000 <= p < 0x8000,
        -64 <= d < 64,
    ensures
        -0x20_0000 <= p * d <= 0x20_0000,
{
    assert(-0x20_0000 <= p * d <= 0x20_0000) by (nonlinear_arith)
        requires
            -0x8000 <= p < 0x8000,
            -64 <= d < 64,
    ;
}

fn sprite_texel(sp: Sprite, x: u32) -> (r: Option<(u32, u32)>)
    requires
        sp.wf(),
        x < 256,
    ensures
        r == sp.texel(x as int),
        r is Some ==> (r->0).0 < sp.w && (r->0).1 < sp.h,
{
    let sx: i32 = x as i32 - sp.x0;
    if sx < 0 || sx >= sp.aw as i32 {
        return None;
    }
    if sp.rotscale {
        let dx: i32 = sx - (sp.aw / 2) as i32;
        let dy: i32 = sp.row as i32 - (sp.ah / 2) as i32;
        proof {
            lemma_product_bound(sp.pa as int, dx as int);
            lemma_product_bound(sp.pb as int, dy as int);
            lemma_product_bound(sp.pc as int, dx as int);
            lemma_product_bound(sp.pd as int, dy as int);
        }
        let tx: i32 = floor256(sp.pa * dx + sp.pb * dy) + (sp.w / 2) as i32;
        let ty: i32 = floor256(sp.pc * dx + sp.pd * dy) + (sp.h / 2) as i32;
        if tx >= 0 && tx < sp.w as i32 && ty >= 0 && ty < sp.h as i32 {
            Some((tx as u32, ty as u32))
        } else {
            None
        }
    } else {
        let px: u32 = if sp.hflip {
            sp.w - 1 - sx as u32
        } else {
            sx as u32
        };
        let py: u32 = if sp.vflip {
            sp.h - 1 - sp.row
        } else {
            sp.row
        };
        Some((px, py))
    }
}

proof fn lemma_offset_bound(sp: Sprite, dispcnt: u32, px: u32, py: u32)
    requires
        sp.wf(),
        px < sp.w,
        py < sp.h,
    ensures
        0 <= (py as int / 8) * (sp.w as int / 8) <= 56,
        0 <= sp.tile * tile_unit(dispcnt as int / 0x10_0000 % 4) <= 0x3FF00,
{
    let ty = py as int / 8;
    let tw = sp.w as int / 8;
    assert(0 <= ty * tw <= 56) by (nonlinear_arith)
        requires
            0 <= ty <= 7,
            1 <= tw <= 8,
    ;
}

fn texel_offset(sp: Sprite, dispcnt: u32, px: u32, py: u32) -> (off: u32)
    requires
        sp.wf(),
        px < sp.w,
        py < sp.h,
    ensures
        off == sp.offset(dispcnt, px, py),
{
    proof {
        lemma_offset_bound(sp, dispcnt, px, py);
    }
    let tx: u32 = px / 8;
    let ty: u32 = py / 8;
    let flat: bool = dispcnt / 0x10 % 2 == 1;
    let boundary: u32 = dispcnt / 0x10_0000 % 4;
    let unit: u32 = match boundary {
        0 => 32,
        1 => 64,
        2 => 128,
        _ => 256,
    };
    if sp.color256 {
        let t: u32 = if flat {
            sp.tile * unit + (ty * (sp.w / 8) + tx) * 64
        } else {
            (sp.tile + ty * 32 + tx * 2) * 32
        };
        t + (py % 8) * 8 + px % 8
    } else {
        let t: u32 = if flat {
            sp.tile * unit + (ty * (sp.w / 8) + tx) * 32
        } else {
            (sp.tile + ty * 32 + tx) * 32
        };
        t + (py % 8) * 4 + (px % 8) / 2
    }
}

#[verifier::rlimit(40)]
#[verifier::spinoff_prover]
fn color_of(mmu: &NdsMmu, engine_b: bool, dispcnt: u32, sp: Sprite, x: u32) -> (c: Option<u16>)
    requires
        mmu@.wf(),
        sp.wf(),
        x < 256,
    ensures
        c == sprite_color(mmu@, engine_b, dispcnt, sp, x as int),
{
    let (px, py): (u32, u32) = match sprite_texel(sp, x) {
        Some(p) => p,
        None => {
            return None;
        },
    };
    let off: u32 = texel_offset(sp, dispcnt, px, py);
    let raw: u8 = if engine_b {
        mmu.vram.read_obj_b(off)
    } else {
        mmu.vram.read_obj_a(off)
    };
    let ci: usize = if sp.color256 {
        raw as usize
    } else if px % 2 == 1 {
        (raw / 16) as usize
    } else {
        (raw % 16) as usize
    };
    if ci == 0 {
        return None;
    }
    let pi: usize = if sp.color256 {
        ci
    } else {
        sp.pal16 as usize * 16 + ci
    };
    let base: usize = if engine_b {
        0x600
    } else {
        0x200
    };
    Some(palette_at(mmu, base + pi * 2))
}

/// Colors and priorities of the sprite pixels of one line.
pub fn draw_objs(mmu: &NdsMmu, engine_b: bool, ly: u16, dispcnt: u32) -> (r: (
    [u16; 256],
    [u8; 256],
))
    requires
        mmu@.wf(),
    ensures
        forall|x: int|
            0 <= x < 256 ==> (#[trigger] r.0@[x], r.1@[x]) == obj_pixel(
                mmu@,
                engine_b,
                dispcnt,
                ly,
                128,
                x,
            ),
{
    let mut color: [u16; 256] = [0u16; 256];
    let mut prio: [u8; 256] = [0xFFu8; 256];
    proof {
        reveal(obj_pixel);
    }
    let mut i: usize = 0;
    while i < 128
        invariant
            0 <= i <= 128,
            mmu@.wf(),
            forall|x: int|
                0 <= x < 256 ==> (#[trigger] color@[x], prio@[x]) == obj_pixel(
                    mmu@,
                    engine_b,
                    dispcnt,
                    ly,
                    i as int,
                    x,
                ),
        decreases 128 - i,
    {
        match decode_sprite(mmu, engine_b, i, ly) {
            Some(sp) => {
                let mut x: usize = 0;
                while x < 256
                    invariant
                        0 <= x <= 256,
                        0 <= i < 128,
                        mmu@.wf(),
                        sp.wf(),
                        Some(sp) == sprite_on(
                            mmu@.ram.oam,
                            oam_base(engine_b),
                            i as int,
                            ly,
                        ),
                        forall|k: int|
                            0 <= k < 256 ==> (#[trigger] color@[k], prio@[k]) == obj_pixel(
                                mmu@,
                                engine_b,
                                dispcnt,
                                ly,
                                if k < x {
                                    i + 1
                                } else {
                                    i as int
                                },
                                k,
                            ),
                    decreases 256 - x,
                {
                    proof {
                        reveal_with_fuel(obj_pixel, 2);
                    }
                    if sp.prio < prio[x] {
                        match color_of(mmu, engine_b, dispcnt, sp, x as u32) {
                            Some(c) => {
                                color[x] = c;
                                prio[x] = sp.prio;
                            },
                            None => {},
                        }
                    }
                    x = x + 1;
                }
            },
            None => {
                assert forall|x: int| 0 <= x < 256 implies (#[trigger] color@[x], prio@[x])
                    == obj_pixel(mmu@, engine_b, dispcnt, ly, i + 1, x) by {
                    reveal_with_fuel(obj_pixel, 2);
                }
            },
        }
        i = i + 1;
    }
    (color, prio)
}

/// Overlap: no sprite among the first `n` that shows a color at a column has a
/// smaller priority number than the one shown there.
pub proof fn law_front_sprite_wins(
    m: MmuModel,
    engine_b: bool,
    dispcnt: u32,
    ly: u16,
    n: int,
    i: int,
    x: int,
)
    requires
        0 <= i < n <= 128,
        sprite_on(m.ram.oam, oam_base(engine_b), i, ly) is Some,
        sprite_color(
            m,
            engine_b,
            dispcnt,
            sprite_on(m.ram.oam, oam_base(engine_b), i, ly)->0,
            x,
        ) is Some,
    ensures
        obj_pixel(m, engine_b, dispcnt, ly, n, x).1 <= sprite_on(
            m.ram.oam,
            oam_base(engine_b),
            i,
            ly,
        )->0.prio,
    decreases n,
{
    reveal_with_fuel(obj_pixel, 2);
    if i < n - 1 {
        law_front_sprite_wins(m, engine_b, dispcnt, ly, n - 1, i, x);
    }
}

/// Of sprites with equal priority the earlier keeps the pixel: a later one that
/// is not strictly in front changes nothing.
pub proof fn law_earlier_sprite_keeps_the_pixel(
    m: MmuModel,
    engine_b: bool,
    dispcnt: u32,
    ly: u16,
    n: int,
    x: int,
)
    requires
        0 <= n < 128,
        sprite_on(m.ram.oam, oam_base(engine_b), n, ly) is Some,
        sprite_on(m.ram.oam, oam_base(engine_b), n, ly)->0.prio >= obj_pixel(
            m,
            engine_b,
            dispcnt,
            ly,
            n,
            x,
        ).1,
    ensures
        obj_pixel(m, engine_b, dispcnt, ly, n + 1, x) == obj_pixel(m, engine_b, dispcnt, ly, n, x),
{
    reveal_with_fuel(obj_pixel, 2);
}

/// A matrix of unity shows a sprite as if it had none.
pub proof fn law_identity_matrix_is_no_matrix(sp: Sprite, x: int)
    requires
        sp.wf(),
        sp.rotscale,
        sp.aw == sp.w,
        sp.ah == sp.h,
        sp.pa == 0x100,
        sp.pb == 0,
        sp.pc == 0,
        sp.pd == 0x100,
        !sp.hflip,
        !sp.vflip,
    ensures
        sp.texel(x) == (Sprite { rotscale: false, ..sp }).texel(x),
{
}

} // verus!
