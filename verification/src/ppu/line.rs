//! Composition of one scan line of an engine: windows, layers by priority, color
//! effects, master brightness.

use vstd::prelude::*;
use crate::bytes;
use crate::mmu::{MmuModel, NdsMmu};
use crate::ppu::bg;
use crate::ppu::color;
use crate::ppu::obj;

verus! {

/// A pixel under composition: the color on top and the one beneath it, each with
/// the layer it came from. Layers 0 to 3 are backgrounds, 4 the sprites, 5 the
/// backdrop.
#[derive(Clone, Copy, Debug, PartialEq, Eq, Structural)]
pub struct Stack {
    pub top: u16,
    pub layer: u8,
    pub under: u16,
    pub under_layer: u8,
}

impl Stack {
    pub open spec fn backdrop(c: u16) -> Stack {
        Stack { top: c, layer: 5, under: c, under_layer: 5 }
    }

    /// With a color painted over.
    pub open spec fn painted(self, c: u16, layer: u8) -> Stack {
        Stack { top: c, layer, under: self.top, under_layer: self.layer }
    }

    fn paint(self, c: u16, layer: u8) -> (r: Stack)
        ensures
            r == self.painted(c, layer),
    {
        Stack { top: c, layer, under: self.top, under_layer: self.layer }
    }
}

/// Bit `k` of a mask.
pub open spec fn bit_of(mask: int, k: int) -> bool {
    (if k == 0 {
        mask
    } else if k == 1 {
        mask / 2
    } else if k == 2 {
        mask / 4
    } else if k == 3 {
        mask / 8
    } else if k == 4 {
        mask / 16
    } else {
        mask / 32
    }) % 2 == 1
}

fn bit(mask: u32, k: u8) -> (b: bool)
    ensures
        b == bit_of(mask as int, k as int),
{
    (match k {
        0 => mask,
        1 => mask / 2,
        2 => mask / 4,
        3 => mask / 8,
        4 => mask / 16,
        _ => mask / 32,
    }) % 2 == 1
}

/// Display control word of an engine.
pub open spec fn dispcnt_of(m: MmuModel, engine_b: bool) -> u32 {
    let b = bg::engine_base(engine_b);
    bytes::le32(m.io9[b], m.io9[b + 1], m.io9[b + 2], m.io9[b + 3])
}

/// Whether a position lies in a window side: from the first edge up to the second,
/// around the end when the edges are in reverse.
pub open spec fn within(v: int, first: int, second: int) -> bool {
    if first <= second {
        first <= v < second
    } else {
        v >= first || v < second
    }
}

/// Whether window `w` is on and holds a pixel.
pub open spec fn in_window(
    m: MmuModel,
    engine_b: bool,
    dispcnt: u32,
    w: int,
    ly: u16,
    x: int,
) -> bool {
    let on = if w == 0 {
        dispcnt / 0x2000 % 2 == 1
    } else {
        dispcnt / 0x4000 % 2 == 1
    };
    let h = bg::reg16(m, engine_b, 0x40 + w * 2);
    let v = bg::reg16(m, engine_b, 0x44 + w * 2);
    on && within(ly as int, v as int / 0x100, v as int % 0x100) && within(
        x,
        h as int / 0x100,
        h as int % 0x100,
    )
}

/// Layers and effects that the windows let through at a pixel: bits 0 to 3 the
/// backgrounds, 4 the sprites, 5 the color effects. The first window lies over
/// the second, and both over the rest.
pub open spec fn window_mask(m: MmuModel, engine_b: bool, dispcnt: u32, ly: u16, x: int) -> int {
    if dispcnt / 0x2000 % 4 == 0 {
        0x3F
    } else if in_window(m, engine_b, dispcnt, 0, ly, x) {
        bg::reg16(m, engine_b, 0x48) as int % 64
    } else if in_window(m, engine_b, dispcnt, 1, ly, x) {
        bg::reg16(m, engine_b, 0x48) as int / 0x100 % 64
    } else {
        bg::reg16(m, engine_b, 0x4A) as int % 64
    }
}

/// Whether a background is tiled in a mode.
pub open spec fn is_text(mode: int, b: int) -> bool {
    if mode == 0 {
        true
    } else if mode == 1 || mode == 3 {
        b < 3
    } else if mode == 2 || mode == 4 || mode == 5 {
        b < 2
    } else {
        false
    }
}

/// Whether a background shows the 3D layer.
pub open spec fn is_3d(engine_b: bool, dispcnt: u32, b: int) -> bool {
    !engine_b && b == 0 && dispcnt / 8 % 2 == 1
}

/// Whether background `b` is on.
pub open spec fn bg_on(dispcnt: u32, b: int) -> bool {
    bit_of(dispcnt as int / 0x100 % 16, b)
}

/// Color that a background contributes at a pixel.
pub open spec fn layer_color(
    m: MmuModel,
    engine_b: bool,
    dispcnt: u32,
    b: int,
    ly: u16,
    x: int,
) -> Option<u16> {
    let bgcnt = bg::reg16(m, engine_b, 8 + b * 2);
    if is_3d(engine_b, dispcnt, b) {
        let px = m.gx.engine.fb[ly * 256 + x];
        if px >= 0x8000 {
            Some(px % 0x8000)
        } else {
            None
        }
    } else if is_text(dispcnt as int % 8, b) {
        bg::bg_color(m, engine_b, b, dispcnt, bgcnt, ly, x)
    } else {
        None
    }
}

/// The pixel after background `b` had its turn at a priority.
pub open spec fn after_bg(
    s: Stack,
    m: MmuModel,
    engine_b: bool,
    dispcnt: u32,
    prio: int,
    b: int,
    ly: u16,
    x: int,
) -> Stack {
    let bgcnt = bg::reg16(m, engine_b, 8 + b * 2);
    if bg_on(dispcnt, b) && bgcnt as int % 4 == prio && bit_of(
        window_mask(m, engine_b, dispcnt, ly, x),
        b,
    ) {
        match layer_color(m, engine_b, dispcnt, b, ly, x) {
            Some(c) => s.painted(c, b as u8),
            None => s,
        }
    } else {
        s
    }
}

/// The pixel after everything of one priority: backgrounds from the last to the
/// first, then the sprite over them.
#[verifier::opaque]
pub open spec fn after_prio(
    s: Stack,
    m: MmuModel,
    engine_b: bool,
    dispcnt: u32,
    prio: int,
    ly: u16,
    x: int,
    sprite: (u16, u8),
) -> Stack {
    let s3 = after_bg(s, m, engine_b, dispcnt, prio, 3, ly, x);
    let s2 = after_bg(s3, m, engine_b, dispcnt, prio, 2, ly, x);
    let s1 = after_bg(s2, m, engine_b, dispcnt, prio, 1, ly, x);
    let s0 = after_bg(s1, m, engine_b, dispcnt, prio, 0, ly, x);
    if sprite.1 == prio && bit_of(window_mask(m, engine_b, dispcnt, ly, x), 4) {
        s0.painted(sprite.0, 4)
    } else {
        s0
    }
}

/// The composed pixel: priorities from the back to the front.
pub open spec fn composed(
    m: MmuModel,
    engine_b: bool,
    dispcnt: u32,
    ly: u16,
    x: int,
    sprite: (u16, u8),
) -> Stack {
    let b = Stack::backdrop(obj::palette_color(m.ram.palette, bg::bg_pal_base(engine_b)));
    let p3 = after_prio(b, m, engine_b, dispcnt, 3, ly, x, sprite);
    let p2 = after_prio(p3, m, engine_b, dispcnt, 2, ly, x, sprite);
    let p1 = after_prio(p2, m, engine_b, dispcnt, 1, ly, x, sprite);
    after_prio(p1, m, engine_b, dispcnt, 0, ly, x, sprite)
}

/// A factor in sixteenths from a five-bit field.
pub open spec fn factor(v: int) -> int {
    if v % 32 > 16 {
        16
    } else {
        v % 32
    }
}

/// Color after the engine's color effect: only pixels whose layer is a first
/// target change; blending also needs the layer beneath to be a second target.
#[verifier::opaque]
pub open spec fn with_effect(m: MmuModel, engine_b: bool, mask: int, s: Stack) -> u16 {
    let bld = bg::reg16(m, engine_b, 0x50);
    let alpha = bg::reg16(m, engine_b, 0x52);
    let effect = bld as int / 64 % 4;
    let evy = factor(m.io9[bg::engine_base(engine_b) + 0x54] as int);
    if effect == 0 || !bit_of(bld as int % 64, s.layer as int) || !bit_of(mask, 5) {
        s.top
    } else if effect == 1 {
        if bit_of(bld as int / 0x100 % 64, s.under_layer as int) {
            color::blended(
                s.top,
                s.under,
                factor(alpha as int),
                factor(alpha as int / 0x100),
            )
        } else {
            s.top
        }
    } else if effect == 2 {
        color::brightened(s.top, evy)
    } else {
        color::darkened(s.top, evy)
    }
}

/// Sprite pixel of an engine, none where sprites are off.
pub open spec fn sprite_pixel(
    m: MmuModel,
    engine_b: bool,
    dispcnt: u32,
    ly: u16,
    x: int,
) -> (u16, u8) {
    if dispcnt / 0x1000 % 2 == 1 {
        obj::obj_pixel(m, engine_b, dispcnt, ly, 128, x)
    } else {
        (0u16, 0xFFu8)
    }
}

/// Pixel in graphics mode.
pub open spec fn graphics_pixel(
    m: MmuModel,
    engine_b: bool,
    dispcnt: u32,
    ly: u16,
    x: int,
    sprite: (u16, u8),
) -> u16 {
    with_effect(
        m,
        engine_b,
        window_mask(m, engine_b, dispcnt, ly, x),
        composed(m, engine_b, dispcnt, ly, x, sprite),
    )
}

/// Pixel of a bank shown as a bitmap.
pub open spec fn bitmap_pixel(m: MmuModel, dispcnt: u32, ly: u16, x: int) -> u16 {
    let off = (dispcnt as int / 0x4_0000 % 4) * 0x2_0000 + ly * 512 + x * 2;
    bytes::le16(
        m.vram.byte_at(m.vram.lcdc_slot(off as u32)),
        m.vram.byte_at(m.vram.lcdc_slot((off + 1) as u32)),
    ) % 0x8000
}

/// Color after the engine's master brightness.
pub open spec fn with_master(m: MmuModel, engine_b: bool, c: u16) -> u16 {
    let v = bg::reg16(m, engine_b, 0x6C);
    let f = factor(v as int);
    if f > 0 && v as int / 0x4000 == 1 {
        color::brightened(c, f)
    } else if f > 0 && v as int / 0x4000 == 2 {
        color::darkened(c, f)
    } else {
        c
    }
}

/// Pixel that an engine shows: white while the display is off, graphics, a bank
/// as a bitmap, or else the backdrop.
#[verifier::opaque]
pub open spec fn engine_pixel(m: MmuModel, engine_b: bool, ly: u16, x: int) -> u16 {
    let d = dispcnt_of(m, engine_b);
    let mode = d as int / 0x1_0000 % 4;
    with_master(
        m,
        engine_b,
        if mode == 0 {
            0x7FFF
        } else if mode == 1 {
            graphics_pixel(m, engine_b, d, ly, x, sprite_pixel(m, engine_b, d, ly, x))
        } else if mode == 2 {
            bitmap_pixel(m, d, ly, x)
        } else {
            obj::palette_color(m.ram.palette, bg::bg_pal_base(engine_b))
        },
    )
}

fn inside(v: u32, first: u32, second: u32) -> (b: bool)
    ensures
        b == within(v as int, first as int, second as int),
{
    if first <= second {
        first <= v && v < second
    } else {
        v >= first || v < second
    }
}

fn holds(mmu: &NdsMmu, engine_b: bool, dispcnt: u32, w: usize, ly: u16, x: u32) -> (b: bool)
    requires
        mmu@.wf(),
        w < 2,
    ensures
        b == in_window(mmu@, engine_b, dispcnt, w as int, ly, x as int),
{
    let on: bool = if w == 0 {
        dispcnt / 0x2000 % 2 == 1
    } else {
        dispcnt / 0x4000 % 2 == 1
    };
    let h: u32 = bg::read_reg16(mmu, engine_b, 0x40 + w * 2) as u32;
    let v: u32 = bg::read_reg16(mmu, engine_b, 0x44 + w * 2) as u32;
    on && inside(ly as u32, v / 0x100, v % 0x100) && inside(x, h / 0x100, h % 0x100)
}

fn mask_at(mmu: &NdsMmu, engine_b: bool, dispcnt: u32, ly: u16, x: u32) -> (k: u32)
    requires
        mmu@.wf(),
    ensures
        k == window_mask(mmu@, engine_b, dispcnt, ly, x as int),
{
    if dispcnt / 0x2000 % 4 == 0 {
        0x3F
    } else if holds(mmu, engine_b, dispcnt, 0, ly, x) {
        bg::read_reg16(mmu, engine_b, 0x48) as u32 % 64
    } else if holds(mmu, engine_b, dispcnt, 1, ly, x) {
        bg::read_reg16(mmu, engine_b, 0x48) as u32 / 0x100 % 64
    } else {
        bg::read_reg16(mmu, engine_b, 0x4A) as u32 % 64
    }
}

fn text_in_mode(mode: u32, b: usize) -> (r: bool)
    ensures
        r == is_text(mode as int, b as int),
{
    if mode == 0 {
        true
    } else if mode == 1 || mode == 3 {
        b < 3
    } else if mode == 2 || mode == 4 || mode == 5 {
        b < 2
    } else {
        false
    }
}

fn color_at(mmu: &NdsMmu, engine_b: bool, dispcnt: u32, b: usize, ly: u16, x: u32) -> (c: Option<
    u16,
>)
    requires
        mmu@.wf(),
        b < 4,
        ly < 192,
        x < 256,
    ensures
        c == layer_color(mmu@, engine_b, dispcnt, b as int, ly, x as int),
{
    let bgcnt: u16 = bg::read_reg16(mmu, engine_b, 8 + b * 2);
    if !engine_b && b == 0 && dispcnt / 8 % 2 == 1 {
        let px: u16 = mmu.gx.layer_pixel(ly as usize * 256 + x as usize);
        if px >= 0x8000 {
            Some(px % 0x8000)
        } else {
            None
        }
    } else if text_in_mode(dispcnt % 8, b) {
        bg::text_bg_color(mmu, engine_b, b, dispcnt, bgcnt, ly, x)
    } else {
        None
    }
}

fn paint_bg(
    s: Stack,
    mmu: &NdsMmu,
    engine_b: bool,
    dispcnt: u32,
    prio: u16,
    b: usize,
    ly: u16,
    x: u32,
    mask: u32,
) -> (r: Stack)
    requires
        mmu@.wf(),
        b < 4,
        ly < 192,
        x < 256,
        mask == window_mask(mmu@, engine_b, dispcnt, ly, x as int),
    ensures
        r == after_bg(s, mmu@, engine_b, dispcnt, prio as int, b as int, ly, x as int),
{
    let bgcnt: u16 = bg::read_reg16(mmu, engine_b, 8 + b * 2);
    if bit(dispcnt / 0x100 % 16, b as u8) && bgcnt % 4 == prio && bit(mask, b as u8) {
        match color_at(mmu, engine_b, dispcnt, b, ly, x) {
            Some(c) => s.paint(c, b as u8),
            None => s,
        }
    } else {
        s
    }
}

fn paint_prio(
    s: Stack,
    mmu: &NdsMmu,
    engine_b: bool,
    dispcnt: u32,
    prio: u16,
    ly: u16,
    x: u32,
    mask: u32,
    sprite: (u16, u8),
) -> (r: Stack)
    requires
        mmu@.wf(),
        ly < 192,
        x < 256,
        mask == window_mask(mmu@, engine_b, dispcnt, ly, x as int),
    ensures
        r == after_prio(s, mmu@, engine_b, dispcnt, prio as int, ly, x as int, sprite),
{
    proof {
        reveal(after_prio);
    }
    let s3: Stack = paint_bg(s, mmu, engine_b, dispcnt, prio, 3, ly, x, mask);
    let s2: Stack = paint_bg(s3, mmu, engine_b, dispcnt, prio, 2, ly, x, mask);
    let s1: Stack = paint_bg(s2, mmu, engine_b, dispcnt, prio, 1, ly, x, mask);
    let s0: Stack = paint_bg(s1, mmu, engine_b, dispcnt, prio, 0, ly, x, mask);
    if sprite.1 as u16 == prio && bit(mask, 4) {
        s0.paint(sprite.0, 4)
    } else {
        s0
    }
}

fn clamp16(v: u32) -> (f: u32)
    ensures
        f == factor(v as int),
        f <= 16,
{
    if v % 32 > 16 {
        16
    } else {
        v % 32
    }
}

fn apply_effect(mmu: &NdsMmu, engine_b: bool, mask: u32, s: Stack) -> (c: u16)
    requires
        mmu@.wf(),
    ensures
        c == with_effect(mmu@, engine_b, mask as int, s),
{
    proof {
        reveal(with_effect);
    }
    let bld: u32 = bg::read_reg16(mmu, engine_b, 0x50) as u32;
    let effect: u32 = bld / 64 % 4;
    if effect == 0 || !bit(bld % 64, s.layer) || !bit(mask, 5) {
        return s.top;
    }
    if effect == 1 {
        if bit(bld / 0x100 % 64, s.under_layer) {
            let alpha: u32 = bg::read_reg16(mmu, engine_b, 0x52) as u32;
            color::blend(s.top, s.under, clamp16(alpha), clamp16(alpha / 0x100))
        } else {
            s.top
        }
    } else {
        let evy: u32 = clamp16(
            mmu.arm9_io[if engine_b {
                0x1054
            } else {
                0x54
            }] as u32,
        );
        if effect == 2 {
            color::brighten(s.top, evy)
        } else {
            color::darken(s.top, evy)
        }
    }
}

fn compose_pixel(
    mmu: &NdsMmu,
    engine_b: bool,
    dispcnt: u32,
    ly: u16,
    x: u32,
    sprite: (u16, u8),
) -> (c: u16)
    requires
        mmu@.wf(),
        ly < 192,
        x < 256,
    ensures
        c == graphics_pixel(mmu@, engine_b, dispcnt, ly, x as int, sprite),
{
    let back: u16 = obj::palette_at(
        mmu,
        if engine_b {
            0x400
        } else {
            0
        },
    );
    let mask: u32 = mask_at(mmu, engine_b, dispcnt, ly, x);
    let b: Stack = Stack { top: back, layer: 5, under: back, under_layer: 5 };
    let p3: Stack = paint_prio(b, mmu, engine_b, dispcnt, 3, ly, x, mask, sprite);
    let p2: Stack = paint_prio(p3, mmu, engine_b, dispcnt, 2, ly, x, mask, sprite);
    let p1: Stack = paint_prio(p2, mmu, engine_b, dispcnt, 1, ly, x, mask, sprite);
    let p0: Stack = paint_prio(p1, mmu, engine_b, dispcnt, 0, ly, x, mask, sprite);
    apply_effect(mmu, engine_b, mask, p0)
}

fn bitmap_at(mmu: &NdsMmu, dispcnt: u32, ly: u16, x: u32) -> (c: u16)
    requires
        mmu@.wf(),
        ly < 192,
        x < 256,
    ensures
        c == bitmap_pixel(mmu@, dispcnt, ly, x as int),
{
    let off: u32 = (dispcnt / 0x4_0000 % 4) * 0x2_0000 + ly as u32 * 512 + x * 2;
    bytes::halfword(mmu.vram.read_lcdc(off), mmu.vram.read_lcdc(off + 1)) % 0x8000
}

fn apply_master(mmu: &NdsMmu, engine_b: bool, c: u16) -> (r: u16)
    requires
        mmu@.wf(),
    ensures
        r == with_master(mmu@, engine_b, c),
{
    let v: u32 = bg::read_reg16(mmu, engine_b, 0x6C) as u32;
    let f: u32 = clamp16(v);
    if f > 0 && v / 0x4000 == 1 {
        color::brighten(c, f)
    } else if f > 0 && v / 0x4000 == 2 {
        color::darken(c, f)
    } else {
        c
    }
}

/// One scan line of an engine.
pub fn render_engine_line(engine_b: bool, ly: u16, mmu: &NdsMmu) -> (line: [u16; 256])
    requires
        mmu@.wf(),
        ly < 192,
    ensures
        forall|x: int|
            0 <= x < 256 ==> #[trigger] line@[x] == engine_pixel(mmu@, engine_b, ly, x),
{
    let io: usize = if engine_b {
        0x1000
    } else {
        0
    };
    let dispcnt: u32 = bytes::word(
        mmu.arm9_io[io],
        mmu.arm9_io[io + 1],
        mmu.arm9_io[io + 2],
        mmu.arm9_io[io + 3],
    );
    let mode: u32 = dispcnt / 0x1_0000 % 4;
    let sprites: bool = dispcnt / 0x1000 % 2 == 1;
    let mut line: [u16; 256] = [0u16; 256];
    let objs: ([u16; 256], [u8; 256]) = if mode == 1 && sprites {
        obj::draw_objs(mmu, engine_b, ly, dispcnt)
    } else {
        ([0u16; 256], [0xFFu8; 256])
    };
    let mut x: usize = 0;
    while x < 256
        invariant
            0 <= x <= 256,
            mmu@.wf(),
            ly < 192,
            dispcnt == dispcnt_of(mmu@, engine_b),
            mode == dispcnt / 0x1_0000 % 4,
            sprites == (dispcnt / 0x1000 % 2 == 1),
            mode == 1 ==> forall|k: int|
                0 <= k < 256 ==> (#[trigger] objs.0@[k], objs.1@[k]) == sprite_pixel(
                    mmu@,
                    engine_b,
                    dispcnt,
                    ly,
                    k,
                ),
            forall|k: int|
                0 <= k < x ==> #[trigger] line@[k] == engine_pixel(mmu@, engine_b, ly, k),
        decreases 256 - x,
    {
        proof {
            reveal(engine_pixel);
        }
        let c: u16 = match mode {
            0 => 0x7FFF,
            1 => {
                let sprite: (u16, u8) = (objs.0[x], objs.1[x]);
                assert(sprite == sprite_pixel(mmu@, engine_b, dispcnt, ly, x as int));
                compose_pixel(mmu, engine_b, dispcnt, ly, x as u32, sprite)
            },
            2 => bitmap_at(mmu, dispcnt, ly, x as u32),
            _ => obj::palette_at(
                mmu,
                if engine_b {
                    0x400
                } else {
                    0
                },
            ),
        };
        line[x] = apply_master(mmu, engine_b, c);
        x = x + 1;
    }
    line
}

/// With no window on, everything is let through.
pub proof fn law_no_window_masks_nothing(
    m: MmuModel,
    engine_b: bool,
    dispcnt: u32,
    ly: u16,
    x: int,
    k: int,
)
    requires
        dispcnt / 0x2000 % 4 == 0,
        0 <= k < 6,
    ensures
        bit_of(window_mask(m, engine_b, dispcnt, ly, x), k),
{
}

/// A sprite lies over the backgrounds of its own priority and beneath those of
/// smaller priority numbers, which are painted later.
pub proof fn law_sprite_over_its_priority(
    s: Stack,
    m: MmuModel,
    engine_b: bool,
    dispcnt: u32,
    prio: int,
    ly: u16,
    x: int,
    sprite: (u16, u8),
)
    requires
        0 <= prio < 4,
        sprite.1 == prio,
        bit_of(window_mask(m, engine_b, dispcnt, ly, x), 4),
    ensures
        after_prio(s, m, engine_b, dispcnt, prio, ly, x, sprite).top == sprite.0,
        after_prio(s, m, engine_b, dispcnt, prio, ly, x, sprite).layer == 4,
{
    reveal(after_prio);
}

/// A pixel whose layer is no first target keeps its color.
pub proof fn law_effects_need_a_first_target(m: MmuModel, engine_b: bool, mask: int, s: Stack)
    requires
        !bit_of(bg::reg16(m, engine_b, 0x50) as int % 64, s.layer as int),
    ensures
        with_effect(m, engine_b, mask, s) == s.top,
{
    reveal(with_effect);
}

} // verus!
