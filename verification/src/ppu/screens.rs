//! Which engine shows on which screen.

use vstd::prelude::*;
use crate::mmu::MmuModel;
use crate::ppu;
use crate::ppu::bg;
use crate::ppu::line;
use crate::ppu::line::Stack;
use crate::ppu::obj;

verus! {

/// Whether two machines agree in everything that an engine draws from: its
/// registers, the memories, video memory and the 3D layer.
pub open spec fn same_picture(a: MmuModel, b: MmuModel, engine_b: bool) -> bool {
    &&& a.ram == b.ram
    &&& a.vram == b.vram
    &&& a.gx == b.gx
    &&& forall|i: int|
        bg::engine_base(engine_b) <= i < bg::engine_base(engine_b) + 0x70 ==> #[trigger] a.io9[i]
            == b.io9[i]
}

proof fn lemma_registers(a: MmuModel, b: MmuModel, engine_b: bool, off: int)
    requires
        same_picture(a, b, engine_b),
        0 <= off < 0x6F,
    ensures
        bg::reg16(a, engine_b, off) == bg::reg16(b, engine_b, off),
{
    let e = bg::engine_base(engine_b);
    assert(a.io9[e + off] == b.io9[e + off]);
    assert(a.io9[e + off + 1] == b.io9[e + off + 1]);
}

proof fn lemma_layer(
    a: MmuModel,
    b: MmuModel,
    engine_b: bool,
    d: u32,
    k: int,
    ly: u16,
    x: int,
)
    requires
        same_picture(a, b, engine_b),
        0 <= k < 4,
    ensures
        line::layer_color(a, engine_b, d, k, ly, x) == line::layer_color(b, engine_b, d, k, ly, x),
{
    lemma_registers(a, b, engine_b, 8 + k * 2);
    lemma_registers(a, b, engine_b, 0x10 + k * 4);
    lemma_registers(a, b, engine_b, 0x12 + k * 4);
    reveal(bg::bg_color);
    reveal(bg::map_entry);
    reveal(bg::tile_color);
}

proof fn lemma_mask(a: MmuModel, b: MmuModel, engine_b: bool, d: u32, ly: u16, x: int)
    requires
        same_picture(a, b, engine_b),
    ensures
        line::window_mask(a, engine_b, d, ly, x) == line::window_mask(b, engine_b, d, ly, x),
{
    lemma_registers(a, b, engine_b, 0x40);
    lemma_registers(a, b, engine_b, 0x42);
    lemma_registers(a, b, engine_b, 0x44);
    lemma_registers(a, b, engine_b, 0x46);
    lemma_registers(a, b, engine_b, 0x48);
    lemma_registers(a, b, engine_b, 0x4A);
}

proof fn lemma_bg(
    a: MmuModel,
    b: MmuModel,
    s: Stack,
    engine_b: bool,
    d: u32,
    prio: int,
    k: int,
    ly: u16,
    x: int,
)
    requires
        same_picture(a, b, engine_b),
        0 <= k < 4,
    ensures
        line::after_bg(s, a, engine_b, d, prio, k, ly, x) == line::after_bg(
            s,
            b,
            engine_b,
            d,
            prio,
            k,
            ly,
            x,
        ),
{
    lemma_layer(a, b, engine_b, d, k, ly, x);
    lemma_mask(a, b, engine_b, d, ly, x);
    lemma_registers(a, b, engine_b, 8 + k * 2);
}

proof fn lemma_prio(
    a: MmuModel,
    b: MmuModel,
    s: Stack,
    engine_b: bool,
    d: u32,
    prio: int,
    ly: u16,
    x: int,
    sprite: (u16, u8),
)
    requires
        same_picture(a, b, engine_b),
    ensures
        line::after_prio(s, a, engine_b, d, prio, ly, x, sprite) == line::after_prio(
            s,
            b,
            engine_b,
            d,
            prio,
            ly,
            x,
            sprite,
        ),
{
    reveal(line::after_prio);
    let s3 = line::after_bg(s, a, engine_b, d, prio, 3, ly, x);
    let s2 = line::after_bg(s3, a, engine_b, d, prio, 2, ly, x);
    let s1 = line::after_bg(s2, a, engine_b, d, prio, 1, ly, x);
    lemma_bg(a, b, s, engine_b, d, prio, 3, ly, x);
    lemma_bg(a, b, s3, engine_b, d, prio, 2, ly, x);
    lemma_bg(a, b, s2, engine_b, d, prio, 1, ly, x);
    lemma_bg(a, b, s1, engine_b, d, prio, 0, ly, x);
    lemma_mask(a, b, engine_b, d, ly, x);
}

proof fn lemma_composed(
    a: MmuModel,
    b: MmuModel,
    engine_b: bool,
    d: u32,
    ly: u16,
    x: int,
    sprite: (u16, u8),
)
    requires
        same_picture(a, b, engine_b),
    ensures
        line::composed(a, engine_b, d, ly, x, sprite) == line::composed(
            b,
            engine_b,
            d,
            ly,
            x,
            sprite,
        ),
{
    let s = Stack::backdrop(obj::palette_color(a.ram.palette, bg::bg_pal_base(engine_b)));
    let p3 = line::after_prio(s, a, engine_b, d, 3, ly, x, sprite);
    let p2 = line::after_prio(p3, a, engine_b, d, 2, ly, x, sprite);
    let p1 = line::after_prio(p2, a, engine_b, d, 1, ly, x, sprite);
    lemma_prio(a, b, s, engine_b, d, 3, ly, x, sprite);
    lemma_prio(a, b, p3, engine_b, d, 2, ly, x, sprite);
    lemma_prio(a, b, p2, engine_b, d, 1, ly, x, sprite);
    lemma_prio(a, b, p1, engine_b, d, 0, ly, x, sprite);
}

proof fn lemma_sprites(a: MmuModel, b: MmuModel, engine_b: bool, d: u32, ly: u16, n: int, x: int)
    requires
        same_picture(a, b, engine_b),
    ensures
        obj::obj_pixel(a, engine_b, d, ly, n, x) == obj::obj_pixel(b, engine_b, d, ly, n, x),
    decreases n,
{
    reveal_with_fuel(obj::obj_pixel, 2);
    if n > 0 {
        lemma_sprites(a, b, engine_b, d, ly, n - 1, x);
    }
}

proof fn lemma_effect(a: MmuModel, b: MmuModel, engine_b: bool, mask: int, s: Stack)
    requires
        same_picture(a, b, engine_b),
    ensures
        line::with_effect(a, engine_b, mask, s) == line::with_effect(b, engine_b, mask, s),
{
    reveal(line::with_effect);
    lemma_registers(a, b, engine_b, 0x50);
    lemma_registers(a, b, engine_b, 0x52);
    assert(a.io9[bg::engine_base(engine_b) + 0x54] == b.io9[bg::engine_base(engine_b) + 0x54]);
}

/// What an engine shows depends on what it draws from alone.
pub proof fn law_engine_draws_from_its_own(
    a: MmuModel,
    b: MmuModel,
    engine_b: bool,
    ly: u16,
    x: int,
)
    requires
        same_picture(a, b, engine_b),
    ensures
        line::engine_pixel(a, engine_b, ly, x) == line::engine_pixel(b, engine_b, ly, x),
{
    reveal(line::engine_pixel);
    let e = bg::engine_base(engine_b);
    assert(a.io9[e] == b.io9[e] && a.io9[e + 1] == b.io9[e + 1] && a.io9[e + 2] == b.io9[e + 2]
        && a.io9[e + 3] == b.io9[e + 3]);
    let d = line::dispcnt_of(a, engine_b);
    lemma_registers(a, b, engine_b, 0x6C);
    lemma_sprites(a, b, engine_b, d, ly, 128, x);
    let sprite = line::sprite_pixel(a, engine_b, d, ly, x);
    lemma_mask(a, b, engine_b, d, ly, x);
    lemma_composed(a, b, engine_b, d, ly, x, sprite);
    lemma_effect(
        a,
        b,
        engine_b,
        line::window_mask(a, engine_b, d, ly, x),
        line::composed(a, engine_b, d, ly, x, sprite),
    );
}

/// The machine with the screen bit of the power control flipped.
pub open spec fn screens_flipped(m: MmuModel) -> MmuModel {
    let v = m.io9[0x305];
    MmuModel {
        io9: m.io9.update(
            0x305,
            (if v >= 0x80 {
                v - 0x80
            } else {
                v + 0x80
            }) as u8,
        ),
        ..m
    }
}

/// Rendering a line changes the two rows of that line and nothing else; past the
/// visible lines it changes nothing.
pub proof fn law_line_changes_two_rows(m: MmuModel, video: Seq<u16>, ly: u16, i: int)
    requires
        0 <= i < video.len(),
    ensures
        ppu::scanned(m, video, ly).len() == video.len(),
        ly >= 192 ==> ppu::scanned(m, video, ly) == video,
        i / 256 != ly && i / 256 != 192 + ly ==> ppu::scanned(m, video, ly)[i] == video[i],
{
}

/// While the stylus is up, flipping the screen bit exchanges the two rows of a
/// line; with the bit set the first engine is on the upper screen.
pub proof fn law_screen_bit_exchanges_the_rows(m: MmuModel, video: Seq<u16>, ly: u16, x: int)
    requires
        m.wf(),
        video.len() >= 256 * 384,
        ly < 192,
        0 <= x < 256,
        !m.buttons.nds_touch_pressed,
    ensures
        ({
            let s = ppu::scanned(m, video, ly);
            let t = ppu::scanned(screens_flipped(m), video, ly);
            let top = ly * 256 + x;
            let bottom = (192 + ly) * 256 + x;
            &&& t[top] == s[bottom]
            &&& t[bottom] == s[top]
            &&& m.io9[0x305] >= 0x80 ==> s[top] == line::engine_pixel(m, false, ly, x)
            &&& m.io9[0x305] >= 0x80 ==> s[bottom] == line::engine_pixel(m, true, ly, x)
        }),
{
    let f = screens_flipped(m);
    assert(same_picture(m, f, false));
    assert(same_picture(m, f, true));
    law_engine_draws_from_its_own(m, f, false, ly, x);
    law_engine_draws_from_its_own(m, f, true, ly, x);
}

} // verus!
