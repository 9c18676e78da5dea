//! How textures lie in memory.

use vstd::arithmetic::power2::pow2;
use vstd::prelude::*;
use crate::bytes;
use crate::texture;
use crate::vram::VramModel;

verus! {

/// The size fields give powers of two from 8 on.
pub proof fn law_sides_are_powers_of_two(tex: u32, w: nat, h: nat)
    requires
        tex / 0x10_0000 % 8 == w,
        tex / 0x80_0000 % 8 == h,
    ensures
        texture::tex_width(tex) == 8 * pow2(w),
        texture::tex_height(tex) == 8 * pow2(h),
{
    vstd::arithmetic::power2::lemma2_to64();
}

/// Inside the texture, coordinates are not changed, whatever the wrapping.
pub proof fn law_inside_coordinates_stay(tex: u32, x: int, y: int)
    requires
        0 <= x < texture::tex_width(tex),
        0 <= y < texture::tex_height(tex),
    ensures
        texture::texel_x(tex, x) == x,
        texture::texel_y(tex, y) == y,
{
    let w = texture::tex_width(tex);
    let h = texture::tex_height(tex);
    vstd::arithmetic::div_mod::lemma_small_mod(x as nat, w as nat);
    vstd::arithmetic::div_mod::lemma_small_mod(x as nat, (2 * w) as nat);
    vstd::arithmetic::div_mod::lemma_small_mod(y as nat, h as nat);
    vstd::arithmetic::div_mod::lemma_small_mod(y as nat, (2 * h) as nat);
}

/// Past the edges, coordinates stop at the edge, repeat, or turn back: bits 16 and
/// 18 say so of the columns, bits 17 and 19 of the rows.
pub proof fn law_outside_coordinates_wrap(tex: u32, x: int, y: int)
    requires
        0 <= x < texture::tex_width(tex),
        0 <= y < texture::tex_height(tex),
    ensures
        ({
            let w = texture::tex_width(tex);
            &&& tex / 0x1_0000 % 2 == 0 ==> texture::texel_x(tex, x + w) == w - 1
                && texture::texel_x(tex, x - w) == 0
            &&& tex / 0x1_0000 % 2 == 1 && tex / 0x4_0000 % 2 == 0 ==> texture::texel_x(tex, x + w)
                == x && texture::texel_x(tex, x - w) == x
            &&& tex / 0x1_0000 % 2 == 1 && tex / 0x4_0000 % 2 == 1 ==> texture::texel_x(tex, x + w)
                == w - 1 - x && texture::texel_x(tex, x - w) == w - 1 - x
        }),
        ({
            let h = texture::tex_height(tex);
            &&& tex / 0x2_0000 % 2 == 0 ==> texture::texel_y(tex, y + h) == h - 1
                && texture::texel_y(tex, y - h) == 0
            &&& tex / 0x2_0000 % 2 == 1 && tex / 0x8_0000 % 2 == 0 ==> texture::texel_y(tex, y + h)
                == y && texture::texel_y(tex, y - h) == y
            &&& tex / 0x2_0000 % 2 == 1 && tex / 0x8_0000 % 2 == 1 ==> texture::texel_y(tex, y + h)
                == h - 1 - y && texture::texel_y(tex, y - h) == h - 1 - y
        }),
{
    lemma_past(x, texture::tex_width(tex));
    lemma_past(y, texture::tex_height(tex));
}

proof fn lemma_past(c: int, n: int)
    requires
        0 <= c < n,
    ensures
        (c + n) % n == c,
        (c - n) % n == c,
        (c + n) % (2 * n) == c + n,
        (c - n) % (2 * n) == c + n,
{
    vstd::arithmetic::div_mod::lemma_small_mod(c as nat, n as nat);
    vstd::arithmetic::div_mod::lemma_mod_add_multiples_vanish(c, n);
    vstd::arithmetic::div_mod::lemma_mod_sub_multiples_vanish(c, n);
    vstd::arithmetic::div_mod::lemma_small_mod((c + n) as nat, (2 * n) as nat);
    vstd::arithmetic::div_mod::lemma_mod_sub_multiples_vanish(c + n, 2 * n);
}

/// Byte `i` of a texture image.
pub open spec fn image_byte(v: VramModel, tex: u32, i: int) -> u8 {
    v.byte_at(v.tex_image_slot((tex as int % 0x1_0000 * 8 + i) as u32))
}

/// Color `i` of a palette that begins at an address: two bytes each, low one first,
/// 15 bits of them.
pub open spec fn entry(v: VramModel, base: int, i: int) -> int {
    (v.byte_at(v.tex_pal_slot((base + 2 * i) as u32)) + 0x100 * v.byte_at(
        v.tex_pal_slot((base + 2 * i + 1) as u32),
    )) % 0x8000
}

/// Four-color textures: a byte holds four texels of a row, the leftmost in its
/// lowest two bits. The palette base counts in steps of 8 bytes. Color 0 is clear
/// where bit 29 is set.
pub proof fn law_four_color_texels(
    v: VramModel,
    tex: u32,
    pal: u32,
    q: int,
    y: int,
    i0: int,
    i1: int,
    i2: int,
    i3: int,
    k: int,
)
    requires
        tex / 0x400_0000 % 8 == 2,
        0 <= q,
        4 * q + 4 <= texture::tex_width(tex),
        0 <= y < texture::tex_height(tex),
        0 <= i0 < 4,
        0 <= i1 < 4,
        0 <= i2 < 4,
        0 <= i3 < 4,
        image_byte(v, tex, (y * texture::tex_width(tex)) / 4 + q) == i0 + 4 * i1 + 16 * i2 + 64 * i3,
        0 <= k < 4,
        pal < 0x2000,
    ensures
        ({
            let i = if k == 0 {
                i0
            } else if k == 1 {
                i1
            } else if k == 2 {
                i2
            } else {
                i3
            };
            let r = texture::texel(v, tex, pal, 4 * q + k, y);
            if i == 0 && tex / 0x2000_0000 % 2 == 1 {
                r is None
            } else {
                (r matches Some(t) && t.0 == entry(v, pal * 8, i) && t.1 == 31)
            }
        }),
{
    let w = texture::tex_width(tex);
    law_inside_coordinates_stay(tex, 4 * q + k, y);
    lemma_row(y, w, 4, q, k);
    let b = image_byte(v, tex, (y * w) / 4 + q);
    assert(b as int / 4 == i1 + 4 * i2 + 16 * i3 && b as int % 4 == i0);
    assert(b as int / 16 == i2 + 4 * i3 && b as int / 64 == i3);
    assert(texture::texel_byte(v, tex, 4 * q + k, y) == b);
}

proof fn lemma_row(y: int, w: int, per: int, q: int, k: int)
    requires
        w == 8 || w == 16 || w == 32 || w == 64 || w == 128 || w == 256 || w == 512 || w == 1024,
        per == 2 || per == 4,
        0 <= k < per,
    ensures
        (y * w + (per * q + k)) / per == (y * w) / per + q,
{
    let e = if w == 8 {
        1int
    } else if w == 16 {
        2
    } else if w == 32 {
        4
    } else if w == 64 {
        8
    } else if w == 128 {
        16
    } else if w == 256 {
        32
    } else if w == 512 {
        64
    } else {
        128
    };
    assert(w == 8 * e);
    let a = y * e;
    assert(y * w == 8 * a) by (nonlinear_arith)
        requires
            w == 8 * e,
            a == y * e,
    ;
}

/// Sixteen-color textures: a byte holds two texels of a row, the left one in its
/// low half. The palette base counts in steps of 16 bytes.
pub proof fn law_sixteen_color_texels(
    v: VramModel,
    tex: u32,
    pal: u32,
    q: int,
    y: int,
    i0: int,
    i1: int,
    k: int,
)
    requires
        tex / 0x400_0000 % 8 == 3,
        0 <= q,
        2 * q + 2 <= texture::tex_width(tex),
        0 <= y < texture::tex_height(tex),
        0 <= i0 < 16,
        0 <= i1 < 16,
        image_byte(v, tex, (y * texture::tex_width(tex)) / 2 + q) == i0 + 16 * i1,
        0 <= k < 2,
        pal < 0x2000,
    ensures
        ({
            let i = if k == 0 {
                i0
            } else {
                i1
            };
            let r = texture::texel(v, tex, pal, 2 * q + k, y);
            if i == 0 && tex / 0x2000_0000 % 2 == 1 {
                r is None
            } else {
                (r matches Some(t) && t.0 == entry(v, pal * 16, i) && t.1 == 31)
            }
        }),
{
    let w = texture::tex_width(tex);
    law_inside_coordinates_stay(tex, 2 * q + k, y);
    lemma_row(y, w, 2, q, k);
    let b = image_byte(v, tex, (y * w) / 2 + q);
    assert(b as int / 16 == i1 && b as int % 16 == i0);
    assert(texture::texel_byte(v, tex, 2 * q + k, y) == b);
}

/// 256-color textures: a byte holds one texel.
pub proof fn law_byte_texels(v: VramModel, tex: u32, pal: u32, x: int, y: int, i: int)
    requires
        tex / 0x400_0000 % 8 == 4,
        0 <= x < texture::tex_width(tex),
        0 <= y < texture::tex_height(tex),
        image_byte(v, tex, y * texture::tex_width(tex) + x) == i,
        pal < 0x2000,
    ensures
        ({
            let r = texture::texel(v, tex, pal, x, y);
            if i == 0 && tex / 0x2000_0000 % 2 == 1 {
                r is None
            } else {
                (r matches Some(t) && t.0 == entry(v, pal * 16, i) && t.1 == 31)
            }
        }),
{
    law_inside_coordinates_stay(tex, x, y);
}

/// Translucent textures: a byte holds a color number and above it an opacity, five
/// bits and three in format 1, three bits and five in format 6. An opacity of zero
/// is clear, and three bits spread over the range of five: nine halves per step, rounded
/// down.
#[verifier::rlimit(40)]
#[verifier::spinoff_prover]
pub proof fn law_translucent_texels(
    v: VramModel,
    tex: u32,
    pal: u32,
    x: int,
    y: int,
    i: int,
    a: int,
)
    requires
        0 <= x < texture::tex_width(tex),
        0 <= y < texture::tex_height(tex),
        tex / 0x400_0000 % 8 == 1 && 0 <= i < 32 && 0 <= a < 8 && image_byte(
            v,
            tex,
            y * texture::tex_width(tex) + x,
        ) == i + 32 * a || tex / 0x400_0000 % 8 == 6 && 0 <= i < 8 && 0 <= a < 32 && image_byte(
            v,
            tex,
            y * texture::tex_width(tex) + x,
        ) == i + 8 * a,
        pal < 0x2000,
    ensures
        ({
            let r = texture::texel(v, tex, pal, x, y);
            let alpha = if tex / 0x400_0000 % 8 == 1 {
                a * 9 / 2
            } else {
                a
            };
            if a == 0 {
                r is None
            } else {
                (r matches Some(t) && t.0 == entry(v, pal * 16, i) && t.1 == alpha)
            }
        }),
{
    law_inside_coordinates_stay(tex, x, y);
    let b = texture::texel_byte(v, tex, x, y);
    assert(b == image_byte(v, tex, y * texture::tex_width(tex) + x));
    if texture::tex_format(tex) == 1 {
        assert(b as int / 32 == a && b as int % 32 == i);
        assert(texture::texel_alpha(1, b) == a * 9 / 2 && texture::texel_index(1, b, x) == i);
    } else {
        assert(b as int / 8 == a && b as int % 8 == i);
        assert(texture::texel_alpha(6, b) == a && texture::texel_index(6, b, x) == i);
    }
}

} // verus!
