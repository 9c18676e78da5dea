//! Texel fetches, the draw order of a frame and the texture census.

use vstd::prelude::*;
use crate::bytes;
use crate::vram::VramManager;
use crate::vram::VramModel;

pub mod laws;

verus! {

/// Texture pairs kept in the census.
pub const TEX_STATS_CAP: usize = 32;

/// Texture side length for a size field: eight shifted left by it.
pub open spec fn side_length(field: int) -> int {
    if field == 0 {
        8
    } else if field == 1 {
        16
    } else if field == 2 {
        32
    } else if field == 3 {
        64
    } else if field == 4 {
        128
    } else if field == 5 {
        256
    } else if field == 6 {
        512
    } else {
        1024
    }
}

/// Coordinate brought into the texture: clamped, repeated, or repeated with
/// every other copy mirrored.
pub open spec fn wrapped_coord(c: int, n: int, repeat: bool, flip: bool) -> int {
    if repeat {
        if flip {
            let m = c % (2 * n);
            if m >= n {
                2 * n - 1 - m
            } else {
                m
            }
        } else {
            c % n
        }
    } else if c < 0 {
        0
    } else if c > n - 1 {
        n - 1
    } else {
        c
    }
}

/// Flag bit `2^k` of a word given its weight.
pub open spec fn flag(w: u32, weight: u32) -> bool {
    w / weight % 2 == 1
}

pub open spec fn tex_width(tex: u32) -> int {
    side_length(tex as int / 0x10_0000 % 8)
}

pub open spec fn tex_height(tex: u32) -> int {
    side_length(tex as int / 0x80_0000 % 8)
}

/// Texel position after wrapping both coordinates.
pub open spec fn texel_x(tex: u32, x: int) -> int {
    wrapped_coord(x, tex_width(tex), flag(tex, 0x1_0000), flag(tex, 0x4_0000))
}

pub open spec fn texel_y(tex: u32, y: int) -> int {
    wrapped_coord(y, tex_height(tex), flag(tex, 0x2_0000), flag(tex, 0x8_0000))
}

/// Running number of a texel, row by row.
pub open spec fn texel_number(tex: u32, x: int, y: int) -> int {
    texel_y(tex, y) * tex_width(tex) + texel_x(tex, x)
}

pub open spec fn tex_format(tex: u32) -> int {
    tex as int / 0x400_0000 % 8
}

/// Texels per byte of a format.
pub open spec fn texels_per_byte(fmt: int) -> int {
    if fmt == 2 {
        4
    } else if fmt == 3 {
        2
    } else {
        1
    }
}

/// Byte that holds a texel.
pub open spec fn texel_byte(v: VramModel, tex: u32, x: int, y: int) -> u8 {
    let at = tex as int % 0x1_0000 * 8 + texel_number(tex, x, y) / texels_per_byte(tex_format(tex));
    v.byte_at(v.tex_image_slot(at as u32))
}

/// Two bits of a byte.
pub open spec fn pair_of(b: u8, k: int) -> int {
    if k == 0 {
        b as int % 4
    } else if k == 1 {
        b as int / 4 % 4
    } else if k == 2 {
        b as int / 16 % 4
    } else {
        b as int / 64
    }
}

/// Palette index in a texel's byte.
pub open spec fn texel_index(fmt: int, b: u8, tx: int) -> int {
    if fmt == 1 {
        b as int % 32
    } else if fmt == 2 {
        pair_of(b, tx % 4)
    } else if fmt == 3 {
        if tx % 2 == 0 {
            b as int % 16
        } else {
            b as int / 16
        }
    } else if fmt == 4 {
        b as int
    } else {
        b as int % 8
    }
}

/// Opacity in a texel's byte, 0 to 31; only formats 1 and 6 carry one.
pub open spec fn texel_alpha(fmt: int, b: u8) -> int {
    if fmt == 1 {
        b as int / 32 * 4 + b as int / 32 / 2
    } else if fmt == 6 {
        b as int / 8
    } else {
        31
    }
}

/// Palette color of an index.
pub open spec fn palette_color(v: VramModel, fmt: int, pal: u32, idx: int) -> u16 {
    let at = palette_address(fmt, pal, idx);
    let lo = v.byte_at(v.tex_pal_slot(at as u32));
    let hi = v.byte_at(v.tex_pal_slot((at + 1) as u32));
    bytes::le16(lo, hi) % 0x8000
}

/// Address of a palette color; format 2 palettes step in 8 bytes, the others in
/// 16.
pub open spec fn palette_address(fmt: int, pal: u32, idx: int) -> int {
    pal * (if fmt == 2 {
        8int
    } else {
        16
    }) + idx * 2
}

/// Whether the palette color of a texel, if it has one, stands at an address of 32
/// bits. Every base of the 13 bits that the command sets does.
pub open spec fn palette_fits(v: VramModel, tex: u32, pal: u32, x: int, y: int) -> bool {
    let fmt = tex_format(tex);
    texel(v, tex, pal, x, y) is Some ==> palette_address(
        fmt,
        pal,
        texel_index(fmt, texel_byte(v, tex, x, y), texel_x(tex, x)),
    ) + 1 <= u32::MAX
}

/// Color and opacity of a texel, none where it is fully transparent or the
/// format is not a palette format.
pub open spec fn texel(v: VramModel, tex: u32, pal: u32, x: int, y: int) -> Option<(u16, u16)> {
    let fmt = tex_format(tex);
    let b = texel_byte(v, tex, x, y);
    let idx = texel_index(fmt, b, texel_x(tex, x));
    let alpha = texel_alpha(fmt, b);
    if fmt == 0 || fmt == 5 || fmt == 7 {
        None
    } else if 2 <= fmt <= 4 && idx == 0 && flag(tex, 0x2000_0000) {
        None
    } else if alpha == 0 {
        None
    } else {
        Some((palette_color(v, fmt, pal, idx), alpha as u16))
    }
}

fn side(field: u32) -> (n: u32)
    requires
        field < 8,
    ensures
        n == side_length(field as int),
        8 <= n <= 1024,
{
    match field {
        0 => 8,
        1 => 16,
        2 => 32,
        3 => 64,
        4 => 128,
        5 => 256,
        6 => 512,
        _ => 1024,
    }
}

proof fn lemma_multiple_vanishes(c: int, m: int, k: int)
    requires
        m > 0,
        m * k == 0x8000_0000,
    ensures
        (c + 0x8000_0000) % m == c % m,
{
    vstd::arithmetic::div_mod::lemma_mod_multiples_vanish(k, c, m);
}

proof fn lemma_offset_mod(c: int, field: int)
    requires
        0 <= field < 8,
    ensures
        (c + 0x8000_0000) % side_length(field) == c % side_length(field),
        (c + 0x8000_0000) % (2 * side_length(field)) == c % (2 * side_length(field)),
{
    lemma_multiple_vanishes(c, 8, 0x1000_0000);
    lemma_multiple_vanishes(c, 16, 0x800_0000);
    lemma_multiple_vanishes(c, 32, 0x400_0000);
    lemma_multiple_vanishes(c, 64, 0x200_0000);
    lemma_multiple_vanishes(c, 128, 0x100_0000);
    lemma_multiple_vanishes(c, 256, 0x80_0000);
    lemma_multiple_vanishes(c, 512, 0x40_0000);
    lemma_multiple_vanishes(c, 1024, 0x20_0000);
    lemma_multiple_vanishes(c, 2048, 0x10_0000);
}

fn wrap(c: i32, field: u32, repeat: bool, flip: bool) -> (r: u32)
    requires
        field < 8,
    ensures
        r == wrapped_coord(c as int, side_length(field as int), repeat, flip),
        r < side_length(field as int),
{
    let n: u32 = side(field);
    if repeat {
        let up: u64 = (c as i64 + 0x8000_0000) as u64;
        proof {
            lemma_offset_mod(c as int, field as int);
        }
        if flip {
            let m: u32 = (up % (2 * n as u64)) as u32;
            if m >= n {
                2 * n - 1 - m
            } else {
                m
            }
        } else {
            (up % n as u64) as u32
        }
    } else if c < 0 {
        0
    } else if c as u32 > n - 1 {
        n - 1
    } else {
        c as u32
    }
}

/// Fetches one texel as color and opacity, none where it is fully transparent.
/// Formats 1 to 4 and 6 are palette formats; the others fetch nothing.
pub fn fetch_texel(vram: &VramManager, tex: u32, pal_base: u32, x: i32, y: i32) -> (r: Option<
    (u16, u16),
>)
    requires
        vram@.wf(),
        palette_fits(vram@, tex, pal_base, x as int, y as int),
    ensures
        r == texel(vram@, tex, pal_base, x as int, y as int),
{
    let wf: u32 = tex / 0x10_0000 % 8;
    let hf: u32 = tex / 0x80_0000 % 8;
    let w: u32 = side(wf);
    let tx: u32 = wrap(x, wf, tex / 0x1_0000 % 2 == 1, tex / 0x4_0000 % 2 == 1);
    let ty: u32 = wrap(y, hf, tex / 0x2_0000 % 2 == 1, tex / 0x8_0000 % 2 == 1);
    let base: u32 = (tex % 0x1_0000) * 8;
    let fmt: u32 = tex / 0x400_0000 % 8;
    let color0_clear: bool = tex / 0x2000_0000 % 2 == 1;
    assert(0 <= ty * w <= 1024 * 1024) by (nonlinear_arith)
        requires
            ty <= 1024,
            w <= 1024,
    ;
    let number: u32 = ty * w + tx;
    let per: u32 = if fmt == 2 {
        4
    } else if fmt == 3 {
        2
    } else {
        1
    };
    if fmt == 0 || fmt == 5 || fmt == 7 {
        return None;
    }
    let b: u8 = vram.read_tex_image(base + number / per);
    let idx: u32 = if fmt == 1 {
        (b % 32) as u32
    } else if fmt == 2 {
        match tx % 4 {
            0 => (b % 4) as u32,
            1 => (b / 4 % 4) as u32,
            2 => (b / 16 % 4) as u32,
            _ => (b / 64) as u32,
        }
    } else if fmt == 3 {
        if tx % 2 == 0 {
            (b % 16) as u32
        } else {
            (b / 16) as u32
        }
    } else if fmt == 4 {
        b as u32
    } else {
        (b % 8) as u32
    };
    if fmt >= 2 && fmt <= 4 && idx == 0 && color0_clear {
        return None;
    }
    let alpha: u16 = if fmt == 1 {
        (b / 32) as u16 * 4 + (b / 32) as u16 / 2
    } else if fmt == 6 {
        (b / 8) as u16
    } else {
        31
    };
    if alpha == 0 {
        return None;
    }
    let at: u32 = if fmt == 2 { pal_base * 8 + idx * 2 } else { pal_base * 16 + idx * 2 };
    let lo: u8 = vram.read_tex_pal(at);
    let hi: u8 = vram.read_tex_pal(at + 1);
    Some((bytes::halfword(lo, hi) % 0x8000, alpha))
}

/// Whether a polygon blends: its texture format carries opacity or its own
/// alpha is below the maximum.
pub open spec fn translucent(tex: u32, alpha: u16) -> bool {
    tex_format(tex) == 1 || tex_format(tex) == 6 || alpha < 31
}

/// Indices among the first `n` polygons that blend, or that do not, in order.
pub open spec fn pass_order(polys: Seq<(u32, u16)>, n: int, blend: bool) -> Seq<usize>
    decreases n,
{
    if n <= 0 {
        Seq::empty()
    } else if translucent(polys[n - 1].0, polys[n - 1].1) == blend {
        pass_order(polys, n - 1, blend).push((n - 1) as usize)
    } else {
        pass_order(polys, n - 1, blend)
    }
}

fn pass(polys: &[(u32, u16)], blend: bool) -> (order: Vec<usize>)
    ensures
        order@ == pass_order(polys@, polys@.len() as int, blend),
{
    let mut order: Vec<usize> = Vec::new();
    let mut i: usize = 0;
    while i < polys.len()
        invariant
            0 <= i <= polys@.len(),
            order@ == pass_order(polys@, i as int, blend),
        decreases polys@.len() - i,
    {
        let (tex, alpha) = polys[i];
        let fmt: u32 = tex / 0x400_0000 % 8;
        if (fmt == 1 || fmt == 6 || alpha < 31) == blend {
            order.push(i);
        }
        i = i + 1;
    }
    order
}

/// Order in which a frame's polygons, given as texture word and alpha, are
/// drawn: all opaque ones first, then the blending ones, each in the order of
/// submission.
pub fn draw_order(polys: &[(u32, u16)]) -> (order: Vec<usize>)
    ensures
        order@ == pass_order(polys@, polys@.len() as int, false) + pass_order(
            polys@,
            polys@.len() as int,
            true,
        ),
{
    let mut order: Vec<usize> = pass(polys, false);
    let mut blended: Vec<usize> = pass(polys, true);
    order.append(&mut blended);
    order
}

proof fn lemma_pass_members(polys: Seq<(u32, u16)>, n: int, blend: bool)
    requires
        0 <= n <= polys.len() <= usize::MAX,
    ensures
        forall|k: int|
            0 <= k < pass_order(polys, n, blend).len() ==> (#[trigger] pass_order(
                polys,
                n,
                blend,
            )[k]) < n,
        forall|i: int|
            0 <= i < n ==> (#[trigger] pass_order(polys, n, blend).contains(i as usize)
                <==> translucent(polys[i].0, polys[i].1) == blend),
        pass_order(polys, n, false).len() + pass_order(polys, n, true).len() == n,
    decreases n,
{
    if n > 0 {
        lemma_pass_members(polys, n - 1, blend);
        lemma_pass_members(polys, n - 1, !blend);
        let s = pass_order(polys, n - 1, blend);
        let t = pass_order(polys, n, blend);
        assert forall|i: int| 0 <= i < n implies (#[trigger] t.contains(i as usize)
            <==> translucent(polys[i].0, polys[i].1) == blend) by {
            if i < n - 1 {
                assert(s.contains(i as usize) <==> translucent(polys[i].0, polys[i].1) == blend);
                if s.contains(i as usize) {
                    let k = choose|k: int| 0 <= k < s.len() && s[k] == i as usize;
                    assert(t[k] == i as usize);
                }
                if t.contains(i as usize) {
                    let k = choose|k: int| 0 <= k < t.len() && t[k] == i as usize;
                    assert(k < s.len());
                    assert(s[k] == i as usize);
                }
            } else {
                if translucent(polys[i].0, polys[i].1) == blend {
                    assert(t[s.len() as int] == i as usize);
                } else if t.contains(i as usize) {
                    let k = choose|k: int| 0 <= k < t.len() && t[k] == i as usize;
                    assert(s[k] < n - 1);
                }
            }
        }
    }
}

/// Every polygon is drawn exactly once: the order has as many entries as there
/// are polygons and names each of them.
pub proof fn law_every_polygon_is_drawn_once(polys: Seq<(u32, u16)>, i: int)
    requires
        0 <= i < polys.len() <= usize::MAX,
    ensures
        ({
            let n = polys.len() as int;
            let order = pass_order(polys, n, false) + pass_order(polys, n, true);
            order.len() == polys.len() && order.contains(i as usize)
        }),
{
    let n = polys.len() as int;
    lemma_pass_members(polys, n, false);
    lemma_pass_members(polys, n, true);
    let a = pass_order(polys, n, false);
    let b = pass_order(polys, n, true);
    if translucent(polys[i].0, polys[i].1) {
        assert(b.contains(i as usize));
        let k = choose|k: int| 0 <= k < b.len() && b[k] == i as usize;
        assert((a + b)[a.len() + k] == i as usize);
    } else {
        assert(a.contains(i as usize));
        let k = choose|k: int| 0 <= k < a.len() && a[k] == i as usize;
        assert((a + b)[k] == i as usize);
    }
}

/// A wrapped coordinate always names a texel of the texture.
pub proof fn law_wrapped_coord_in_range(c: int, field: int, repeat: bool, flip: bool)
    requires
        0 <= field < 8,
    ensures
        0 <= wrapped_coord(c, side_length(field), repeat, flip) < side_length(field),
{
}

/// Mirrored repetition is symmetric about the edge between two copies.
pub proof fn law_mirror_is_symmetric(c: int, field: int)
    requires
        0 <= field < 8,
    ensures
        wrapped_coord(-1 - c, side_length(field), true, true) == wrapped_coord(
            c,
            side_length(field),
            true,
            true,
        ),
{
    let m = 2 * side_length(field);
    let q = c / m;
    let r = c % m;
    vstd::arithmetic::div_mod::lemma_fundamental_div_mod(c, m);
    assert(-1 - c == (-q - 1) * m + (m - 1 - r)) by (nonlinear_arith)
        requires
            c == m * q + r,
    ;
    vstd::arithmetic::div_mod::lemma_fundamental_div_mod_converse(-1 - c, m, -q - 1, m - 1 - r);
}

/// Entry of the census for a texture and a palette, if there is one.
pub open spec fn census_entry(stats: Seq<(u32, u32, u32, u32)>, tex: u32, pal: u32, from: nat) -> nat
    decreases stats.len() - from,
{
    if from >= stats.len() || (stats[from as int].0 == tex && stats[from as int].1 == pal) {
        from
    } else {
        census_entry(stats, tex, pal, from + 1)
    }
}

/// The census after one more texel was fetched: opaque and transparent ones are
/// counted apart, and pairs that find no room are not counted.
pub open spec fn census_noted(
    stats: Seq<(u32, u32, u32, u32)>,
    tex: u32,
    pal: u32,
    opaque: bool,
) -> Seq<(u32, u32, u32, u32)> {
    let i = census_entry(stats, tex, pal, 0) as int;
    if i < stats.len() {
        let e = stats[i];
        if opaque {
            stats.update(i, (e.0, e.1, e.2.wrapping_add(1), e.3))
        } else {
            stats.update(i, (e.0, e.1, e.2, e.3.wrapping_add(1)))
        }
    } else if stats.len() < TEX_STATS_CAP {
        stats.push(
            if opaque {
                (tex, pal, 1, 0)
            } else {
                (tex, pal, 0, 1)
            },
        )
    } else {
        stats
    }
}

/// Counts a fetched texel by its texture and palette.
pub fn note_texel(stats: &mut Vec<(u32, u32, u32, u32)>, tex: u32, pal: u32, opaque: bool)
    ensures
        final(stats)@ == census_noted(old(stats)@, tex, pal, opaque),
{
    let n: usize = stats.len();
    let mut i: usize = 0;
    while i < n && !(stats[i].0 == tex && stats[i].1 == pal)
        invariant
            i <= n,
            n == stats@.len(),
            stats@ == old(stats)@,
            census_entry(stats@, tex, pal, i as nat) == census_entry(stats@, tex, pal, 0),
        decreases n - i,
    {
        i = i + 1;
    }
    if i < n {
        let e: (u32, u32, u32, u32) = stats[i];
        if opaque {
            stats.set(i, (e.0, e.1, e.2.wrapping_add(1), e.3));
        } else {
            stats.set(i, (e.0, e.1, e.2, e.3.wrapping_add(1)));
        }
    } else if n < TEX_STATS_CAP {
        if opaque {
            stats.push((tex, pal, 1, 0));
        } else {
            stats.push((tex, pal, 0, 1));
        }
    }
}

/// The census stays bounded.
pub proof fn law_census_is_bounded(
    stats: Seq<(u32, u32, u32, u32)>,
    tex: u32,
    pal: u32,
    opaque: bool,
)
    requires
        stats.len() <= TEX_STATS_CAP,
    ensures
        census_noted(stats, tex, pal, opaque).len() <= TEX_STATS_CAP,
{
}

proof fn lemma_coord_repeats(c: int, n: int, flip: bool)
    requires
        n > 0,
    ensures
        wrapped_coord(
            c + (if flip {
                2 * n
            } else {
                n
            }),
            n,
            true,
            flip,
        ) == wrapped_coord(c, n, true, flip),
{
    vstd::arithmetic::div_mod::lemma_mod_add_multiples_vanish(c, n);
    vstd::arithmetic::div_mod::lemma_mod_add_multiples_vanish(c, 2 * n);
}

/// Distance after which a texture repeats: its side, or twice that where every
/// other copy is mirrored.
pub open spec fn period(side: int, flip: bool) -> int {
    if flip {
        2 * side
    } else {
        side
    }
}

/// A texture that repeats in a direction repeats with its period there, and where
/// its copies are mirrored each is the image of the one beside it.
pub proof fn law_repeating_texture_has_its_period(v: VramModel, tex: u32, pal: u32, x: int, y: int)
    ensures
        flag(tex, 0x1_0000) ==> texel(
            v,
            tex,
            pal,
            x + period(tex_width(tex), flag(tex, 0x4_0000)),
            y,
        ) == texel(v, tex, pal, x, y),
        flag(tex, 0x2_0000) ==> texel(
            v,
            tex,
            pal,
            x,
            y + period(tex_height(tex), flag(tex, 0x8_0000)),
        ) == texel(v, tex, pal, x, y),
        flag(tex, 0x1_0000) && flag(tex, 0x4_0000) ==> texel(
            v,
            tex,
            pal,
            2 * tex_width(tex) - 1 - x,
            y,
        ) == texel(v, tex, pal, x, y),
        flag(tex, 0x2_0000) && flag(tex, 0x8_0000) ==> texel(
            v,
            tex,
            pal,
            x,
            2 * tex_height(tex) - 1 - y,
        ) == texel(v, tex, pal, x, y),
{
    let w = tex_width(tex);
    let h = tex_height(tex);
    lemma_coord_repeats(x, w, flag(tex, 0x4_0000));
    lemma_coord_repeats(y, h, flag(tex, 0x8_0000));
    lemma_coord_repeats(-1 - x, w, true);
    lemma_coord_repeats(-1 - y, h, true);
    law_mirror_is_symmetric(x, tex as int / 0x10_0000 % 8);
    law_mirror_is_symmetric(y, tex as int / 0x80_0000 % 8);
}

/// Every palette base of 13 bits fits.
pub proof fn law_palette_bases_fit(v: VramModel, tex: u32, pal: u32, x: int, y: int)
    requires
        pal < 0x2000,
    ensures
        palette_fits(v, tex, pal, x, y),
{
}

} // verus!
