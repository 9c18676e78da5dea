//! What a scan line shows, from the bytes in video memory to the pixels.

use vstd::prelude::*;
use crate::bytes;
use crate::mmu::MmuModel;
use crate::ppu::bg;
use crate::ppu::color;
use crate::ppu::line;
use crate::ppu::line::Stack;
use crate::ppu::obj;
use crate::ppu::obj::Sprite;

verus! {

/// Entry `i` of the palette that begins at byte `base`: two bytes, the low one
/// first, 15 bits of them.
pub open spec fn entry(m: MmuModel, base: int, i: int) -> int {
    (m.ram.palette[base + 2 * i] + 0x100 * m.ram.palette[base + 2 * i + 1]) % 0x8000
}

/// First byte of the tiles: the background's own field counts in 16 KiB, and the
/// first engine adds 64 KiB for each step of the field in its display control.
pub open spec fn tiles_at(engine_b: bool, dispcnt: u32, bgcnt: u16) -> int {
    0x4000 * (bgcnt as int / 4 % 16) + (if engine_b {
        0
    } else {
        0x1_0000 * (dispcnt as int / 0x100_0000 % 8)
    })
}

/// A tile of sixteen colors is 32 bytes, four to a row, the left pixel of a pair
/// in the low half of its byte: columns `2j` and `2j + 1` of row `r` show the two
/// halves of byte `4r + j`, out of the palette that the map entry selects. Color
/// number 0 is clear.
#[verifier::rlimit(40)]
#[verifier::spinoff_prover]
pub proof fn law_sixteen_color_tiles(
    m: MmuModel,
    engine_b: bool,
    dispcnt: u32,
    bgcnt: u16,
    map: u16,
    tile: int,
    pal: int,
    xx: int,
    yy: int,
    j: int,
    r: int,
    lo: int,
    hi: int,
)
    requires
        bgcnt / 0x80 % 2 == 0,
        0 <= tile < 0x400,
        0 <= pal < 16,
        map == tile + 0x1000 * pal,
        0 <= j < 4,
        0 <= r < 8,
        xx % 8 == 2 * j,
        yy % 8 == r,
        0 <= lo < 16,
        0 <= hi < 16,
        bg::bg_byte(
            m,
            engine_b,
            (tiles_at(engine_b, dispcnt, bgcnt) + 32 * tile + 4 * r + j) as u32,
        ) == lo + 16 * hi,
    ensures
        ({
            let left = bg::tile_color(m, engine_b, dispcnt, bgcnt, map, xx, yy);
            let right = bg::tile_color(m, engine_b, dispcnt, bgcnt, map, xx + 1, yy);
            let base = if engine_b {
                0x400int
            } else {
                0
            };
            &&& lo == 0 ==> left is None
            &&& lo != 0 ==> (left matches Some(c) && c == entry(m, base, 16 * pal + lo))
            &&& hi == 0 ==> right is None
            &&& hi != 0 ==> (right matches Some(c) && c == entry(m, base, 16 * pal + hi))
        }),
{
    reveal(bg::tile_color);
    assert(map as int % 0x400 == tile && map as int / 0x1000 == pal);
    assert(map / 0x400 % 2 == 0 && map / 0x800 % 2 == 0);
    assert((xx + 1) % 8 == 2 * j + 1);
}

/// A tile of 256 colors is 64 bytes, one to a pixel, row by row, out of the one
/// large palette.
#[verifier::rlimit(40)]
#[verifier::spinoff_prover]
pub proof fn law_byte_tiles(
    m: MmuModel,
    engine_b: bool,
    dispcnt: u32,
    bgcnt: u16,
    map: u16,
    tile: int,
    pal: int,
    xx: int,
    yy: int,
    i: int,
)
    requires
        bgcnt / 0x80 % 2 == 1,
        0 <= tile < 0x400,
        0 <= pal < 16,
        map == tile + 0x1000 * pal,
        bg::bg_byte(
            m,
            engine_b,
            (tiles_at(engine_b, dispcnt, bgcnt) + 64 * tile + 8 * (yy % 8) + xx % 8) as u32,
        ) == i,
    ensures
        ({
            let c = bg::tile_color(m, engine_b, dispcnt, bgcnt, map, xx, yy);
            let base = if engine_b {
                0x400int
            } else {
                0
            };
            &&& i == 0 ==> c is None
            &&& i != 0 ==> (c matches Some(v) && v == entry(m, base, i))
        }),
{
    reveal(bg::tile_color);
    assert(map as int % 0x400 == tile && map as int / 0x1000 == pal);
    assert(map / 0x400 % 2 == 0 && map / 0x800 % 2 == 0);
}

/// Bit 10 of a map entry mirrors its tile left to right and bit 11 top to bottom.
#[verifier::rlimit(40)]
#[verifier::spinoff_prover]
pub proof fn law_flipped_tiles_are_mirrored(
    m: MmuModel,
    engine_b: bool,
    dispcnt: u32,
    bgcnt: u16,
    map: u16,
    h: int,
    v: int,
    xx: int,
    yy: int,
)
    requires
        map / 0x400 % 4 == 0,
        h == 0 || h == 1,
        v == 0 || v == 1,
    ensures
        bg::tile_color(
            m,
            engine_b,
            dispcnt,
            bgcnt,
            (map + 0x400 * h + 0x800 * v) as u16,
            xx,
            yy,
        ) == bg::tile_color(
            m,
            engine_b,
            dispcnt,
            bgcnt,
            map,
            if h == 1 {
                7 - xx % 8
            } else {
                xx
            },
            if v == 1 {
                7 - yy % 8
            } else {
                yy
            },
        ),
{
    reveal(bg::tile_color);
    let f = (map + 0x400 * h + 0x800 * v) as u16;
    lemma_flips(map, f, h, v);
    let a = if h == 1 {
        7 - xx % 8
    } else {
        xx
    };
    let b = if v == 1 {
        7 - yy % 8
    } else {
        yy
    };
    assert(h == 1 ==> a % 8 == 7 - xx % 8);
    assert(v == 1 ==> b % 8 == 7 - yy % 8);
}

proof fn lemma_flips(map: u16, f: u16, h: int, v: int)
    requires
        map / 0x400 % 4 == 0,
        h == 0 || h == 1,
        v == 0 || v == 1,
        f == (map + 0x400 * h + 0x800 * v) as u16,
    ensures
        map / 0x400 % 2 == 0,
        map / 0x800 % 2 == 0,
        f / 0x400 % 2 == h,
        f / 0x800 % 2 == v,
        f as int % 0x400 == map as int % 0x400,
        f as int / 0x1000 == map as int / 0x1000,
{
    let l = map as int % 0x400;
    let p = map as int / 0x1000;
    assert(map == l + 0x1000 * p);
    assert(f == l + 0x400 * h + 0x800 * v + 0x1000 * p);
    assert(f as int / 0x400 == h + 2 * v + 4 * p);
    assert(f as int / 0x800 == v + 2 * p);
}

/// The map is made of blocks of 32 rows of 32 entries, two bytes each. The large
/// maps have the block to the right, or the block below, next; the largest has
/// both, row by row.
#[verifier::rlimit(40)]
#[verifier::spinoff_prover]
pub proof fn law_map_entries_lie_row_by_row(
    m: MmuModel,
    engine_b: bool,
    dispcnt: u32,
    bgcnt: u16,
    bx: int,
    by: int,
    tx: int,
    ty: int,
    px: int,
    py: int,
    block: int,
    at: int,
)
    requires
        0 <= bx < (if bgcnt / 0x4000 % 2 == 1 {
            2int
        } else {
            1
        }),
        0 <= by < (if bgcnt / 0x4000 >= 2 {
            2int
        } else {
            1
        }),
        0 <= tx < 32,
        0 <= ty < 32,
        0 <= px < 8,
        0 <= py < 8,
        block == (if bgcnt / 0x4000 == 3 {
            bx + 2 * by
        } else {
            bx + by
        }),
        at == 0x800 * (bgcnt as int / 0x100 % 32) + (if engine_b {
            0
        } else {
            0x1_0000 * (dispcnt as int / 0x800_0000 % 8)
        }) + 0x800 * block + 64 * ty + 2 * tx,
    ensures
        bg::map_entry(
            m,
            engine_b,
            dispcnt,
            bgcnt,
            256 * bx + 8 * tx + px,
            256 * by + 8 * ty + py,
        ) == bg::bg_byte(m, engine_b, at as u32) + 0x100 * bg::bg_byte(
            m,
            engine_b,
            (at + 1) as u32,
        ),
{
    reveal(bg::map_entry);
    let xx = 256 * bx + 8 * tx + px;
    let yy = 256 * by + 8 * ty + py;
    assert(xx / 8 == 32 * bx + tx && yy / 8 == 32 * by + ty);
    assert(xx / 8 % 32 == tx && yy / 8 % 32 == ty);
    assert(xx / 256 == bx && yy / 256 == by);
}

/// Scrolling moves the picture: with both offsets zero a background shows the map
/// from its corner on, and an offset of `h` shows at column `x` what none shows at
/// `x + h`, and likewise with the rows, around the ends of the map.
#[verifier::rlimit(40)]
#[verifier::spinoff_prover]
pub proof fn law_scrolling_moves_the_map(
    m: MmuModel,
    engine_b: bool,
    b: int,
    dispcnt: u32,
    bgcnt: u16,
    ly: u16,
    x: int,
    w: int,
    h: int,
)
    requires
        0 <= b < 4,
        0 <= x < 256,
        ly < 192,
        w == (if bgcnt / 0x4000 % 2 == 1 {
            512int
        } else {
            256
        }),
        h == (if bgcnt / 0x4000 >= 2 {
            512int
        } else {
            256
        }),
    ensures
        ({
            let o = 4 * b + (if engine_b {
                0x1000int
            } else {
                0
            });
            let xx = (x + m.io9[o + 0x10] + 0x100 * (m.io9[o + 0x11] as int % 2)) % w;
            let yy = (ly + m.io9[o + 0x12] + 0x100 * (m.io9[o + 0x13] as int % 2)) % h;
            bg::bg_color(m, engine_b, b, dispcnt, bgcnt, ly, x) == bg::tile_color(
                m,
                engine_b,
                dispcnt,
                bgcnt,
                bg::map_entry(m, engine_b, dispcnt, bgcnt, xx, yy),
                xx,
                yy,
            )
        }),
{
    reveal(bg::bg_color);
    let o = 4 * b + (if engine_b {
        0x1000int
    } else {
        0
    });
    lemma_nine_bits(m.io9[o + 0x10], m.io9[o + 0x11]);
    lemma_nine_bits(m.io9[o + 0x12], m.io9[o + 0x13]);
}

proof fn lemma_nine_bits(l: u8, h: u8)
    ensures
        bytes::le16(l, h) as int % 512 == l + 0x100 * (h as int % 2),
{
}

/// Sprites of sixteen colors lie as tiles of 32 bytes, those of 256 colors as
/// tiles of 64. In one dimension a sprite's tiles follow each other row by row and
/// the tile number counts in units of 32, 64, 128 or 256 bytes; in two dimensions
/// the rows of tiles are 1024 bytes apart and the number counts in 32 bytes.
#[verifier::rlimit(40)]
#[verifier::spinoff_prover]
pub proof fn law_sprite_tiles(
    sp: Sprite,
    dispcnt: u32,
    tx: int,
    ty: int,
    ix: int,
    iy: int,
    unit: int,
    size: int,
    pitch: int,
)
    requires
        sp.wf(),
        0 <= tx,
        8 * tx + 8 <= sp.w,
        0 <= ty,
        8 * ty + 8 <= sp.h,
        0 <= ix < 8,
        0 <= iy < 8,
        size == (if sp.color256 {
            64int
        } else {
            32
        }),
        unit == (if dispcnt / 0x10 % 2 == 0 {
            32int
        } else if dispcnt / 0x10_0000 % 4 == 3 {
            256
        } else if dispcnt / 0x10_0000 % 4 == 2 {
            128
        } else if dispcnt / 0x10_0000 % 4 == 1 {
            64
        } else {
            32
        }),
        pitch == (if dispcnt / 0x10 % 2 == 0 {
            1024int
        } else {
            size * (sp.w as int / 8)
        }),
    ensures
        sp.offset(dispcnt, (8 * tx + ix) as u32, (8 * ty + iy) as u32) == sp.tile * unit + pitch * ty
            + size * tx + (if sp.color256 {
            8 * iy + ix
        } else {
            4 * iy + ix / 2
        }),
{
    let k = sp.w as int / 8;
    assert(k == 1 || k == 2 || k == 4 || k == 8);
    assert((8 * tx + ix) / 8 == tx && (8 * tx + ix) % 8 == ix);
    assert((8 * ty + iy) / 8 == ty && (8 * ty + iy) % 8 == iy);
    assert((ty * k + tx) * size == size * k * ty + size * tx) by (nonlinear_arith);
    assert(0 <= size * k * ty <= 64 * 8 * 8) by (nonlinear_arith)
        requires
            0 <= ty < 8,
            1 <= k <= 8,
            32 <= size <= 64,
    ;
    assert(0 <= sp.tile * unit <= 0x400 * 256) by (nonlinear_arith)
        requires
            0 <= sp.tile < 0x400,
            32 <= unit <= 256,
    ;
}

/// The left pixel of a pair stands in the low half of its byte, and a sprite's
/// palette field selects sixteen colors out of the 256 of its engine. Color number
/// 0 is clear.
pub proof fn law_sprite_pixels(
    m: MmuModel,
    engine_b: bool,
    dispcnt: u32,
    sp: Sprite,
    x: int,
    px: u32,
    py: u32,
    lo: int,
    hi: int,
)
    requires
        sp.wf(),
        sp.texel(x) == Some((px, py)),
        0 <= lo < 16,
        0 <= hi < 16,
        obj::obj_byte(m, engine_b, sp.offset(dispcnt, px, py)) == lo + 16 * hi,
    ensures
        ({
            let c = obj::sprite_color(m, engine_b, dispcnt, sp, x);
            let base = if engine_b {
                0x600int
            } else {
                0x200
            };
            let i = if sp.color256 {
                lo + 16 * hi
            } else if px % 2 == 0 {
                lo
            } else {
                hi
            };
            &&& i == 0 ==> c is None
            &&& i != 0 && sp.color256 ==> (c matches Some(v) && v == entry(m, base, i))
            &&& i != 0 && !sp.color256 ==> (c matches Some(v) && v == entry(
                m,
                base,
                16 * sp.pal16 + i,
            ))
        }),
{
    let raw = obj::obj_byte(m, engine_b, sp.offset(dispcnt, px, py));
    assert(raw as int % 16 == lo && raw as int / 16 == hi);
}

/// A sprite shows its texels from its left edge on; flips mirror it within its
/// size.
pub proof fn law_sprite_columns(sp: Sprite, i: int)
    requires
        sp.wf(),
        !sp.rotscale,
        0 <= i < sp.w,
    ensures
        sp.texel(sp.x0 + i) matches Some(p) && p.0 + (if sp.hflip {
            i + 1
        } else {
            0
        }) == (if sp.hflip {
            sp.w as int
        } else {
            i
        }) && p.1 + (if sp.vflip {
            sp.row + 1
        } else {
            0
        }) == (if sp.vflip {
            sp.h as int
        } else {
            sp.row as int
        }),
        sp.texel(sp.x0 - 1) is None,
        sp.texel(sp.x0 + sp.w) is None,
{
}

/// A matrix of whole numbers turns and scales a sprite about its middle: with the
/// rows `a b` and `c d`, the place `dx`, `dy` from the middle of the area shows the
/// texel `a dx + b dy`, `c dx + d dy` from the middle of the sprite.
#[verifier::rlimit(40)]
#[verifier::spinoff_prover]
pub proof fn law_matrix_turns_about_the_middle(
    sp: Sprite,
    a: int,
    b: int,
    c: int,
    d: int,
    dx: int,
    dy: int,
)
    requires
        sp.wf(),
        sp.rotscale,
        sp.pa == 256 * a,
        sp.pb == 256 * b,
        sp.pc == 256 * c,
        sp.pd == 256 * d,
        -(sp.aw as int / 2) <= dx < sp.aw as int / 2,
        sp.row == sp.ah as int / 2 + dy,
    ensures
        ({
            let tx = a * dx + b * dy + sp.w as int / 2;
            let ty = c * dx + d * dy + sp.h as int / 2;
            let r = sp.texel(sp.x0 + sp.aw as int / 2 + dx);
            if 0 <= tx < sp.w && 0 <= ty < sp.h {
                r matches Some(p) && p.0 == tx && p.1 == ty
            } else {
                r is None
            }
        }),
{
    lemma_whole(a, b, dx, dy);
    lemma_whole(c, d, dx, dy);
}

proof fn lemma_whole(a: int, b: int, dx: int, dy: int)
    ensures
        ((256 * a) * dx + (256 * b) * dy) / 256 == a * dx + b * dy,
{
    let k = a * dx + b * dy;
    assert((256 * a) * dx + (256 * b) * dy == 256 * k) by (nonlinear_arith)
        requires
            k == a * dx + b * dy,
    ;
}

/// The sizes: squares of 8, 16, 32 and 64; the wide shapes, and the tall ones, which
/// are the wide ones turned.
pub proof fn law_sprite_sizes(size: int)
    requires
        0 <= size < 4,
    ensures
        obj::obj_size(0, size) matches Some(q) && q.0 == q.1 && q.0 == 8
            * vstd::arithmetic::power2::pow2(size as nat),
        (obj::obj_size(1, size), obj::obj_size(2, size)) matches (Some(w), Some(t)) && w.0 == t.1
            && w.1 == t.0 && w.0 == (if size == 0 {
            16int
        } else if size == 3 {
            64
        } else {
            32
        }) && w.0 * w.1 == (if size == 0 {
            128int
        } else if size == 1 {
            256
        } else if size == 2 {
            512
        } else {
            2048
        }),
        obj::obj_size(3, size) is None,
{
    vstd::arithmetic::power2::lemma2_to64();
}

/// The attributes of a sprite: place, size, colors, tile, priority and palette as
/// they were packed into its three halfwords. It is seen on a line as many lines
/// below its top, around the end of 256 lines.
#[verifier::rlimit(60)]
#[verifier::spinoff_prover]
pub proof fn law_sprite_attributes(
    oam: Seq<u8>,
    base: int,
    i: int,
    ly: u16,
    y: int,
    x: int,
    hf: int,
    vf: int,
    shape: int,
    size: int,
    c256: int,
    tile: int,
    prio: int,
    pal: int,
    mode: int,
)
    requires
        0 <= y < 256,
        -256 <= x < 256,
        0 <= hf < 2,
        0 <= vf < 2,
        0 <= shape < 3,
        0 <= size < 4,
        0 <= c256 < 2,
        0 <= tile < 0x400,
        0 <= prio < 4,
        0 <= pal < 16,
        0 <= mode < 2,
        ly < 192,
        obj::half_at(oam, base + i * 8) == y + 0x400 * mode + 0x2000 * c256 + 0x4000 * shape,
        obj::half_at(oam, base + i * 8 + 2) == x % 512 + 0x1000 * hf + 0x2000 * vf + 0x4000 * size,
        obj::half_at(oam, base + i * 8 + 4) == tile + 0x400 * prio + 0x1000 * pal,
    ensures
        ({
            let wh = obj::obj_size(shape, size);
            let row = if ly >= y {
                ly - y
            } else {
                ly - y + 256
            };
            match (wh, obj::sprite_on(oam, base, i, ly)) {
                (Some(q), Some(sp)) => {
                    &&& row < q.1
                    &&& sp.row == row && sp.x0 == x && sp.w == q.0 && sp.h == q.1
                    &&& sp.aw == q.0 && sp.ah == q.1 && !sp.rotscale
                    &&& sp.hflip == (hf == 1) && sp.vflip == (vf == 1)
                    &&& sp.color256 == (c256 == 1) && sp.tile == tile && sp.prio == prio
                    &&& sp.pal16 == pal
                },
                (Some(q), None) => row >= q.1,
                _ => false,
            }
        }),
{
    let a0 = obj::half_at(oam, base + i * 8);
    let a1 = obj::half_at(oam, base + i * 8 + 2);
    let a2 = obj::half_at(oam, base + i * 8 + 4);
    lemma_attribute0(a0, y, mode, c256, shape);
    lemma_attribute1(a1, x, hf, vf, size);
    lemma_attribute2(a2, tile, prio, pal);
}

proof fn lemma_attribute0(a: u16, y: int, mode: int, c256: int, shape: int)
    requires
        0 <= y < 256,
        0 <= mode < 2,
        0 <= c256 < 2,
        0 <= shape < 3,
        a == y + 0x400 * mode + 0x2000 * c256 + 0x4000 * shape,
    ensures
        a as int % 256 == y,
        a / 0x100 % 2 == 0,
        a / 0x200 % 2 == 0,
        a / 0x400 % 4 == mode,
        a / 0x2000 % 2 == c256,
        a as int / 0x4000 == shape,
{
}

proof fn lemma_attribute1(a: u16, x: int, hf: int, vf: int, size: int)
    requires
        -256 <= x < 256,
        0 <= hf < 2,
        0 <= vf < 2,
        0 <= size < 4,
        a == x % 512 + 0x1000 * hf + 0x2000 * vf + 0x4000 * size,
    ensures
        a % 0x200 == x % 512,
        a / 0x1000 % 2 == hf,
        a / 0x2000 % 2 == vf,
        a as int / 0x4000 == size,
        x % 512 == x || x % 512 == x + 512,
{
    let m = x % 512;
    assert(0 <= m < 512);
    assert(a as int / 0x1000 == hf + 2 * vf + 4 * size);
}

proof fn lemma_attribute2(a: u16, tile: int, prio: int, pal: int)
    requires
        0 <= tile < 0x400,
        0 <= prio < 4,
        0 <= pal < 16,
        a == tile + 0x400 * prio + 0x1000 * pal,
    ensures
        a % 0x400 == tile,
        a / 0x400 % 4 == prio,
        a / 0x1000 == pal,
{
}

/// A window holds the pixels from its left edge up to its right one, on the lines
/// from its top up to its bottom; where an edge comes before the other it goes
/// around the end.
#[verifier::rlimit(40)]
#[verifier::spinoff_prover]
pub proof fn law_window_rectangle(
    m: MmuModel,
    engine_b: bool,
    dispcnt: u32,
    w: int,
    ly: u16,
    x: int,
    x1: int,
    x2: int,
    y1: int,
    y2: int,
)
    requires
        w == 0 || w == 1,
        ({
            let o = 2 * w + (if engine_b {
                0x1000int
            } else {
                0
            });
            &&& m.io9[o + 0x40] == x2 && m.io9[o + 0x41] == x1
            &&& m.io9[o + 0x44] == y2 && m.io9[o + 0x45] == y1
        }),
    ensures
        line::in_window(m, engine_b, dispcnt, w, ly, x) == ((if w == 0 {
            dispcnt / 0x2000 % 2 == 1
        } else {
            dispcnt / 0x4000 % 2 == 1
        }) && ((x1 <= x && x < x2) || (x2 < x1 && (x1 <= x || x < x2))) && ((y1 <= ly && ly < y2)
            || (y2 < y1 && (y1 <= ly || ly < y2)))),
{
    let o = 2 * w + (if engine_b {
        0x1000int
    } else {
        0
    });
    lemma_two_bytes(m.io9[o + 0x40], m.io9[o + 0x41]);
    lemma_two_bytes(m.io9[o + 0x44], m.io9[o + 0x45]);
}

proof fn lemma_two_bytes(l: u8, h: u8)
    ensures
        bytes::le16(l, h) as int % 0x100 == l,
        bytes::le16(l, h) as int / 0x100 == h,
        bytes::le16(l, h) as int % 64 == l as int % 64,
        bytes::le16(l, h) as int / 0x100 % 64 == h as int % 64,
{
}

/// The first window is asked first, then the second, and what lies in neither is
/// outside. Each has six bits of its own in the window registers.
pub proof fn law_windows_are_asked_in_order(
    m: MmuModel,
    engine_b: bool,
    dispcnt: u32,
    ly: u16,
    x: int,
)
    requires
        dispcnt / 0x2000 % 4 != 0,
    ensures
        ({
            let o = if engine_b {
                0x1000int
            } else {
                0
            };
            let first = line::in_window(m, engine_b, dispcnt, 0, ly, x);
            let second = line::in_window(m, engine_b, dispcnt, 1, ly, x);
            let k = line::window_mask(m, engine_b, dispcnt, ly, x);
            &&& first ==> k == m.io9[o + 0x48] as int % 64
            &&& !first && second ==> k == m.io9[o + 0x49] as int % 64
            &&& !first && !second ==> k == m.io9[o + 0x4A] as int % 64
        }),
{
    let o = if engine_b {
        0x1000int
    } else {
        0
    };
    lemma_two_bytes(m.io9[o + 0x48], m.io9[o + 0x49]);
    lemma_two_bytes(m.io9[o + 0x4A], m.io9[o + 0x4B]);
}

/// Each channel of a blend is the sum of the two, weighted in sixteenths and
/// rounded down, and stops at full.
pub proof fn law_blend_channels(
    r: int,
    g: int,
    b: int,
    s: int,
    h: int,
    c: int,
    ea: int,
    eb: int,
    top: u16,
    under: u16,
)
    requires
        0 <= r < 32,
        0 <= g < 32,
        0 <= b < 32,
        0 <= s < 32,
        0 <= h < 32,
        0 <= c < 32,
        0 <= ea <= 16,
        0 <= eb <= 16,
        top == r + 32 * g + 1024 * b,
        under == s + 32 * h + 1024 * c,
    ensures
        color::blended(top, under, ea, eb) == least((ea * r + eb * s) / 16) + 32 * least(
            (ea * g + eb * h) / 16,
        ) + 1024 * least((ea * b + eb * c) / 16),
{
    lemma_channels(r, g, b, top);
    lemma_channels(s, h, c, under);
    lemma_weights(r, s, ea, eb);
    lemma_weights(g, h, ea, eb);
    lemma_weights(b, c, ea, eb);
}

/// A value, or 31 where it is larger.
pub open spec fn least(v: int) -> int {
    if v < 31 {
        v
    } else {
        31
    }
}

proof fn lemma_channels(r: int, g: int, b: int, c: u16)
    requires
        0 <= r < 32,
        0 <= g < 32,
        0 <= b < 32,
        c == r + 32 * g + 1024 * b,
    ensures
        color::channel(c, 0) == r,
        color::channel(c, 1) == g,
        color::channel(c, 2) == b,
{
    assert(c as int / 32 == g + 32 * b);
}

proof fn lemma_weights(t: int, u: int, ea: int, eb: int)
    requires
        0 <= t < 32,
        0 <= u < 32,
        0 <= ea <= 16,
        0 <= eb <= 16,
    ensures
        color::weighted(t, u, ea, eb) == least((ea * t + eb * u) / 16),
        0 <= color::weighted(t, u, ea, eb) < 32,
{
    assert(ea * t == t * ea && eb * u == u * eb && 0 <= t * ea && 0 <= u * eb) by (nonlinear_arith)
        requires
            0 <= t,
            0 <= u,
            0 <= ea,
            0 <= eb,
    ;
}

/// Fading takes each channel the same fraction of its way to full, or to zero, in
/// sixteenths: the rest of the way is left, up to rounding.
pub proof fn law_fades_are_proportional(r: int, g: int, b: int, f: int, c: u16)
    requires
        0 <= r < 32,
        0 <= g < 32,
        0 <= b < 32,
        0 <= f <= 16,
        c == r + 32 * g + 1024 * b,
    ensures
        ({
            let up = color::brightened(c, f) as int;
            let down = color::darkened(c, f) as int;
            &&& up == (r + f * (31 - r) / 16) + 32 * (g + f * (31 - g) / 16) + 1024 * (b + f * (31
                - b) / 16)
            &&& down == (r - f * r / 16) + 32 * (g - f * g / 16) + 1024 * (b - f * b / 16)
        }),
{
    lemma_channels(r, g, b, c);
    lemma_fade(r, f);
    lemma_fade(g, f);
    lemma_fade(b, f);
}

proof fn lemma_fade(v: int, f: int)
    requires
        0 <= v < 32,
        0 <= f <= 16,
    ensures
        color::toward_full(v, f) == v + f * (31 - v) / 16,
        color::toward_zero(v, f) == v - f * v / 16,
        0 <= color::toward_full(v, f) < 32,
        0 <= color::toward_zero(v, f) < 32,
{
    assert(f * (31 - v) == (31 - v) * f && f * v == v * f && 0 <= v * f <= 16 * v && 0 <= (31 - v)
        * f <= 16 * (31 - v)) by (nonlinear_arith)
        requires
            0 <= v < 32,
            0 <= f <= 16,
    ;
}

/// The color effects: bits 0 to 5 of the control register name the layers that
/// change, bits 6 and 7 say how, and bits 8 to 13 name the layers that may show
/// through. The first weight goes with the layer on top.
#[verifier::rlimit(40)]
#[verifier::spinoff_prover]
pub proof fn law_color_effects(
    m: MmuModel,
    engine_b: bool,
    mask: int,
    s: Stack,
    first: int,
    effect: int,
    second: int,
    ea: int,
    eb: int,
    ey: int,
)
    requires
        ({
            let o = if engine_b {
                0x1000int
            } else {
                0
            };
            &&& m.io9[o + 0x50] == first + 64 * effect
            &&& m.io9[o + 0x51] == second
            &&& m.io9[o + 0x52] == ea
            &&& m.io9[o + 0x53] == eb
            &&& m.io9[o + 0x54] == ey
        }),
        0 <= first < 64,
        0 <= effect < 4,
        0 <= second < 64,
        0 <= ea <= 16,
        0 <= eb <= 16,
        0 <= ey <= 16,
        s.layer < 6,
        s.under_layer < 6,
        0 <= mask < 64,
    ensures
        ({
            let r = line::with_effect(m, engine_b, mask, s);
            let hit = named(first, s.layer as int) && mask >= 32;
            &&& !hit || effect == 0 ==> r == s.top
            &&& hit && effect == 1 && named(second, s.under_layer as int) ==> r == color::blended(
                s.top,
                s.under,
                ea,
                eb,
            )
            &&& hit && effect == 1 && !named(second, s.under_layer as int) ==> r == s.top
            &&& hit && effect == 2 ==> r == color::brightened(s.top, ey)
            &&& hit && effect == 3 ==> r == color::darkened(s.top, ey)
        }),
{
    reveal(line::with_effect);
    let o = if engine_b {
        0x1000int
    } else {
        0
    };
    let bld = bytes::le16(m.io9[o + 0x50], m.io9[o + 0x51]);
    assert(bld as int % 64 == first && bld as int / 64 % 4 == effect && bld as int / 0x100 % 64
        == second);
    lemma_two_bytes(m.io9[o + 0x52], m.io9[o + 0x53]);
    let alpha = bytes::le16(m.io9[o + 0x52], m.io9[o + 0x53]);
    assert(alpha as int % 32 == ea && alpha as int / 0x100 % 32 == eb);
    lemma_named(first, s.layer as int);
    lemma_named(second, s.under_layer as int);
    lemma_named(mask, 5);
}

/// Whether a layer is named in a set of bits: taking its bit, `2^k`, away leaves the
/// others.
pub open spec fn named(set: int, k: int) -> bool {
    set / vstd::arithmetic::power2::pow2(k as nat) as int % 2 == 1
}

proof fn lemma_named(set: int, k: int)
    requires
        0 <= set < 64,
        0 <= k < 6,
    ensures
        named(set, k) == line::bit_of(set, k),
        k == 5 ==> named(set, k) == (set >= 32),
{
    vstd::arithmetic::power2::lemma2_to64();
    if k == 0 {
        assert(vstd::arithmetic::power2::pow2(k as nat) == 1);
    } else if k == 1 {
        assert(vstd::arithmetic::power2::pow2(k as nat) == 2);
    } else if k == 2 {
        assert(vstd::arithmetic::power2::pow2(k as nat) == 4);
    } else if k == 3 {
        assert(vstd::arithmetic::power2::pow2(k as nat) == 8);
    } else if k == 4 {
        assert(vstd::arithmetic::power2::pow2(k as nat) == 16);
    } else {
        assert(vstd::arithmetic::power2::pow2(k as nat) == 32);
    }
}

/// Whether a layer shows something at a pixel: 0 to 3 the backgrounds, 4 the
/// sprites.
pub open spec fn shows(
    m: MmuModel,
    engine_b: bool,
    dispcnt: u32,
    ly: u16,
    x: int,
    sprite: (u16, u8),
    k: int,
) -> bool {
    let mask = line::window_mask(m, engine_b, dispcnt, ly, x);
    if k == 4 {
        sprite.1 < 4 && line::bit_of(mask, 4)
    } else {
        line::bg_on(dispcnt, k) && line::bit_of(mask, k) && line::layer_color(
            m,
            engine_b,
            dispcnt,
            k,
            ly,
            x,
        ) is Some
    }
}

/// How far back a layer lies: by priority, a sprite before the backgrounds of its
/// own, and backgrounds of one priority by their number. The backdrop is last.
pub open spec fn depth(m: MmuModel, engine_b: bool, sprite: (u16, u8), k: int) -> int {
    if k == 5 {
        100
    } else if k == 4 {
        10 * sprite.1
    } else {
        10 * (bg::reg16(m, engine_b, 8 + k * 2) as int % 4) + 1 + k
    }
}

/// The color on top of a pixel is that of the foremost layer that shows something
/// there, or the backdrop where none does.
#[verifier::rlimit(100)]
#[verifier::spinoff_prover]
pub proof fn law_foremost_layer_is_on_top(
    m: MmuModel,
    engine_b: bool,
    dispcnt: u32,
    ly: u16,
    x: int,
    sprite: (u16, u8),
    k: int,
)
    requires
        0 <= k <= 4,
        shows(m, engine_b, dispcnt, ly, x, sprite, k),
    ensures
        ({
            let s = line::composed(m, engine_b, dispcnt, ly, x, sprite);
            let t = s.layer as int;
            &&& t <= 4
            &&& shows(m, engine_b, dispcnt, ly, x, sprite, t)
            &&& depth(m, engine_b, sprite, t) <= depth(m, engine_b, sprite, k)
            &&& t == 4 ==> s.top == sprite.0
            &&& t < 4 ==> line::layer_color(m, engine_b, dispcnt, t, ly, x) == Some(s.top)
        }),
{
    reveal(line::after_prio);
}

/// Where no layer shows anything, the backdrop is seen, which is the first color of
/// the engine's palette.
#[verifier::rlimit(60)]
#[verifier::spinoff_prover]
pub proof fn law_backdrop_is_behind_everything(
    m: MmuModel,
    engine_b: bool,
    dispcnt: u32,
    ly: u16,
    x: int,
    sprite: (u16, u8),
)
    requires
        forall|k: int| 0 <= k <= 4 ==> !#[trigger] shows(m, engine_b, dispcnt, ly, x, sprite, k),
    ensures
        line::composed(m, engine_b, dispcnt, ly, x, sprite).layer == 5,
        line::composed(m, engine_b, dispcnt, ly, x, sprite).top == entry(
            m,
            if engine_b {
                0x400
            } else {
                0
            },
            0,
        ),
{
    reveal(line::after_prio);
    assert(!shows(m, engine_b, dispcnt, ly, x, sprite, 0));
    assert(!shows(m, engine_b, dispcnt, ly, x, sprite, 1));
    assert(!shows(m, engine_b, dispcnt, ly, x, sprite, 2));
    assert(!shows(m, engine_b, dispcnt, ly, x, sprite, 3));
    assert(!shows(m, engine_b, dispcnt, ly, x, sprite, 4));
}

/// The 3D layer stands in for the first background of the first engine, where the
/// top bit of its pixels says that there is something.
pub proof fn law_geometry_is_a_background(m: MmuModel, dispcnt: u32, ly: u16, x: int, c: int)
    requires
        dispcnt / 8 % 2 == 1,
        0 <= c < 0x8000,
        0 <= x < 256,
    ensures
        m.gx.engine.fb[256 * ly + x] == 0x8000 + c ==> (line::layer_color(
            m,
            false,
            dispcnt,
            0,
            ly,
            x,
        ) matches Some(v) && v == c),
        m.gx.engine.fb[256 * ly + x] < 0x8000 ==> line::layer_color(m, false, dispcnt, 0, ly, x)
            is None,
{
}

/// What an engine shows: white while it is off, the composed line in mode 1, a bank
/// of 256 columns of halfwords in mode 2. The master brightness comes last: up in
/// mode 1, down in mode 2, by a factor in sixteenths.
#[verifier::rlimit(40)]
#[verifier::spinoff_prover]
pub proof fn law_display_modes(
    m: MmuModel,
    engine_b: bool,
    ly: u16,
    x: int,
    d: u32,
    f: int,
    mode: int,
)
    requires
        ({
            let o = if engine_b {
                0x1000int
            } else {
                0
            };
            &&& d == m.io9[o] + 0x100 * m.io9[o + 1] + 0x1_0000 * m.io9[o + 2] + 0x100_0000
                * m.io9[o + 3]
            &&& m.io9[o + 0x6C] == f
            &&& m.io9[o + 0x6D] == 64 * mode
        }),
        0 <= f <= 16,
        0 <= mode < 4,
        0 <= x < 256,
        ly < 192,
    ensures
        ({
            let p = line::engine_pixel(m, engine_b, ly, x);
            let shown = d as int / 0x1_0000 % 4;
            let at = 0x2_0000 * (d as int / 0x4_0000 % 4) + 512 * ly + 2 * x;
            let plain = if shown == 0 {
                0x7FFFu16
            } else if shown == 1 {
                line::graphics_pixel(
                    m,
                    engine_b,
                    d,
                    ly,
                    x,
                    if d / 0x1000 % 2 == 1 {
                        obj::obj_pixel(m, engine_b, d, ly, 128, x)
                    } else {
                        (0u16, 0xFFu8)
                    },
                )
            } else if shown == 2 {
                ((m.vram.byte_at(m.vram.lcdc_slot(at as u32)) + 0x100 * m.vram.byte_at(
                    m.vram.lcdc_slot((at + 1) as u32),
                )) % 0x8000) as u16
            } else {
                entry(
                    m,
                    if engine_b {
                        0x400
                    } else {
                        0
                    },
                    0,
                ) as u16
            };
            &&& mode == 0 || mode == 3 || f == 0 ==> p == plain
            &&& mode == 1 && f > 0 ==> p == color::brightened(plain, f)
            &&& mode == 2 && f > 0 ==> p == color::darkened(plain, f)
        }),
{
    reveal(line::engine_pixel);
    let o = if engine_b {
        0x1000int
    } else {
        0
    };
    lemma_two_bytes(m.io9[o + 0x6C], m.io9[o + 0x6D]);
    let v = bytes::le16(m.io9[o + 0x6C], m.io9[o + 0x6D]);
    assert(v as int % 32 == f && v as int / 0x4000 == mode);
}

} // verus!
