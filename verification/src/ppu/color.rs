//! Fifteen-bit colors and the arithmetic on them.

use vstd::prelude::*;

verus! {

/// Channel `k` of a color: red, green, blue.
pub open spec fn channel(c: u16, k: int) -> int {
    if k == 0 {
        c as int % 32
    } else if k == 1 {
        c as int / 32 % 32
    } else {
        c as int / 1024 % 32
    }
}

/// The color with the given channels.
pub open spec fn rgb(r: int, g: int, b: int) -> u16 {
    (r + g * 32 + b * 1024) as u16
}

/// A channel moved toward full by `f` sixteenths.
pub open spec fn toward_full(v: int, f: int) -> int {
    v + (31 - v) * f / 16
}

/// A channel moved toward zero by `f` sixteenths.
pub open spec fn toward_zero(v: int, f: int) -> int {
    v - v * f / 16
}

/// Two channels weighted in sixteenths, limited to full.
pub open spec fn weighted(t: int, u: int, eva: int, evb: int) -> int {
    let s = (t * eva + u * evb) / 16;
    if s > 31 {
        31
    } else {
        s
    }
}

pub open spec fn brightened(c: u16, f: int) -> u16 {
    rgb(toward_full(channel(c, 0), f), toward_full(channel(c, 1), f), toward_full(channel(c, 2), f))
}

pub open spec fn darkened(c: u16, f: int) -> u16 {
    rgb(toward_zero(channel(c, 0), f), toward_zero(channel(c, 1), f), toward_zero(channel(c, 2), f))
}

pub open spec fn blended(top: u16, under: u16, eva: int, evb: int) -> u16 {
    rgb(
        weighted(channel(top, 0), channel(under, 0), eva, evb),
        weighted(channel(top, 1), channel(under, 1), eva, evb),
        weighted(channel(top, 2), channel(under, 2), eva, evb),
    )
}

proof fn lemma_scale_bounds(v: int, f: int)
    requires
        0 <= v <= 31,
        0 <= f <= 16,
    ensures
        0 <= v * f <= v * 16,
        0 <= v * f / 16 <= v,
{
    assert(0 <= v * f <= v * 16) by (nonlinear_arith)
        requires
            0 <= v <= 31,
            0 <= f <= 16,
    ;
}

fn up(v: u32, f: u32) -> (r: u32)
    requires
        v <= 31,
        f <= 16,
    ensures
        r == toward_full(v as int, f as int),
        r <= 31,
{
    proof {
        lemma_scale_bounds(31 - v, f as int);
    }
    v + (31 - v) * f / 16
}

fn down(v: u32, f: u32) -> (r: u32)
    requires
        v <= 31,
        f <= 16,
    ensures
        r == toward_zero(v as int, f as int),
        r <= 31,
{
    proof {
        lemma_scale_bounds(v as int, f as int);
    }
    v - v * f / 16
}

fn mix(t: u32, u: u32, eva: u32, evb: u32) -> (r: u32)
    requires
        t <= 31,
        u <= 31,
        eva <= 0x3FF_FFFF,
        evb <= 0x3FF_FFFF,
    ensures
        r == weighted(t as int, u as int, eva as int, evb as int),
        r <= 31,
{
    assert(0 <= t * eva <= 31 * 0x3FF_FFFF) by (nonlinear_arith)
        requires
            0 <= t <= 31,
            0 <= eva <= 0x3FF_FFFF,
    ;
    assert(0 <= u * evb <= 31 * 0x3FF_FFFF) by (nonlinear_arith)
        requires
            0 <= u <= 31,
            0 <= evb <= 0x3FF_FFFF,
    ;
    let s: u32 = (t * eva + u * evb) / 16;
    if s > 31 {
        31
    } else {
        s
    }
}

fn pack(r: u32, g: u32, b: u32) -> (c: u16)
    requires
        r <= 31,
        g <= 31,
        b <= 31,
    ensures
        c == rgb(r as int, g as int, b as int),
{
    (r + g * 32 + b * 1024) as u16
}

/// Moves a color toward white by `f` sixteenths.
pub fn brighten(c: u16, f: u32) -> (r: u16)
    requires
        f <= 16,
    ensures
        r == brightened(c, f as int),
{
    let v: u32 = c as u32;
    pack(up(v % 32, f), up(v / 32 % 32, f), up(v / 1024 % 32, f))
}

/// Moves a color toward black by `f` sixteenths.
pub fn darken(c: u16, f: u32) -> (r: u16)
    requires
        f <= 16,
    ensures
        r == darkened(c, f as int),
{
    let v: u32 = c as u32;
    pack(down(v % 32, f), down(v / 32 % 32, f), down(v / 1024 % 32, f))
}

/// Blends two colors, weighted in sixteenths.
pub fn blend(top: u16, under: u16, eva: u32, evb: u32) -> (r: u16)
    requires
        eva <= 0x3FF_FFFF,
        evb <= 0x3FF_FFFF,
    ensures
        r == blended(top, under, eva as int, evb as int),
{
    let t: u32 = top as u32;
    let u: u32 = under as u32;
    pack(
        mix(t % 32, u % 32, eva, evb),
        mix(t / 32 % 32, u / 32 % 32, eva, evb),
        mix(t / 1024 % 32, u / 1024 % 32, eva, evb),
    )
}

/// A full fade reaches white and black, and a fade by nothing keeps the color.
pub proof fn law_fades_reach_their_ends(c: u16)
    ensures
        brightened(c, 16) == 0x7FFF,
        darkened(c, 16) == 0,
        c < 0x8000 ==> brightened(c, 0) == c,
        c < 0x8000 ==> darkened(c, 0) == c,
{
}

/// Full weight on one side shows that side alone, and blending white with white
/// saturates.
pub proof fn law_blend_ends(top: u16, under: u16)
    requires
        top < 0x8000,
        under < 0x8000,
    ensures
        blended(top, under, 16, 0) == top,
        blended(top, under, 0, 16) == under,
        blended(0x7FFF, 0x7FFF, 16, 16) == 0x7FFF,
{
}

} // verus!
