//! Little-endian composition of words from bytes.

use vstd::prelude::*;

verus! {

/// Byte `k` of a word, byte 0 being the least significant.
pub open spec fn byte_of(v: u32, k: int) -> u8 {
    if k == 0 {
        (v % 0x100) as u8
    } else if k == 1 {
        (v / 0x100 % 0x100) as u8
    } else if k == 2 {
        (v / 0x1_0000 % 0x100) as u8
    } else {
        (v / 0x100_0000) as u8
    }
}

/// `v` with byte `k` replaced.
pub open spec fn set_byte(v: u32, k: int, b: u8) -> u32 {
    if k == 0 {
        (v - v % 0x100 + b) as u32
    } else if k == 1 {
        (v - byte_of(v, 1) * 0x100 + b * 0x100) as u32
    } else if k == 2 {
        (v - byte_of(v, 2) * 0x1_0000 + b * 0x1_0000) as u32
    } else {
        (v % 0x100_0000 + b * 0x100_0000) as u32
    }
}

/// The word that four bytes spell.
pub open spec fn le32(b0: u8, b1: u8, b2: u8, b3: u8) -> u32 {
    (b0 + b1 * 0x100 + b2 * 0x1_0000 + b3 * 0x100_0000) as u32
}

/// Low byte of a halfword.
pub open spec fn lo(v: u16) -> u8 {
    (v % 0x100) as u8
}

/// High byte of a halfword.
pub open spec fn hi(v: u16) -> u8 {
    (v / 0x100) as u8
}

/// The halfword that two bytes spell.
pub open spec fn le16(b0: u8, b1: u8) -> u16 {
    (b0 + b1 * 0x100) as u16
}

pub fn get_byte(v: u32, k: u32) -> (b: u8)
    requires
        k < 4,
    ensures
        b == byte_of(v, k as int),
{
    if k == 0 {
        (v % 0x100) as u8
    } else if k == 1 {
        (v / 0x100 % 0x100) as u8
    } else if k == 2 {
        (v / 0x1_0000 % 0x100) as u8
    } else {
        (v / 0x100_0000) as u8
    }
}

pub fn put_byte(v: u32, k: u32, b: u8) -> (r: u32)
    requires
        k < 4,
    ensures
        r == set_byte(v, k as int, b),
{
    if k == 0 {
        v - v % 0x100 + b as u32
    } else if k == 1 {
        v - (v / 0x100 % 0x100) * 0x100 + b as u32 * 0x100
    } else if k == 2 {
        v - (v / 0x1_0000 % 0x100) * 0x1_0000 + b as u32 * 0x1_0000
    } else {
        v % 0x100_0000 + b as u32 * 0x100_0000
    }
}

pub fn word(b0: u8, b1: u8, b2: u8, b3: u8) -> (v: u32)
    ensures
        v == le32(b0, b1, b2, b3),
{
    b0 as u32 + b1 as u32 * 0x100 + b2 as u32 * 0x1_0000 + b3 as u32 * 0x100_0000
}

pub fn low_byte(v: u16) -> (b: u8)
    ensures
        b == lo(v),
{
    (v % 0x100) as u8
}

pub fn high_byte(v: u16) -> (b: u8)
    ensures
        b == hi(v),
{
    (v / 0x100) as u8
}

pub fn halfword(b0: u8, b1: u8) -> (v: u16)
    ensures
        v == le16(b0, b1),
{
    b0 as u16 + b1 as u16 * 0x100
}

/// Weight of byte `k` of a doubleword.
pub open spec fn weight64(k: int) -> int {
    if k == 0 {
        1
    } else if k == 1 {
        0x100
    } else if k == 2 {
        0x1_0000
    } else if k == 3 {
        0x100_0000
    } else if k == 4 {
        0x1_0000_0000
    } else if k == 5 {
        0x100_0000_0000
    } else if k == 6 {
        0x1_0000_0000_0000
    } else {
        0x100_0000_0000_0000
    }
}

/// Byte `k` of a doubleword.
pub open spec fn byte64_of(v: u64, k: int) -> u8 {
    (v as int / weight64(k) % 0x100) as u8
}

/// `v` with byte `k` replaced.
pub open spec fn set_byte64(v: u64, k: int, b: u8) -> u64 {
    (v - byte64_of(v, k) * weight64(k) + b * weight64(k)) as u64
}

fn weight(k: u32) -> (w: u64)
    requires
        k < 8,
    ensures
        w == weight64(k as int),
{
    match k {
        0 => 1,
        1 => 0x100,
        2 => 0x1_0000,
        3 => 0x100_0000,
        4 => 0x1_0000_0000,
        5 => 0x100_0000_0000,
        6 => 0x1_0000_0000_0000,
        _ => 0x100_0000_0000_0000,
    }
}

pub fn get_byte64(v: u64, k: u32) -> (b: u8)
    requires
        k < 8,
    ensures
        b == byte64_of(v, k as int),
{
    (v / weight(k) % 0x100) as u8
}

proof fn lemma_set_byte64_fits(v: u64, k: int, b: u8)
    requires
        0 <= k < 8,
    ensures
        0 <= byte64_of(v, k) * weight64(k) <= v,
        0 <= v - byte64_of(v, k) * weight64(k) + b * weight64(k) <= u64::MAX,
        0 <= b * weight64(k) <= u64::MAX,
{
    let w = weight64(k);
    let q = v as int / w;
    let r = v as int % w;
    let d = q % 0x100;
    let h = q / 0x100;
    let top = 0x100_0000_0000_0000int / w;
    assert(top * w == 0x100_0000_0000_0000int && top >= 1);
    vstd::arithmetic::div_mod::lemma_fundamental_div_mod(v as int, w);
    assert(q == h * 0x100 + d);
    assert(v == (h * 0x100 + d) * w + r) by (nonlinear_arith)
        requires
            v == w * q + r,
            q == h * 0x100 + d,
    ;
    assert((h * 0x100 + d) * w == h * 0x100 * w + d * w) by (nonlinear_arith);
    assert((h * 0x100 + b) * w == h * 0x100 * w + b * w) by (nonlinear_arith);
    assert(h < top) by (nonlinear_arith)
        requires
            v <= u64::MAX,
            v == h * 0x100 * w + d * w + r,
            d >= 0,
            r >= 0,
            w >= 1,
            top * w == 0x100_0000_0000_0000int,
    ;
    assert(h * 0x100 * w + b * w + r <= u64::MAX) by (nonlinear_arith)
        requires
            h + 1 <= top,
            b <= 0xFF,
            r < w,
            w >= 1,
            top * w == 0x100_0000_0000_0000int,
    ;
    assert(0 <= d * w && 0 <= b * w && 0 <= h * 0x100 * w && b * w <= 0xFF * w) by (nonlinear_arith)
        requires
            d >= 0,
            0 <= b <= 0xFF,
            h >= 0,
            w >= 1,
    ;
}

pub fn put_byte64(v: u64, k: u32, b: u8) -> (r: u64)
    requires
        k < 8,
    ensures
        r == set_byte64(v, k as int, b),
{
    proof {
        lemma_set_byte64_fits(v, k as int, b);
    }
    let w: u64 = weight(k);
    v - (v / w % 0x100) * w + b as u64 * w
}

/// Splitting a word into bytes and composing them again changes nothing.
pub proof fn law_split_then_compose(v: u32)
    ensures
        le32(byte_of(v, 0), byte_of(v, 1), byte_of(v, 2), byte_of(v, 3)) == v,
{
    let q1 = v as int / 0x100;
    let q2 = v as int / 0x1_0000;
    let q3 = v as int / 0x100_0000;
    assert(q2 == q1 / 0x100 && q3 == q2 / 0x100);
    assert(v == q1 * 0x100 + byte_of(v, 0));
    assert(q1 == q2 * 0x100 + byte_of(v, 1));
    assert(q2 == q3 * 0x100 + byte_of(v, 2));
}

/// Composing bytes and splitting the word again gives the bytes back.
pub proof fn law_compose_then_split(b0: u8, b1: u8, b2: u8, b3: u8)
    ensures
        byte_of(le32(b0, b1, b2, b3), 0) == b0,
        byte_of(le32(b0, b1, b2, b3), 1) == b1,
        byte_of(le32(b0, b1, b2, b3), 2) == b2,
        byte_of(le32(b0, b1, b2, b3), 3) == b3,
{
    let v = le32(b0, b1, b2, b3);
    let q1 = b1 + b2 * 0x100 + b3 * 0x1_0000;
    let q2 = b2 + b3 * 0x100;
    assert(v == b0 + 0x100 * q1 && q1 == b1 + 0x100 * q2);
    assert(v as int / 0x100 == q1);
    assert(q1 / 0x100 == q2 && v as int / 0x1_0000 == q2);
    assert(v as int / 0x100_0000 == b3);
}

/// The same for a halfword.
pub proof fn law_halfword_round_trip(b0: u8, b1: u8, v: u16)
    ensures
        lo(le16(b0, b1)) == b0,
        hi(le16(b0, b1)) == b1,
        le16(lo(v), hi(v)) == v,
{
}

/// A vector with the same contents.
pub fn copied<T: Copy>(v: &Vec<T>) -> (r: Vec<T>)
    ensures
        r@ == v@,
{
    let mut r: Vec<T> = Vec::with_capacity(v.len());
    let mut i: usize = 0;
    while i < v.len()
        invariant
            i <= v@.len(),
            r@ == v@.subrange(0, i as int),
        decreases v@.len() - i,
    {
        r.push(v[i]);
        assert(r@ =~= v@.subrange(0, i + 1));
        i = i + 1;
    }
    assert(v@.subrange(0, i as int) =~= v@);
    r
}

} // verus!
