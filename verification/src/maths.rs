//! Hardware divider and square-root unit.

use vstd::prelude::*;
use crate::bytes;

verus! {

/// Magnitude of an integer.
pub open spec fn magnitude(n: int) -> int {
    if n < 0 {
        -n
    } else {
        n
    }
}

/// Quotient rounded toward zero.
pub open spec fn trunc_div(n: int, d: int) -> int {
    let q = magnitude(n) / magnitude(d);
    if (n < 0) != (d < 0) {
        -q
    } else {
        q
    }
}

/// Remainder of a division rounded toward zero.
pub open spec fn trunc_rem(n: int, d: int) -> int {
    let r = magnitude(n) % magnitude(d);
    if n < 0 {
        -r
    } else {
        r
    }
}

/// Quotient and remainder. The one quotient that does not fit wraps; a zero
/// denominator gives quotient zero and the numerator as remainder.
pub open spec fn divided(n: i64, d: i64) -> (i64, i64) {
    if d == 0 {
        (0i64, n)
    } else if n == i64::MIN && d == -1 {
        (i64::MIN, 0i64)
    } else {
        (trunc_div(n as int, d as int) as i64, trunc_rem(n as int, d as int) as i64)
    }
}

/// Divides with rounding toward zero.
pub fn divide(n: i64, d: i64) -> (qr: (i64, i64))
    ensures
        qr == divided(n, d),
{
    if d == 0 {
        return (0, n);
    }
    if n == i64::MIN && d == -1 {
        return (i64::MIN, 0);
    }
    let nm: u64 = if n < 0 { (-(n as i128)) as u64 } else { n as u64 };
    let dm: u64 = if d < 0 { (-(d as i128)) as u64 } else { d as u64 };
    let q: u64 = nm / dm;
    let r: u64 = nm % dm;
    proof {
        lemma_quotient_fits(n as int, d as int);
    }
    let qs: i128 = if (n < 0) != (d < 0) { -(q as i128) } else { q as i128 };
    let rs: i128 = if n < 0 { -(r as i128) } else { r as i128 };
    (qs as i64, rs as i64)
}

proof fn lemma_quotient_fits(n: int, d: int)
    requires
        i64::MIN <= n <= i64::MAX,
        i64::MIN <= d <= i64::MAX,
        d != 0,
        !(n == i64::MIN && d == -1),
    ensures
        i64::MIN <= trunc_div(n, d) <= i64::MAX,
        i64::MIN <= trunc_rem(n, d) <= i64::MAX,
        0 <= magnitude(n) / magnitude(d) <= magnitude(n),
        0 <= magnitude(n) % magnitude(d) < magnitude(d),
{
    let a = magnitude(n);
    let b = magnitude(d);
    assert(0 <= a / b <= a && 0 <= a % b < b) by (nonlinear_arith)
        requires
            a >= 0,
            b >= 1,
    ;
    if b >= 2 {
        assert(a / b <= a / 2) by (nonlinear_arith)
            requires
                a >= 0,
                b >= 2,
        ;
    } else {
        assert(a / 1 == a);
    }
}

/// Away from zero denominators and the one overflow, quotient times
/// denominator plus remainder gives the numerator back, the remainder is
/// smaller than the denominator and carries the numerator's sign.
pub proof fn law_division_identity(n: i64, d: i64)
    requires
        d != 0,
        !(n == i64::MIN && d == -1),
    ensures
        divided(n, d).0 * d + divided(n, d).1 == n,
        magnitude(divided(n, d).1 as int) < magnitude(d as int),
        n >= 0 ==> divided(n, d).1 >= 0,
        n <= 0 ==> divided(n, d).1 <= 0,
{
    lemma_quotient_fits(n as int, d as int);
    let a = magnitude(n as int);
    let b = magnitude(d as int);
    let q = a / b;
    let r = a % b;
    vstd::arithmetic::div_mod::lemma_fundamental_div_mod(a, b);
    assert(q * b == b * q) by (nonlinear_arith);
    assert((-q) * b == -(q * b) && q * (-b) == -(q * b) && (-q) * (-b) == q * b)
        by (nonlinear_arith);
}

/// `r` is the integer part of the square root of `v`.
pub open spec fn is_floor_sqrt(v: nat, r: nat) -> bool {
    r * r <= v < (r + 1) * (r + 1)
}

/// Integer part of the square root.
pub open spec fn floor_sqrt(v: nat) -> nat {
    choose|r: nat| is_floor_sqrt(v, r)
}

/// Only one number is the integer part of a square root.
pub proof fn law_floor_sqrt_unique(v: nat, a: nat, b: nat)
    requires
        is_floor_sqrt(v, a),
        is_floor_sqrt(v, b),
    ensures
        a == b,
{
    if a < b {
        assert((a + 1) * (a + 1) <= b * b) by (nonlinear_arith)
            requires
                a + 1 <= b,
        ;
    } else if b < a {
        assert((b + 1) * (b + 1) <= a * a) by (nonlinear_arith)
            requires
                b + 1 <= a,
        ;
    }
}

/// Computes the integer part of the square root by bisection.
pub fn isqrt(v: u64) -> (r: u32)
    ensures
        r == floor_sqrt(v as nat),
        is_floor_sqrt(v as nat, r as nat),
{
    let mut lo: u64 = 0;
    let mut hi: u64 = 0x1_0000_0000;
    assert(0x1_0000_0000int * 0x1_0000_0000int > u64::MAX) by (nonlinear_arith);
    assert(0int * 0int == 0) by (nonlinear_arith);
    while hi - lo > 1
        invariant
            lo < hi <= 0x1_0000_0000,
            lo * lo <= v < hi * hi,
        decreases hi - lo,
    {
        let mid: u64 = lo + (hi - lo) / 2;
        assert(0 <= mid * mid <= 0xFFFF_FFFFint * 0xFFFF_FFFFint) by (nonlinear_arith)
            requires
                0 <= mid <= 0xFFFF_FFFF,
        ;
        assert(0xFFFF_FFFFint * 0xFFFF_FFFFint <= u64::MAX) by (nonlinear_arith);
        if mid * mid <= v {
            lo = mid;
        } else {
            hi = mid;
        }
    }
    proof {
        assert(hi == lo + 1);
        assert(is_floor_sqrt(v as nat, lo as nat));
        law_floor_sqrt_unique(v as nat, lo as nat, floor_sqrt(v as nat));
    }
    lo as u32
}

/// Two's-complement value of a doubleword.
pub open spec fn signed64(v: u64) -> i64 {
    (if v >= 0x8000_0000_0000_0000 {
        v - 0x1_0000_0000_0000_0000
    } else {
        v as int
    }) as i64
}

/// Two's-complement value of the low half of a doubleword.
pub open spec fn signed_low(v: u64) -> i64 {
    let h = v as int % 0x1_0000_0000;
    (if h >= 0x8000_0000 {
        h - 0x1_0000_0000
    } else {
        h
    }) as i64
}

/// Doubleword that holds a value in two's complement.
pub open spec fn pattern(v: i64) -> u64 {
    (if v < 0 {
        v + 0x1_0000_0000_0000_0000
    } else {
        v as int
    }) as u64
}

fn to_signed64(v: u64) -> (r: i64)
    ensures
        r == signed64(v),
{
    if v >= 0x8000_0000_0000_0000 {
        (v as i128 - 0x1_0000_0000_0000_0000) as i64
    } else {
        v as i64
    }
}

fn to_signed_low(v: u64) -> (r: i64)
    ensures
        r == signed_low(v),
{
    let h: i64 = (v % 0x1_0000_0000) as i64;
    if h >= 0x8000_0000 {
        h - 0x1_0000_0000
    } else {
        h
    }
}

fn to_pattern(v: i64) -> (r: u64)
    ensures
        r == pattern(v),
{
    if v < 0 {
        (v as i128 + 0x1_0000_0000_0000_0000) as u64
    } else {
        v as u64
    }
}

/// Operand and mode registers of the divider and of the square-root unit.
/// Results are computed when they are read.
#[derive(Clone, Copy, Debug, PartialEq, Eq, Structural)]
pub struct MathsUnit {
    pub div_cnt: u16,
    pub div_numer: u64,
    pub div_denom: u64,
    pub sqrt_cnt: u16,
    pub sqrt_param: u64,
}

impl MathsUnit {
    pub open spec fn cleared() -> MathsUnit {
        MathsUnit { div_cnt: 0, div_numer: 0, div_denom: 0, sqrt_cnt: 0, sqrt_param: 0 }
    }

    pub fn new() -> (r: Self)
        ensures
            r == MathsUnit::cleared(),
    {
        MathsUnit { div_cnt: 0, div_numer: 0, div_denom: 0, sqrt_cnt: 0, sqrt_param: 0 }
    }

    /// Quotient and remainder for the mode: 32 by 32 bits, 64 by 32, or 64 by
    /// 64.
    pub open spec fn spec_div_results(self) -> (i64, i64) {
        if self.div_cnt % 4 == 0 {
            divided(signed_low(self.div_numer), signed_low(self.div_denom))
        } else if self.div_cnt % 4 == 1 {
            divided(signed64(self.div_numer), signed_low(self.div_denom))
        } else {
            divided(signed64(self.div_numer), signed64(self.div_denom))
        }
    }

    pub fn div_results(&self) -> (qr: (i64, i64))
        ensures
            qr == self.spec_div_results(),
    {
        match self.div_cnt % 4 {
            0 => divide(to_signed_low(self.div_numer), to_signed_low(self.div_denom)),
            1 => divide(to_signed64(self.div_numer), to_signed_low(self.div_denom)),
            _ => divide(to_signed64(self.div_numer), to_signed64(self.div_denom)),
        }
    }

    /// Integer square root of the operand, or of its low half in 32-bit mode.
    pub open spec fn spec_sqrt_result(self) -> u32 {
        if self.sqrt_cnt % 2 == 1 {
            floor_sqrt(self.sqrt_param as nat) as u32
        } else {
            floor_sqrt((self.sqrt_param % 0x1_0000_0000) as nat) as u32
        }
    }

    pub fn sqrt_result(&self) -> (r: u32)
        ensures
            r == self.spec_sqrt_result(),
    {
        if self.sqrt_cnt % 2 == 1 {
            isqrt(self.sqrt_param)
        } else {
            isqrt(self.sqrt_param % 0x1_0000_0000)
        }
    }

    /// Register offsets that read from the unit.
    pub open spec fn answers(offset: u32) -> bool {
        offset == 0x280 || offset == 0x281 || 0x290 <= offset < 0x2B2 || 0x2B4 <= offset < 0x2C0
    }

    /// Register offsets that the unit stores.
    pub open spec fn accepts(offset: u32) -> bool {
        offset == 0x280 || offset == 0x281 || 0x290 <= offset < 0x2A0 || offset == 0x2B0 || offset
            == 0x2B1 || 0x2B8 <= offset < 0x2C0
    }

    /// Byte read: busy never reads set; the divider's status byte reports a
    /// zero denominator.
    pub open spec fn byte(self, offset: u32) -> u8 {
        if offset == 0x280 {
            bytes::lo(self.div_cnt)
        } else if offset == 0x281 {
            (bytes::hi(self.div_cnt) % 64 + (if self.div_denom == 0 {
                0x40int
            } else {
                0
            })) as u8
        } else if offset < 0x298 {
            bytes::byte64_of(self.div_numer, offset - 0x290)
        } else if offset < 0x2A0 {
            bytes::byte64_of(self.div_denom, offset - 0x298)
        } else if offset < 0x2A8 {
            bytes::byte64_of(pattern(self.spec_div_results().0), offset - 0x2A0)
        } else if offset < 0x2B0 {
            bytes::byte64_of(pattern(self.spec_div_results().1), offset - 0x2A8)
        } else if offset == 0x2B0 {
            bytes::lo(self.sqrt_cnt)
        } else if offset == 0x2B1 {
            bytes::hi(self.sqrt_cnt) % 128
        } else if offset < 0x2B8 {
            bytes::byte_of(self.spec_sqrt_result(), offset - 0x2B4)
        } else {
            bytes::byte64_of(self.sqrt_param, offset - 0x2B8)
        }
    }

    pub fn read_byte(&self, offset: u32) -> (b: u8)
        requires
            MathsUnit::answers(offset),
        ensures
            b == self.byte(offset),
    {
        if offset == 0x280 {
            bytes::low_byte(self.div_cnt)
        } else if offset == 0x281 {
            bytes::high_byte(self.div_cnt) % 64 + (if self.div_denom == 0 { 0x40 } else { 0 })
        } else if offset < 0x298 {
            bytes::get_byte64(self.div_numer, offset - 0x290)
        } else if offset < 0x2A0 {
            bytes::get_byte64(self.div_denom, offset - 0x298)
        } else if offset < 0x2A8 {
            bytes::get_byte64(to_pattern(self.div_results().0), offset - 0x2A0)
        } else if offset < 0x2B0 {
            bytes::get_byte64(to_pattern(self.div_results().1), offset - 0x2A8)
        } else if offset == 0x2B0 {
            bytes::low_byte(self.sqrt_cnt)
        } else if offset == 0x2B1 {
            bytes::high_byte(self.sqrt_cnt) % 128
        } else if offset < 0x2B8 {
            bytes::get_byte(self.sqrt_result(), offset - 0x2B4)
        } else {
            bytes::get_byte64(self.sqrt_param, offset - 0x2B8)
        }
    }

    /// State after a byte write.
    pub open spec fn with_byte(self, offset: u32, val: u8) -> MathsUnit {
        if offset == 0x280 {
            MathsUnit { div_cnt: bytes::le16(val, bytes::hi(self.div_cnt)), ..self }
        } else if offset == 0x281 {
            MathsUnit { div_cnt: bytes::le16(bytes::lo(self.div_cnt), val), ..self }
        } else if offset < 0x298 {
            MathsUnit {
                div_numer: bytes::set_byte64(self.div_numer, offset - 0x290, val),
                ..self
            }
        } else if offset < 0x2A0 {
            MathsUnit {
                div_denom: bytes::set_byte64(self.div_denom, offset - 0x298, val),
                ..self
            }
        } else if offset == 0x2B0 {
            MathsUnit { sqrt_cnt: bytes::le16(val, bytes::hi(self.sqrt_cnt)), ..self }
        } else if offset == 0x2B1 {
            MathsUnit { sqrt_cnt: bytes::le16(bytes::lo(self.sqrt_cnt), val), ..self }
        } else {
            MathsUnit {
                sqrt_param: bytes::set_byte64(self.sqrt_param, offset - 0x2B8, val),
                ..self
            }
        }
    }

    pub fn write_byte(&mut self, offset: u32, val: u8)
        requires
            MathsUnit::accepts(offset),
        ensures
            *final(self) == old(self).with_byte(offset, val),
    {
        if offset == 0x280 {
            self.div_cnt = bytes::halfword(val, bytes::high_byte(self.div_cnt));
        } else if offset == 0x281 {
            self.div_cnt = bytes::halfword(bytes::low_byte(self.div_cnt), val);
        } else if offset < 0x298 {
            self.div_numer = bytes::put_byte64(self.div_numer, offset - 0x290, val);
        } else if offset < 0x2A0 {
            self.div_denom = bytes::put_byte64(self.div_denom, offset - 0x298, val);
        } else if offset == 0x2B0 {
            self.sqrt_cnt = bytes::halfword(val, bytes::high_byte(self.sqrt_cnt));
        } else if offset == 0x2B1 {
            self.sqrt_cnt = bytes::halfword(bytes::low_byte(self.sqrt_cnt), val);
        } else {
            self.sqrt_param = bytes::put_byte64(self.sqrt_param, offset - 0x2B8, val);
        }
    }
}

/// The doubleword that holds a result reads back as that result.
pub proof fn law_pattern_round_trip(v: i64, p: u64)
    ensures
        signed64(pattern(v)) == v,
        pattern(signed64(p)) == p,
{
}

/// A denominator of zero is flagged in every mode, gives quotient zero and hands
/// the numerator back as the remainder. Where the mode takes 32 bits of the
/// numerator, these are sign-extended.
pub proof fn law_division_by_zero(m: MathsUnit)
    requires
        m.div_denom == 0,
    ensures
        m.div_cnt % 4 == 0 ==> m.spec_div_results() == (0i64, signed_low(m.div_numer)),
        m.div_cnt % 4 >= 1 ==> m.spec_div_results() == (0i64, signed64(m.div_numer)),
        m.byte(0x281) >= 0x40,
{
}

/// In the modes that take 32 bits of the denominator, its upper half does not
/// count: the result is that of a zero denominator wherever the lower half is
/// zero.
pub proof fn law_upper_denominator_is_ignored(m: MathsUnit)
    requires
        m.div_denom % 0x1_0000_0000 == 0,
        m.div_cnt % 4 <= 1,
    ensures
        m.spec_div_results() == (MathsUnit { div_denom: 0, ..m }).spec_div_results(),
{
}

} // verus!
