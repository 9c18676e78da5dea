//! Bit-banged real-time clock behind one pin register.
//!
//! Bit 0 is the data line, bit 1 the clock, bit 2 chip select and bit 4 the
//! direction of the data line. A transaction starts when chip select rises; a
//! command byte is clocked in, low bit first, and for read commands the answer
//! is clocked out. The reported moment is a constant.

use vstd::prelude::*;
use crate::bytes;

verus! {

/// Mathematical state of the clock.
pub struct RtcModel {
    pub prev_pins: u8,
    pub bit_count: u8,
    pub shift: u8,
    pub cmd: Option<u8>,
    pub response: Seq<u8>,
    pub out_pos: usize,
}

/// `b` with its bits in the opposite order.
pub open spec fn reversed(b: u8) -> u8 {
    ((b % 2) * 128 + (b / 2 % 2) * 64 + (b / 4 % 2) * 32 + (b / 8 % 2) * 16 + (b / 16 % 2) * 8 + (b
        / 32 % 2) * 4 + (b / 64 % 2) * 2 + b / 128) as u8
}

fn reverse(b: u8) -> (r: u8)
    ensures
        r == reversed(b),
{
    (b % 2) * 128 + (b / 2 % 2) * 64 + (b / 4 % 2) * 32 + (b / 8 % 2) * 16 + (b / 16 % 2) * 8 + (b
        / 32 % 2) * 4 + (b / 64 % 2) * 2 + b / 128
}

/// A command byte in its canonical bit order: the fixed pattern 0110 stands in
/// the high nibble.
pub open spec fn command_order(b: u8) -> u8 {
    if b / 16 != 6 {
        reversed(b)
    } else {
        b
    }
}

/// Answer to a read command: status, date and time, or time, in BCD.
pub open spec fn rtc_answer(cmd: u8) -> Seq<u8> {
    if cmd == 0 {
        seq![0x02u8]
    } else if cmd == 2 {
        seq![0x24u8, 0x01, 0x01, 0x01, 0x12, 0x00, 0x00]
    } else if cmd == 3 {
        seq![0x12u8, 0x00, 0x00]
    } else {
        seq![0x00u8]
    }
}

impl RtcModel {
    pub open spec fn wf(self) -> bool {
        self.bit_count < 8
    }

    pub open spec fn fresh() -> RtcModel {
        RtcModel {
            prev_pins: 0,
            bit_count: 0,
            shift: 0,
            cmd: None,
            response: Seq::empty(),
            out_pos: 0,
        }
    }

    /// State once a full byte has been shifted in. The first byte is the
    /// command; later bytes are payload and have no effect.
    pub open spec fn consumed(self) -> RtcModel {
        let s = RtcModel { bit_count: 0, shift: 0, ..self };
        if self.cmd is Some {
            s
        } else {
            let b = command_order(self.shift);
            let cmd = b / 2 % 8;
            RtcModel {
                cmd: Some(cmd),
                out_pos: 0,
                response: if b % 2 == 1 {
                    rtc_answer(cmd)
                } else {
                    Seq::empty()
                },
                ..s
            }
        }
    }

    /// State after a pin write.
    pub open spec fn written(self, val: u8) -> RtcModel {
        let rising = (val & 0x02) != 0 && (self.prev_pins & 0x02) == 0;
        let s = if (val & 0x04) == 0 {
            RtcModel {
                bit_count: 0,
                shift: 0,
                cmd: None,
                response: Seq::empty(),
                out_pos: 0,
                ..self
            }
        } else if rising && (val & 0x10) != 0 {
            let t = RtcModel {
                shift: self.shift | ((val & 1) << self.bit_count),
                bit_count: (self.bit_count + 1) as u8,
                ..self
            };
            if t.bit_count == 8 {
                t.consumed()
            } else {
                t
            }
        } else if rising && self.cmd is Some {
            RtcModel { out_pos: self.out_pos.wrapping_add(1), ..self }
        } else {
            self
        };
        RtcModel { prev_pins: val, ..s }
    }

    /// Pins as the processor reads them: the written value, with the data line
    /// replaced by the current answer bit while it is an input.
    pub open spec fn pins(self) -> u8 {
        if (self.prev_pins & 0x10) == 0 && self.cmd is Some {
            let i = self.out_pos as int / 8;
            let byte = if i < self.response.len() {
                self.response[i]
            } else {
                0
            };
            (self.prev_pins & 0xFE) | ((byte >> (self.out_pos % 8)) & 1)
        } else {
            self.prev_pins
        }
    }
}

/// Real-time clock.
#[derive(Clone, Debug)]
pub struct NdsRtc {
    prev_pins: u8,
    bit_count: u8,
    shift: u8,
    cmd: Option<u8>,
    response: Vec<u8>,
    out_pos: usize,
}

impl View for NdsRtc {
    type V = RtcModel;

    closed spec fn view(&self) -> RtcModel {
        RtcModel {
            prev_pins: self.prev_pins,
            bit_count: self.bit_count,
            shift: self.shift,
            cmd: self.cmd,
            response: self.response@,
            out_pos: self.out_pos,
        }
    }
}

impl Default for NdsRtc {
    fn default() -> (r: Self)
        ensures
            r@ == RtcModel::fresh(),
    {
        NdsRtc {
            prev_pins: 0,
            bit_count: 0,
            shift: 0,
            cmd: None,
            response: Vec::new(),
            out_pos: 0,
        }
    }
}

impl NdsRtc {
    /// Latches a pin write.
    pub fn write(&mut self, val: u8)
        requires
            old(self)@.wf(),
        ensures
            final(self)@ == old(self)@.written(val),
            final(self)@.wf(),
    {
        let rising: bool = (val & 0x02) != 0 && (self.prev_pins & 0x02) == 0;
        if (val & 0x04) == 0 {
            self.bit_count = 0;
            self.shift = 0;
            self.cmd = None;
            self.response.clear();
            self.out_pos = 0;
        } else if rising && (val & 0x10) != 0 {
            self.shift = self.shift | ((val & 1) << self.bit_count);
            self.bit_count = self.bit_count + 1;
            if self.bit_count == 8 {
                self.consume_byte();
            }
        } else if rising && self.cmd.is_some() {
            self.out_pos = self.out_pos.wrapping_add(1);
        }
        self.prev_pins = val;
    }

    /// Pins as the processor reads them.
    pub fn read(&self) -> (v: u8)
        ensures
            v == self@.pins(),
    {
        if (self.prev_pins & 0x10) == 0 && self.cmd.is_some() {
            let i: usize = self.out_pos / 8;
            let byte: u8 = if i < self.response.len() { self.response[i] } else { 0 };
            let bit: u8 = (byte >> (self.out_pos % 8)) & 1;
            (self.prev_pins & 0xFE) | bit
        } else {
            self.prev_pins
        }
    }

    fn consume_byte(&mut self)
        ensures
            final(self)@ == old(self)@.consumed(),
    {
        let mut b: u8 = self.shift;
        self.bit_count = 0;
        self.shift = 0;
        if self.cmd.is_none() {
            if b / 16 != 6 {
                b = reverse(b);
            }
            let cmd: u8 = b / 2 % 8;
            self.cmd = Some(cmd);
            self.out_pos = 0;
            self.response = if b % 2 == 1 {
                match cmd {
                    0 => vec![0x02],
                    2 => vec![0x24, 0x01, 0x01, 0x01, 0x12, 0x00, 0x00],
                    3 => vec![0x12, 0x00, 0x00],
                    _ => vec![0x00],
                }
            } else {
                Vec::new()
            };
            assert(self.response@ =~= old(self)@.consumed().response);
        }
    }
}

/// Releasing chip select abandons whatever was in progress.
pub proof fn law_deselect_resets_framing(r: RtcModel, val: u8)
    requires
        (val & 0x04) == 0,
    ensures
        r.written(val) == (RtcModel { prev_pins: val, ..RtcModel::fresh() }),
{
}

/// The chip accepts a command byte in either bit order.
pub proof fn law_command_in_either_bit_order(b: u8)
    requires
        b / 16 == 6,
        b % 16 != 6,
    ensures
        command_order(reversed(b)) == command_order(b),
{
}

impl NdsRtc {
    /// Takes the state of a saved clock over.
    pub fn resume_from(&mut self, saved: &NdsRtc)
        ensures
            final(self)@ == saved@,
    {
        self.prev_pins = saved.prev_pins;
        self.bit_count = saved.bit_count;
        self.shift = saved.shift;
        self.cmd = saved.cmd;
        self.response = bytes::copied(&saved.response);
        self.out_pos = saved.out_pos;
    }
}

/// Bit `i` of a byte.
pub open spec fn bit_at(b: u8, i: int) -> u8 {
    if i == 0 {
        b % 2
    } else if i == 1 {
        b / 2 % 2
    } else if i == 2 {
        b / 4 % 2
    } else if i == 3 {
        b / 8 % 2
    } else if i == 4 {
        b / 16 % 2
    } else if i == 5 {
        b / 32 % 2
    } else if i == 6 {
        b / 64 % 2
    } else {
        b / 128
    }
}

/// State after the bits of a byte from place `i` on were clocked in, low ones first,
/// each with the clock line down and then up.
pub open spec fn clocked_in(r: RtcModel, b: u8, i: int) -> RtcModel
    decreases 8 - i,
{
    if i >= 8 {
        r
    } else {
        clocked_in(
            r.written((0x14 + bit_at(b, i)) as u8).written((0x16 + bit_at(b, i)) as u8),
            b,
            i + 1,
        )
    }
}

spec fn below(b: u8, i: int) -> u8 {
    if i == 0 {
        0
    } else if i == 1 {
        b % 2
    } else if i == 2 {
        b % 4
    } else if i == 3 {
        b % 8
    } else if i == 4 {
        b % 16
    } else if i == 5 {
        b % 32
    } else if i == 6 {
        b % 64
    } else if i == 7 {
        b % 128
    } else {
        b
    }
}

proof fn lemma_bits(b: u8)
    by (bit_vector)
    ensures
        0u8 | ((b % 2) << 0u8) == b % 2,
        (b % 2) | ((b / 2 % 2) << 1u8) == b % 4,
        (b % 4) | ((b / 4 % 2) << 2u8) == b % 8,
        (b % 8) | ((b / 8 % 2) << 3u8) == b % 16,
        (b % 16) | ((b / 16 % 2) << 4u8) == b % 32,
        (b % 32) | ((b / 32 % 2) << 5u8) == b % 64,
        (b % 64) | ((b / 64 % 2) << 6u8) == b % 128,
        (b % 128) | ((b / 128) << 7u8) == b,
{
}

proof fn lemma_bit_in(r: RtcModel, bit: u8)
    requires
        bit < 2,
        r.bit_count < 8,
        r.cmd is None,
    ensures
        ({
            let t = r.written((0x14 + bit) as u8).written((0x16 + bit) as u8);
            let s = RtcModel {
                shift: r.shift | (bit << r.bit_count),
                bit_count: (r.bit_count + 1) as u8,
                ..r
            };
            let e = if r.bit_count == 7 {
                s.consumed()
            } else {
                s
            };
            t == (RtcModel { prev_pins: (0x16 + bit) as u8, ..e })
        }),
{
    let lo = (0x14 + bit) as u8;
    let hi = (0x16 + bit) as u8;
    assert((lo & 2 == 0) && (lo & 4 != 0) && (hi & 2 != 0) && (hi & 4 != 0) && (hi & 0x10 != 0) && (hi
        & 1 == bit)) by (bit_vector)
        requires
            bit < 2u8,
            lo == (0x14 + bit) as u8,
            hi == (0x16 + bit) as u8,
    ;
}

proof fn lemma_byte_in(r: RtcModel, b: u8, i: int)
    requires
        0 <= i < 8,
        r.bit_count == i,
        r.shift == below(b, i),
        r.cmd is None,
    ensures
        ({
            let e = RtcModel { shift: b, bit_count: 8, ..r }.consumed();
            let t = clocked_in(r, b, i);
            t.cmd == e.cmd && t.out_pos == e.out_pos && t.response == e.response && t.bit_count == 0
                && t.shift == 0
        }),
    decreases 8 - i,
{
    let bit = bit_at(b, i);
    assert(bit < 2);
    lemma_bit_in(r, bit);
    lemma_bits(b);
    let t = r.written((0x14 + bit) as u8).written((0x16 + bit) as u8);
    assert(r.shift | (bit << r.bit_count) == below(b, i + 1));
    if i < 7 {
        lemma_byte_in(t, b, i + 1);
    } else {
        assert(clocked_in(t, b, 8) == t);
    }
}

/// A command byte that is clocked in low bit first is taken as it was sent: the
/// fixed pattern above, three bits of command, and the lowest bit asking for an
/// answer.
pub proof fn law_command_is_clocked_in(r: RtcModel, c: int, read: int, b: u8)
    requires
        r.bit_count == 0,
        r.shift == 0,
        r.cmd is None,
        0 <= c < 8,
        0 <= read < 2,
        b == 0x60 + 2 * c + read,
    ensures
        ({
            let t = clocked_in(r, b, 0);
            &&& t.cmd == Some(c as u8)
            &&& t.out_pos == 0
            &&& read == 0 ==> t.response == Seq::<u8>::empty()
            &&& read == 1 ==> t.response == rtc_answer(c as u8)
        }),
{
    lemma_byte_in(r, b, 0);
}

/// The time is the end of the date and time: hour, minute and second.
pub proof fn law_time_ends_the_date()
    ensures
        rtc_answer(2).len() == 7,
        rtc_answer(3) =~= rtc_answer(2).subrange(4, 7),
        rtc_answer(0) =~= seq![0x02u8],
{
}

/// The answer is seen on the data line bit by bit, low ones first: after `n` turns
/// of the clock line, bit `n % 8` of byte `n / 8`.
pub proof fn law_answer_is_clocked_out(r: RtcModel, n: int, bit: u8)
    requires
        r.cmd is Some,
        r.prev_pins & 0x10 == 0,
        r.out_pos == n,
        0 <= n < 8 * r.response.len(),
        n < 0xFFFF,
        bit == bit_at(r.response[n / 8], n % 8),
    ensures
        r.pins() % 2 == bit,
        r.pins() / 2 == r.prev_pins / 2,
        r.prev_pins & 2 == 0 ==> r.written(6).out_pos == (n + 1) as usize && r.written(6).response
            == r.response,
{
    let p = r.prev_pins;
    let byte = r.response[n / 8];
    lemma_out(byte, p);
    assert(6u8 & 2 != 0 && 6u8 & 4 != 0 && 6u8 & 0x10 == 0) by (bit_vector);
}

proof fn lemma_out(b: u8, p: u8)
    by (bit_vector)
    ensures
        ((p & 0xFE) | ((b >> 0u8) & 1)) % 2 == b % 2,
        ((p & 0xFE) | ((b >> 1u8) & 1)) % 2 == b / 2 % 2,
        ((p & 0xFE) | ((b >> 2u8) & 1)) % 2 == b / 4 % 2,
        ((p & 0xFE) | ((b >> 3u8) & 1)) % 2 == b / 8 % 2,
        ((p & 0xFE) | ((b >> 4u8) & 1)) % 2 == b / 16 % 2,
        ((p & 0xFE) | ((b >> 5u8) & 1)) % 2 == b / 32 % 2,
        ((p & 0xFE) | ((b >> 6u8) & 1)) % 2 == b / 64 % 2,
        ((p & 0xFE) | ((b >> 7u8) & 1)) % 2 == b / 128,
        forall|k: u8| #![auto] k < 8 ==> ((p & 0xFE) | ((b >> k) & 1)) / 2 == p / 2,
{
}

} // verus!
