//! Four 16-bit timers of one processor.

use vstd::prelude::*;

pub mod laws;

verus! {

/// Mathematical state of a timer block.
pub struct TimersModel {
    pub reload: Seq<u16>,
    pub counter: Seq<u16>,
    pub control: Seq<u16>,
    pub acc: Seq<u32>,
}

/// Interrupt flag of timer `ch`.
pub open spec fn timer_irq(ch: int) -> u32 {
    if ch == 0 {
        0x08
    } else if ch == 1 {
        0x10
    } else if ch == 2 {
        0x20
    } else {
        0x40
    }
}

/// Bus cycles per count for a control value.
pub open spec fn prescale(control: u16) -> u32 {
    if control % 4 == 0 {
        1
    } else if control % 4 == 1 {
        64
    } else if control % 4 == 2 {
        256
    } else {
        1024
    }
}

/// Counter after `ticks` counts: it runs to 0x10000 and restarts from the
/// reload value.
pub open spec fn counted(counter: u16, reload: u16, ticks: nat) -> u16 {
    if counter + ticks < 0x1_0000 {
        (counter + ticks) as u16
    } else {
        (reload + (counter + ticks - 0x1_0000) % (0x1_0000 - reload)) as u16
    }
}

/// How often the counter overflows within `ticks` counts.
pub open spec fn overflows(counter: u16, reload: u16, ticks: nat) -> nat {
    if counter + ticks < 0x1_0000 {
        0
    } else {
        (1 + (counter + ticks - 0x1_0000) / (0x1_0000 - reload)) as nat
    }
}

impl TimersModel {
    pub open spec fn wf(self) -> bool {
        &&& self.reload.len() == 4
        &&& self.counter.len() == 4
        &&& self.control.len() == 4
        &&& self.acc.len() == 4
    }

    pub open spec fn fresh() -> TimersModel {
        TimersModel {
            reload: Seq::new(4, |i: int| 0u16),
            counter: Seq::new(4, |i: int| 0u16),
            control: Seq::new(4, |i: int| 0u16),
            acc: Seq::new(4, |i: int| 0u32),
        }
    }

    /// Byte read: the live counter, then the control value.
    pub open spec fn byte(self, off: u32) -> u8 {
        let ch = off as int / 4;
        if off % 4 == 0 {
            (self.counter[ch] % 256) as u8
        } else if off % 4 == 1 {
            (self.counter[ch] / 256) as u8
        } else if off % 4 == 2 {
            (self.control[ch] % 256) as u8
        } else {
            0
        }
    }

    /// State after a byte write. The first two bytes set the reload latch; a
    /// rising start bit loads the counter from it.
    pub open spec fn with_byte(self, off: u32, val: u8) -> TimersModel {
        let ch = off as int / 4;
        let r = self.reload[ch];
        if off % 4 == 0 {
            TimersModel { reload: self.reload.update(ch, (r - r % 256 + val) as u16), ..self }
        } else if off % 4 == 1 {
            TimersModel { reload: self.reload.update(ch, (r % 256 + val * 256) as u16), ..self }
        } else if off % 4 == 2 {
            let new = (val & 0xC7) as u16;
            let s = TimersModel { control: self.control.update(ch, new), ..self };
            if (new & 0x80) != 0 && (self.control[ch] & 0x80) == 0 {
                TimersModel {
                    counter: self.counter.update(ch, r),
                    acc: self.acc.update(ch, 0),
                    ..s
                }
            } else {
                s
            }
        } else {
            self
        }
    }

    /// Whether timer `ch` runs and counts overflows of the timer before it.
    pub open spec fn cascades(self, ch: int) -> bool {
        (self.control[ch] & 0x80) != 0 && (self.control[ch] & 0x04) != 0
    }

    /// Whether timer `ch` runs on the bus clock.
    pub open spec fn clocked(self, ch: int) -> bool {
        (self.control[ch] & 0x80) != 0 && (self.control[ch] & 0x04) == 0
    }

    /// State and interrupt flags after `ticks` counts of timer `ch`, overflows
    /// running on into cascading timers.
    pub open spec fn advanced(self, ch: int, ticks: nat, iff: u32) -> (TimersModel, u32)
        decreases 4 - ch,
    {
        if !(0 <= ch < 4) || ticks == 0 {
            (self, iff)
        } else {
            let n = overflows(self.counter[ch], self.reload[ch], ticks);
            let s = TimersModel {
                counter: self.counter.update(
                    ch,
                    counted(self.counter[ch], self.reload[ch], ticks),
                ),
                ..self
            };
            let f = if n > 0 && (self.control[ch] & 0x40) != 0 {
                iff | timer_irq(ch)
            } else {
                iff
            };
            if n > 0 && ch < 3 && self.cascades(ch + 1) {
                s.advanced(ch + 1, n, f)
            } else {
                (s, f)
            }
        }
    }

    /// State and flags after timer `ch` alone has received `cycles`.
    pub open spec fn fed(self, ch: int, cycles: u32, iff: u32) -> (TimersModel, u32) {
        if self.clocked(ch) {
            let p = prescale(self.control[ch]);
            let total = self.acc[ch] + cycles;
            let s = TimersModel { acc: self.acc.update(ch, (total % p as int) as u32), ..self };
            s.advanced(ch, (total / p as int) as nat, iff)
        } else {
            (self, iff)
        }
    }

    /// State and flags after timers `ch..4` have received `cycles` in order.
    pub open spec fn ticked_from(self, ch: int, cycles: u32, iff: u32) -> (TimersModel, u32)
        decreases 4 - ch,
    {
        if !(0 <= ch < 4) {
            (self, iff)
        } else {
            let (s, f) = self.fed(ch, cycles, iff);
            s.ticked_from(ch + 1, cycles, f)
        }
    }

    /// State and flags after every clock-driven timer has received `cycles`.
    pub open spec fn ticked(self, cycles: u32, iff: u32) -> (TimersModel, u32) {
        self.ticked_from(0, cycles, iff)
    }
}

/// One processor's timers.
#[derive(Clone, Copy)]
pub struct NdsTimers {
    pub reload: [u16; 4],
    pub counter: [u16; 4],
    pub control: [u16; 4],
    /// Bus cycles that have not made a count yet.
    pub acc: [u32; 4],
}

impl View for NdsTimers {
    type V = TimersModel;

    open spec fn view(&self) -> TimersModel {
        TimersModel {
            reload: self.reload@,
            counter: self.counter@,
            control: self.control@,
            acc: self.acc@,
        }
    }
}

impl Default for NdsTimers {
    fn default() -> (r: Self)
        ensures
            r@ == TimersModel::fresh(),
    {
        let r = NdsTimers {
            reload: [0u16; 4],
            counter: [0u16; 4],
            control: [0u16; 4],
            acc: [0u32; 4],
        };
        assert(r@.reload =~= TimersModel::fresh().reload);
        assert(r@.counter =~= TimersModel::fresh().counter);
        assert(r@.control =~= TimersModel::fresh().control);
        assert(r@.acc =~= TimersModel::fresh().acc);
        r
    }
}

impl NdsTimers {
    /// Every block has four timers.
    pub proof fn lemma_wf(&self)
        ensures
            self@.wf(),
    {
    }

    /// Byte read within the block.
    pub fn read_byte(&self, off: u32) -> (b: u8)
        requires
            off < 16,
        ensures
            b == self@.byte(off),
    {
        let ch: usize = (off / 4) as usize;
        match off % 4 {
            0 => (self.counter[ch] % 256) as u8,
            1 => (self.counter[ch] / 256) as u8,
            2 => (self.control[ch] % 256) as u8,
            _ => 0,
        }
    }

    /// Byte write within the block.
    pub fn write_byte(&mut self, off: u32, val: u8)
        requires
            off < 16,
        ensures
            final(self)@ == old(self)@.with_byte(off, val),
    {
        let ch: usize = (off / 4) as usize;
        let r: u16 = self.reload[ch];
        match off % 4 {
            0 => {
                self.reload[ch] = r - r % 256 + val as u16;
            },
            1 => {
                self.reload[ch] = r % 256 + val as u16 * 256;
            },
            2 => {
                let prev: u16 = self.control[ch];
                let new: u16 = (val & 0xC7) as u16;
                if (new & 0x80) != 0 && (prev & 0x80) == 0 {
                    self.counter[ch] = r;
                    self.acc[ch] = 0;
                }
                self.control[ch] = new;
            },
            _ => {},
        }
    }

    fn advance(&mut self, ch: usize, ticks: u64, iff: u32) -> (f: u32)
        requires
            ch < 4,
            0 < ticks <= 0x2_0000_0000,
        ensures
            (final(self)@, f) == old(self)@.advanced(ch as int, ticks as nat, iff),
        decreases 4 - ch,
    {
        let counter: u64 = self.counter[ch] as u64;
        let reload: u64 = self.reload[ch] as u64;
        if counter + ticks < 0x1_0000 {
            self.counter[ch] = (counter + ticks) as u16;
            return iff;
        }
        let over: u64 = counter + ticks - 0x1_0000;
        let period: u64 = 0x1_0000 - reload;
        let n: u64 = 1 + over / period;
        assert(over / period <= over && over % period < period) by (nonlinear_arith)
            requires
                over >= 0,
                period >= 1,
        ;
        self.counter[ch] = (reload + over % period) as u16;
        let mut f: u32 = iff;
        if (self.control[ch] & 0x40) != 0 {
            f = f | match ch {
                0 => 0x08u32,
                1 => 0x10u32,
                2 => 0x20u32,
                _ => 0x40u32,
            };
        }
        if ch < 3 && (self.control[ch + 1] & 0x80) != 0 && (self.control[ch + 1] & 0x04) != 0 {
            return self.advance(ch + 1, n, f);
        }
        f
    }

    /// Feeds bus cycles to every clock-driven timer and returns the interrupt
    /// flags with the overflows added.
    pub fn tick(&mut self, cycles: u32, iff: u32) -> (f: u32)
        ensures
            (final(self)@, f) == old(self)@.ticked(cycles, iff),
    {
        let mut f: u32 = iff;
        let mut ch: usize = 0;
        while ch < 4
            invariant
                0 <= ch <= 4,
                old(self)@.ticked(cycles, iff) == self@.ticked_from(ch as int, cycles, f),
            decreases 4 - ch,
        {
            let c: u16 = self.control[ch];
            if (c & 0x80) != 0 && (c & 0x04) == 0 {
                let p: u32 = match c % 4 {
                    0 => 1,
                    1 => 64,
                    2 => 256,
                    _ => 1024,
                };
                let total: u64 = self.acc[ch] as u64 + cycles as u64;
                let ghost s0 = self@;
                self.acc[ch] = (total % p as u64) as u32;
                let ticks: u64 = total / p as u64;
                assert(ticks <= total) by (nonlinear_arith)
                    requires
                        ticks == total / (p as u64),
                        p >= 1,
                ;
                if ticks > 0 {
                    f = self.advance(ch, ticks, f);
                }
            }
            ch = ch + 1;
        }
        f
    }
}

impl TimersModel {
    /// Counts that timer `ch` receives while `cycles` pass: from the bus clock,
    /// from the timer before it, or none.
    pub open spec fn ticks(self, ch: int, cycles: int) -> nat
        decreases ch, 0int,
    {
        if self.clocked(ch) {
            ((self.acc[ch] + cycles) / prescale(self.control[ch]) as int) as nat
        } else if ch > 0 && self.cascades(ch) {
            self.wraps(ch - 1, cycles)
        } else {
            0
        }
    }

    /// How often timer `ch` overflows while `cycles` pass.
    pub open spec fn wraps(self, ch: int, cycles: int) -> nat
        decreases ch, 1int,
    {
        overflows(self.counter[ch], self.reload[ch], self.ticks(ch, cycles))
    }

    /// State after `cycles`, in the timers below `upto`.
    pub open spec fn partly(self, upto: int, cycles: int) -> TimersModel {
        TimersModel {
            counter: Seq::new(
                4,
                |ch: int|
                    if ch < upto {
                        counted(self.counter[ch], self.reload[ch], self.ticks(ch, cycles))
                    } else {
                        self.counter[ch]
                    },
            ),
            acc: Seq::new(
                4,
                |ch: int|
                    if ch < upto && self.clocked(ch) {
                        ((self.acc[ch] + cycles) % prescale(self.control[ch]) as int) as u32
                    } else {
                        self.acc[ch]
                    },
            ),
            ..self
        }
    }

    /// Whether timer `ch` requests its interrupt while `cycles` pass.
    pub open spec fn requests(self, ch: int, cycles: int) -> bool {
        self.wraps(ch, cycles) > 0 && (self.control[ch] & 0x40) != 0
    }

    /// Interrupt flags after `cycles`, of the timers below `upto`.
    pub open spec fn flagged(self, upto: int, cycles: int, iff: u32) -> u32
        decreases upto,
    {
        if upto <= 0 {
            iff
        } else {
            let f = self.flagged(upto - 1, cycles, iff);
            if self.requests(upto - 1, cycles) {
                f | timer_irq(upto - 1)
            } else {
                f
            }
        }
    }
}

proof fn lemma_no_counts(s: TimersModel, ch: int, iff: u32)
    requires
        s.wf(),
        0 <= ch < 4,
    ensures
        s.advanced(ch, 0, iff) == (s, iff),
        counted(s.counter[ch], s.reload[ch], 0) == s.counter[ch],
        overflows(s.counter[ch], s.reload[ch], 0) == 0,
{
}

/// One timer takes its counts and hands its overflows on.
proof fn lemma_step(s: TimersModel, ch: int, ticks: nat, iff: u32)
    requires
        s.wf(),
        0 <= ch < 4,
    ensures
        ({
            let n = overflows(s.counter[ch], s.reload[ch], ticks);
            let t = TimersModel {
                counter: s.counter.update(ch, counted(s.counter[ch], s.reload[ch], ticks)),
                ..s
            };
            let f = if n > 0 && (s.control[ch] & 0x40) != 0 {
                iff | timer_irq(ch)
            } else {
                iff
            };
            s.advanced(ch, ticks, iff) == if ch < 3 && s.cascades(ch + 1) {
                t.advanced(ch + 1, n, f)
            } else {
                (t, f)
            }
        }),
{
    let n = overflows(s.counter[ch], s.reload[ch], ticks);
    let t = TimersModel {
        counter: s.counter.update(ch, counted(s.counter[ch], s.reload[ch], ticks)),
        ..s
    };
    if ticks == 0 {
        lemma_no_counts(s, ch, iff);
        assert(t.counter =~= s.counter);
    }
    if n == 0 && ch < 3 {
        lemma_no_counts(t, ch + 1, iff);
    }
}

/// Timers below `ch` are done, and the overflows of the last of them have run on
/// into the cascading ones.
proof fn lemma_pass(s: TimersModel, ch: int, cycles: u32, iff: u32)
    requires
        s.wf(),
        0 <= ch <= 4,
    ensures
        ({
            let p = s.partly(ch, cycles as int);
            let f = s.flagged(ch, cycles as int, iff);
            let (t, g) = if 0 < ch < 4 && s.cascades(ch) {
                p.advanced(ch, s.wraps(ch - 1, cycles as int), f)
            } else {
                (p, f)
            };
            t.ticked_from(ch, cycles, g) == (
                s.partly(4, cycles as int),
                s.flagged(4, cycles as int, iff),
            )
        }),
    decreases 4 - ch,
{
    let c = cycles as int;
    if ch < 4 {
        lemma_pass(s, ch + 1, cycles, iff);
        let p = s.partly(ch, c);
        let f = s.flagged(ch, c, iff);
        let q = s.partly(ch + 1, c);
        let g = s.flagged(ch + 1, c, iff);
        let n = s.ticks(ch, c);
        if s.clocked(ch) {
            let a = TimersModel { acc: p.acc.update(ch, q.acc[ch]), ..p };
            lemma_step(a, ch, n, f);
            assert(TimersModel { counter: a.counter.update(ch, q.counter[ch]), ..a } == q) by {
                assert(a.counter.update(ch, q.counter[ch]) =~= q.counter);
                assert(a.acc =~= q.acc);
            }
            assert(p.fed(ch, cycles, f) == a.advanced(ch, n, f));
        } else if ch > 0 && s.cascades(ch) {
            lemma_step(p, ch, n, f);
            assert(TimersModel { counter: p.counter.update(ch, q.counter[ch]), ..p } == q) by {
                assert(p.counter.update(ch, q.counter[ch]) =~= q.counter);
                assert(p.acc =~= q.acc);
            }
            lemma_advance_keeps(p, ch, n, f);
        } else {
            lemma_no_counts(s, ch, f);
            assert(p.counter =~= q.counter);
            assert(p.acc =~= q.acc);
            if ch < 3 {
                lemma_no_counts(q, ch + 1, g);
            }
        }
    }
}

proof fn lemma_advance_keeps(s: TimersModel, ch: int, ticks: nat, iff: u32)
    ensures
        s.advanced(ch, ticks, iff).0.control == s.control,
    decreases 4 - ch,
{
    if 0 <= ch < 4 {
        let n = overflows(s.counter[ch], s.reload[ch], ticks);
        let t = TimersModel {
            counter: s.counter.update(ch, counted(s.counter[ch], s.reload[ch], ticks)),
            ..s
        };
        let f = if n > 0 && (s.control[ch] & 0x40) != 0 {
            iff | timer_irq(ch)
        } else {
            iff
        };
        lemma_advance_keeps(t, ch + 1, n, f);
    }
}

/// Every timer takes the counts that are due to it, each once.
pub proof fn law_timers_take_their_counts(s: TimersModel, cycles: u32, iff: u32)
    requires
        s.wf(),
    ensures
        s.ticked(cycles, iff) == (
            s.partly(4, cycles as int),
            s.flagged(4, cycles as int, iff),
        ),
{
    lemma_pass(s, 0, cycles, iff);
    assert(s.partly(0, cycles as int) == s) by {
        assert(s.partly(0, cycles as int).counter =~= s.counter);
        assert(s.partly(0, cycles as int).acc =~= s.acc);
    }
}

/// Counting in two goes is counting at once.
proof fn lemma_counts_add(c: u16, r: u16, x: nat, y: nat)
    ensures
        counted(counted(c, r, x), r, y) == counted(c, r, x + y),
        overflows(c, r, x) + overflows(counted(c, r, x), r, y) == overflows(c, r, x + y),
{
    let p = 0x1_0000 - r;
    if c + x >= 0x1_0000 {
        let o = c + x - 0x1_0000;
        let q = o / p;
        let m = o % p;
        vstd::arithmetic::div_mod::lemma_fundamental_div_mod(o, p);
        vstd::arithmetic::div_mod::lemma_mod_bound(o, p);
        vstd::arithmetic::div_mod::lemma_div_pos_is_pos(o, p);
        assert(counted(c, r, x) == r + m);
        assert(o + y == p * q + (m + y));
        vstd::arithmetic::div_mod::lemma_mod_multiples_vanish(q, m + y, p);
        vstd::arithmetic::mul::lemma_mul_is_commutative(p, q);
        vstd::arithmetic::div_mod::lemma_hoist_over_denominator(m + y, q, p as nat);
        assert((o + y) / p == q + (m + y) / p);
        assert((o + y) % p == (m + y) % p);
        if m + y < p {
            vstd::arithmetic::div_mod::lemma_small_mod((m + y) as nat, p as nat);
            vstd::arithmetic::div_mod::lemma_basic_div(m + y, p);
        } else {
            let e = m + y - p;
            assert(m + y == p * 1 + e);
            vstd::arithmetic::div_mod::lemma_mod_multiples_vanish(1, e, p);
            vstd::arithmetic::div_mod::lemma_hoist_over_denominator(e, 1, p as nat);
            vstd::arithmetic::div_mod::lemma_div_pos_is_pos(e, p);
            vstd::arithmetic::div_mod::lemma_mod_bound(e, p);
        }
        vstd::arithmetic::div_mod::lemma_mod_bound(o + y, p);
        vstd::arithmetic::div_mod::lemma_div_pos_is_pos(o + y, p);
    }
}

/// A prescaler keeps what has not made a count yet.
proof fn lemma_prescaler_adds(acc: int, control: u16, a: int, b: int)
    requires
        0 <= acc,
        0 <= a,
        0 <= b,
    ensures
        ({
            let p = prescale(control) as int;
            let m = (acc + a) % p;
            &&& 0 <= m < 1024
            &&& (acc + a) / p + (m + b) / p == (acc + a + b) / p
            &&& (m + b) % p == (acc + a + b) % p
        }),
{
}

proof fn lemma_ticks_add(s: TimersModel, ch: int, a: int, b: int)
    requires
        s.wf(),
        0 <= ch < 4,
        0 <= a,
        0 <= b,
    ensures
        ({
            let t = s.partly(4, a);
            &&& s.ticks(ch, a) + t.ticks(ch, b) == s.ticks(ch, a + b)
            &&& s.wraps(ch, a) + t.wraps(ch, b) == s.wraps(ch, a + b)
            &&& t.partly(4, b).counter[ch] == s.partly(4, a + b).counter[ch]
            &&& t.partly(4, b).acc[ch] == s.partly(4, a + b).acc[ch]
        }),
    decreases ch,
{
    let t = s.partly(4, a);
    if s.clocked(ch) {
        lemma_prescaler_adds(s.acc[ch] as int, s.control[ch], a, b);
    } else if ch > 0 && s.cascades(ch) {
        lemma_ticks_add(s, ch - 1, a, b);
    }
    lemma_counts_add(s.counter[ch], s.reload[ch], s.ticks(ch, a), t.ticks(ch, b));
}

spec fn bit_if(b: bool, m: u32) -> u32 {
    if b {
        m
    } else {
        0
    }
}

proof fn lemma_flags_add(
    f: u32,
    a0: bool,
    a1: bool,
    a2: bool,
    a3: bool,
    b0: bool,
    b1: bool,
    b2: bool,
    b3: bool,
)
    by (bit_vector)
    ensures
        (f | bit_if(a0, 8) | bit_if(a1, 16) | bit_if(a2, 32) | bit_if(a3, 64) | bit_if(b0, 8)
            | bit_if(b1, 16) | bit_if(b2, 32) | bit_if(b3, 64)) == (f | bit_if(a0 || b0, 8)
            | bit_if(a1 || b1, 16) | bit_if(a2 || b2, 32) | bit_if(a3 || b3, 64)),
{
}

/// The flags of all four timers, written out.
proof fn lemma_flags(s: TimersModel, cycles: int, f: u32)
    ensures
        s.flagged(4, cycles, f) == (f | bit_if(s.requests(0, cycles), 8) | bit_if(
            s.requests(1, cycles),
            16,
        ) | bit_if(s.requests(2, cycles), 32) | bit_if(s.requests(3, cycles), 64)),
{
    reveal_with_fuel(TimersModel::flagged, 5);
    assert(forall|x: u32| #[trigger] (x | 0) == x) by {
        assert(forall|x: u32| #[trigger] (x | 0u32) == x) by (bit_vector);
    }
}

/// Timers fed in two slices end as timers fed at once, with the same interrupts
/// requested.
pub proof fn law_timers_are_independent_of_slicing(s: TimersModel, a: u32, b: u32, iff: u32)
    requires
        s.wf(),
        a + b <= u32::MAX,
    ensures
        ({
            let (t, f) = s.ticked(a, iff);
            t.ticked(b, f) == s.ticked((a + b) as u32, iff)
        }),
{
    let (x, y) = (a as int, b as int);
    let t = s.partly(4, x);
    law_timers_take_their_counts(s, a, iff);
    law_timers_take_their_counts(t, b, s.flagged(4, x, iff));
    law_timers_take_their_counts(s, (a + b) as u32, iff);
    lemma_ticks_add(s, 0, x, y);
    lemma_ticks_add(s, 1, x, y);
    lemma_ticks_add(s, 2, x, y);
    lemma_ticks_add(s, 3, x, y);
    assert(t.partly(4, y).counter =~= s.partly(4, x + y).counter);
    assert(t.partly(4, y).acc =~= s.partly(4, x + y).acc);
    lemma_flags(s, x, iff);
    lemma_flags(t, y, s.flagged(4, x, iff));
    lemma_flags(s, x + y, iff);
    lemma_flags_add(
        iff,
        s.requests(0, x),
        s.requests(1, x),
        s.requests(2, x),
        s.requests(3, x),
        t.requests(0, y),
        t.requests(1, y),
        t.requests(2, y),
        t.requests(3, y),
    );
}

} // verus!
