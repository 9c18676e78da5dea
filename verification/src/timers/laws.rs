//! What a timer counts.

use vstd::prelude::*;
use crate::timers;
use crate::timers::TimersModel;

verus! {

/// Counting is counting one by one: every count adds one, and the count past the
/// largest value goes on from the reload value and is an overflow.
pub proof fn law_counts_are_one_by_one(counter: u16, reload: u16, n: nat)
    ensures
        timers::counted(counter, reload, 0) == counter,
        timers::overflows(counter, reload, 0) == 0,
        ({
            let before = timers::counted(counter, reload, n);
            let after = timers::counted(counter, reload, n + 1);
            let more = timers::overflows(counter, reload, n + 1) - timers::overflows(
                counter,
                reload,
                n,
            );
            if before == 0xFFFF {
                after == reload && more == 1
            } else {
                after == before + 1 && more == 0
            }
        }),
{
    let m = 0x1_0000 - reload;
    if counter + n >= 0x1_0000 {
        let a = counter + n - 0x1_0000;
        vstd::arithmetic::div_mod::lemma_fundamental_div_mod(a, m);
        let q = a / m;
        let r = a % m;
        assert(m * q + r == a && 0 <= r < m);
        if r == m - 1 {
            assert(a + 1 == m * (q + 1)) by (nonlinear_arith)
                requires
                    m * q + r == a,
                    r == m - 1,
            ;
            vstd::arithmetic::div_mod::lemma_fundamental_div_mod_converse(a + 1, m, q + 1, 0);
        } else {
            vstd::arithmetic::div_mod::lemma_fundamental_div_mod_converse(a + 1, m, q, r + 1);
        }
    } else if counter + n + 1 == 0x1_0000 {
        assert(0int % m == 0 && 0int / m == 0) by (nonlinear_arith)
            requires
                m > 0,
        ;
    }
}

/// A running timer counts once every 1, 64, 256 or 1024 cycles, by the low bits of
/// its control value; a timer that is not started stands still.
pub proof fn law_prescaler(t: TimersModel, ch: int, p: int, cycles: u32, iff: u32, k: nat)
    requires
        t.wf(),
        0 <= ch < 4,
        p == (if t.control[ch] % 4 == 3 {
            1024int
        } else if t.control[ch] % 4 == 2 {
            256
        } else if t.control[ch] % 4 == 1 {
            64
        } else {
            1
        }),
        t.acc[ch] + cycles == p * k,
    ensures
        t.clocked(ch) ==> t.fed(ch, cycles, iff).0.counter[ch] == timers::counted(
            t.counter[ch],
            t.reload[ch],
            k,
        ) && t.fed(ch, cycles, iff).0.acc[ch] == 0,
        t.control[ch] & 0x80 == 0 ==> t.fed(ch, cycles, iff) == (t, iff),
{
    vstd::arithmetic::div_mod::lemma_fundamental_div_mod_converse(p * k, p, k as int, 0);
    let s = TimersModel { acc: t.acc.update(ch, 0), ..t };
    lemma_own_counter(s, ch, k, iff);
    if t.clocked(ch) {
        assert(t.fed(ch, cycles, iff) == s.advanced(ch, k, iff));
    }
}

proof fn lemma_own_counter(t: TimersModel, ch: int, k: nat, iff: u32)
    requires
        t.wf(),
        0 <= ch < 4,
    ensures
        t.advanced(ch, k, iff).0.counter[ch] == timers::counted(t.counter[ch], t.reload[ch], k),
        t.advanced(ch, k, iff).0.acc == t.acc,
{
    if k > 0 {
        let n = timers::overflows(t.counter[ch], t.reload[ch], k);
        let s = TimersModel {
            counter: t.counter.update(ch, timers::counted(t.counter[ch], t.reload[ch], k)),
            ..t
        };
        let f = if n > 0 && (t.control[ch] & 0x40) != 0 {
            iff | timers::timer_irq(ch)
        } else {
            iff
        };
        if n > 0 && ch < 3 && t.cascades(ch + 1) {
            lemma_below_stay(s, ch + 1, n, f, ch);
        }
    }
}

proof fn lemma_below_stay(t: TimersModel, ch: int, k: nat, iff: u32, j: int)
    requires
        t.wf(),
        0 <= j < ch < 4,
    ensures
        t.advanced(ch, k, iff).0.counter[j] == t.counter[j],
        t.advanced(ch, k, iff).0.acc == t.acc,
    decreases 4 - ch,
{
    if k > 0 {
        let n = timers::overflows(t.counter[ch], t.reload[ch], k);
        let s = TimersModel {
            counter: t.counter.update(ch, timers::counted(t.counter[ch], t.reload[ch], k)),
            ..t
        };
        let f = if n > 0 && (t.control[ch] & 0x40) != 0 {
            iff | timers::timer_irq(ch)
        } else {
            iff
        };
        if n > 0 && ch < 3 && t.cascades(ch + 1) {
            lemma_below_stay(s, ch + 1, n, f, j);
        }
    }
}

/// A timer in count-up mode counts the overflows of the timer before it, and
/// requests its interrupt, a bit of its own, when it overflows itself.
pub proof fn law_overflows_run_on(t: TimersModel, ch: int, k: nat)
    requires
        t.wf(),
        0 <= ch < 3,
        t.counter[ch] + k == 0x1_0000,
        k > 0,
        t.control[ch + 1] & 0x80 != 0,
        t.control[ch + 1] & 0x04 != 0,
        t.counter[ch + 1] < 0xFFFF,
    ensures
        ({
            let r = t.advanced(ch, k, 0);
            &&& r.0.counter[ch] == t.reload[ch]
            &&& r.0.counter[ch + 1] == t.counter[ch + 1] + 1
            &&& t.control[ch] & 0x40 == 0 ==> r.1 == 0
            &&& t.control[ch] & 0x40 != 0 ==> r.1 == (if ch == 0 {
                8int
            } else if ch == 1 {
                16
            } else {
                32
            })
        }),
{
    law_counts_are_one_by_one(t.counter[ch], t.reload[ch], (k - 1) as nat);
    reveal_with_fuel(TimersModel::advanced, 3);
    assert(0u32 | 8u32 == 8 && 0u32 | 16u32 == 16 && 0u32 | 32u32 == 32) by (bit_vector);
    let m = 0x1_0000 - t.reload[ch];
    assert(0int % m == 0 && 0int / m == 0) by (nonlinear_arith)
        requires
            m > 0,
    ;
}

} // verus!
