//! Sound in the memory system: register writes, playback from memory, and
//! rendering in spans over which the mix is constant.
//!
//! The mix is a step function of time. It changes only when a channel consumes a
//! source sample or a register is written, so rendering is put off until one of
//! these happens.

use vstd::prelude::*;
use crate::apu;
use crate::apu::{ApuModel, NdsChannel};
use crate::mmu::{MmuModel, NdsMmu, SoundClock};

verus! {

/// Cycles over which the mix holds one value per side.
#[derive(Clone, Copy, Debug, PartialEq, Eq, Structural)]
pub struct ApuSpan {
    pub cycles: u32,
    pub left: i64,
    pub right: i64,
}

impl NdsChannel {
    /// The channel with its clock set.
    pub open spec fn at_clock(self, t: int) -> NdsChannel {
        NdsChannel { timer_acc: t as u32, ..self }
    }
}

impl ApuModel {
    pub open spec fn with_channel(self, i: int, ch: NdsChannel) -> ApuModel {
        ApuModel { channels: self.channels.update(i, ch), ..self }
    }

    /// Cycles to render at once out of `remaining`.
    pub open spec fn span(self, remaining: int) -> int {
        apu::clamped(self.next_edge(16) as int, 1, remaining)
    }

    /// State with every playing channel's clock moved on by `x`, no channel
    /// reaching its next sample.
    pub open spec fn delayed_from(self, x: int, from: int) -> ApuModel {
        ApuModel {
            channels: Seq::new(
                self.channels.len(),
                |i: int|
                    if i >= from && self.channels[i].active {
                        self.channels[i].at_clock(self.channels[i].timer_acc + x)
                    } else {
                        self.channels[i]
                    },
            ),
            ..self
        }
    }

    /// Whether two states have the same mix statistics.
    pub open spec fn same_accounts(self, other: ApuModel) -> bool {
        &&& self.dbg_peak == other.dbg_peak
        &&& self.dbg_clip == other.dbg_clip
        &&& self.dbg_samples == other.dbg_samples
    }

    /// State with the mix statistics of another.
    pub open spec fn with_accounts(self, other: ApuModel) -> ApuModel {
        ApuModel {
            dbg_peak: other.dbg_peak,
            dbg_clip: other.dbg_clip,
            dbg_samples: other.dbg_samples,
            ..self
        }
    }
}

/// One entry per cycle.
pub open spec fn samples(spans: Seq<ApuSpan>) -> Seq<(i64, i64)>
    decreases spans.len(),
{
    if spans.len() == 0 {
        Seq::empty()
    } else {
        held(spans[0].left, spans[0].right, spans[0].cycles as nat) + samples(
            spans.subrange(1, spans.len() as int),
        )
    }
}

/// All cycles of the slices.
pub open spec fn total(slices: Seq<u32>) -> int
    decreases slices.len(),
{
    if slices.len() == 0 {
        0
    } else {
        total(slices.drop_last()) + slices.last()
    }
}

/// Magnitude of the louder side.
pub open spec fn amplitude(left: i64, right: i64) -> u64 {
    let l = if left < 0 {
        -left
    } else {
        left as int
    };
    let r = if right < 0 {
        -right
    } else {
        right as int
    };
    if l > r {
        l as u64
    } else {
        r as u64
    }
}

/// Largest magnitude of a mix, or `floor` where it is larger.
pub open spec fn loudest(floor: u64, mix: Seq<(i64, i64)>) -> u64
    decreases mix.len(),
{
    if mix.len() == 0 {
        floor
    } else {
        let rest = loudest(floor, mix.drop_last());
        let amp = amplitude(mix.last().0, mix.last().1);
        if amp > rest {
            amp
        } else {
            rest
        }
    }
}

/// One value per side, kept for `n` cycles.
pub open spec fn held(left: i64, right: i64, n: nat) -> Seq<(i64, i64)> {
    Seq::new(n, |i: int| (left, right))
}

impl MmuModel {
    pub open spec fn with_apu(self, apu: ApuModel) -> MmuModel {
        MmuModel { apu, ..self }
    }

    /// After a write to a sound register. A rising start bit keys the channel
    /// on from the word at its source address.
    pub open spec fn sound_written(self, off: u32, val: u8) -> MmuModel {
        let m = MmuModel {
            apu: self.apu.with_reg(off, val),
            sound: SoundClock { dirty: true, ..self.sound },
            ..self
        };
        match self.apu.keys_on(off, val) {
            Some(i) => {
                let ch = m.apu.channels[i];
                m.with_apu(m.apu.with_channel(i, ch.keyed_on(m.word7(ch.sad))))
            },
            None => m,
        }
    }

    /// Channel `i` after the samples due at its clock; a channel that ends
    /// stops its clock.
    pub open spec fn chan_ran(self, i: int, ch: NdsChannel) -> NdsChannel
        decreases ch.timer_acc,
    {
        let p = ch.spec_period();
        if ch.timer_acc < p {
            ch
        } else {
            let a = ch.sad.wrapping_add(ch.cursor);
            let b0 = self.byte7(a);
            let b1 = self.byte7(a.wrapping_add(1));
            let s = ch.at_clock(ch.timer_acc - p);
            let c = s.stepped(i, b0, b1);
            proof {
                lemma_step_keeps_clock(s, i, b0, b1);
            }
            if c.active {
                self.chan_ran(i, c)
            } else {
                c.at_clock(0)
            }
        }
    }

    /// After the first `n` channels have been given bus cycles.
    pub open spec fn chans_advanced(self, cycles: int, n: int) -> MmuModel
        decreases n,
    {
        if n <= 0 {
            self
        } else {
            let p = self.chans_advanced(cycles, n - 1);
            let ch = p.apu.channels[n - 1];
            if ch.active {
                let late = ch.at_clock(ch.timer_acc + cycles);
                p.with_apu(p.apu.with_channel(n - 1, p.chan_ran(n - 1, late)))
            } else {
                p
            }
        }
    }

    /// State after playing `remaining` cycles, and the spans they make up.
    pub open spec fn played(self, remaining: int) -> (MmuModel, Seq<ApuSpan>)
        decreases remaining,
    {
        if remaining <= 0 {
            (self, Seq::empty())
        } else {
            let n = self.apu.span(remaining);
            let span = ApuSpan {
                cycles: n as u32,
                left: self.apu.mixed(false),
                right: self.apu.mixed(true),
            };
            let rest = self.chans_advanced(n, 16).played(remaining - n);
            (rest.0, seq![span] + rest.1)
        }
    }

    /// Mix statistics after rendering `remaining` cycles.
    pub open spec fn accounts(self, stats: ApuModel, remaining: int) -> ApuModel
        decreases remaining,
    {
        if remaining <= 0 {
            stats
        } else {
            let n = self.apu.span(remaining);
            self.chans_advanced(n, 16).accounts(
                self.apu.with_accounts(stats).accounted(),
                remaining - n,
            )
        }
    }

    /// State after rendering `cycles`.
    pub open spec fn rendered(self, cycles: int) -> MmuModel {
        let p = self.played(cycles).0;
        p.with_apu(p.apu.with_accounts(self.accounts(self.apu, cycles)))
    }

    /// After everything put off has been rendered.
    pub open spec fn sound_flushed(self) -> MmuModel {
        MmuModel { sound: SoundClock::settled(), ..self }.rendered(self.sound.pending as int)
    }

    /// Spans that a flush renders.
    pub open spec fn flushed_spans(self) -> Seq<ApuSpan> {
        MmuModel { sound: SoundClock::settled(), ..self }.played(self.sound.pending as int).1
    }

    /// With cycles accepted for later.
    pub open spec fn sound_deferred(self, cycles: u32) -> MmuModel {
        MmuModel {
            sound: SoundClock {
                pending: if self.sound.pending + cycles > u32::MAX {
                    u32::MAX
                } else {
                    (self.sound.pending + cycles) as u32
                },
                ..self.sound
            },
            ..self
        }
    }

    /// Whether the pending cycles cannot be put off any longer.
    pub open spec fn sound_due(self) -> bool {
        self.sound.dirty || self.sound.pending >= self.apu.next_edge(16)
    }

    /// State after cycles were accepted, and the spans rendered for it.
    pub open spec fn sound_ticked(self, cycles: u32) -> (MmuModel, Seq<ApuSpan>) {
        let d = self.sound_deferred(cycles);
        if d.sound_due() {
            (d.sound_flushed(), d.flushed_spans())
        } else {
            (d, Seq::empty())
        }
    }

    /// State after cycles were accepted slice by slice, and all spans rendered on
    /// the way.
    pub open spec fn sound_ticked_by(self, slices: Seq<u32>) -> (MmuModel, Seq<ApuSpan>)
        decreases slices.len(),
    {
        if slices.len() == 0 {
            (self, Seq::empty())
        } else {
            let p = self.sound_ticked_by(slices.drop_last());
            let t = p.0.sound_ticked(slices.last());
            (t.0, p.1 + t.1)
        }
    }

    /// The same, with what is left over rendered at the end.
    pub open spec fn sound_played_by(self, slices: Seq<u32>) -> (MmuModel, Seq<ApuSpan>) {
        let p = self.sound_ticked_by(slices);
        (p.0.sound_flushed(), p.1 + p.0.flushed_spans())
    }

    /// State with other cycles put off and other statistics.
    pub open spec fn dressed(self, sound: SoundClock, stats: ApuModel) -> MmuModel {
        MmuModel { sound, apu: self.apu.with_accounts(stats), ..self }
    }
}

/// A source sample leaves the clock and its period alone.
pub proof fn lemma_step_keeps_clock(ch: NdsChannel, i: int, b0: u8, b1: u8)
    ensures
        ch.stepped(i, b0, b1).timer_acc == ch.timer_acc,
        ch.stepped(i, b0, b1).tmr == ch.tmr,
{
}

/// Neither what is put off nor the statistics influence playback.
proof fn lemma_dress_unread(m: MmuModel, sound: SoundClock, stats: ApuModel, a: u32)
    ensures
        m.dressed(sound, stats).byte7(a) == m.byte7(a),
{
    reveal(MmuModel::byte7);
    reveal(MmuModel::spot7);
    reveal(MmuModel::io7_byte);
}

proof fn lemma_dress_chan(m: MmuModel, sound: SoundClock, stats: ApuModel, i: int, ch: NdsChannel)
    ensures
        m.dressed(sound, stats).chan_ran(i, ch) == m.chan_ran(i, ch),
    decreases ch.timer_acc,
{
    let p = ch.spec_period();
    if ch.timer_acc >= p {
        let a = ch.sad.wrapping_add(ch.cursor);
        lemma_dress_unread(m, sound, stats, a);
        lemma_dress_unread(m, sound, stats, a.wrapping_add(1));
        let s = ch.at_clock(ch.timer_acc - p);
        let b0 = m.byte7(a);
        let b1 = m.byte7(a.wrapping_add(1));
        lemma_step_keeps_clock(s, i, b0, b1);
        lemma_dress_chan(m, sound, stats, i, s.stepped(i, b0, b1));
    }
}

proof fn lemma_dress_commutes(
    m: MmuModel,
    sound: SoundClock,
    stats: ApuModel,
    cycles: int,
    n: int,
)
    ensures
        m.dressed(sound, stats).chans_advanced(cycles, n) == m.chans_advanced(cycles, n).dressed(
            sound,
            stats,
        ),
    decreases n,
{
    if n > 0 {
        lemma_dress_commutes(m, sound, stats, cycles, n - 1);
        let p = m.chans_advanced(cycles, n - 1);
        let ch = p.apu.channels[n - 1];
        let late = ch.at_clock(ch.timer_acc + cycles);
        lemma_dress_chan(p, sound, stats, n - 1, late);
    }
}

/// Playback keeps the channels' ranges and stays inside their periods.
proof fn lemma_chan_wf(m: MmuModel, i: int, ch: NdsChannel)
    requires
        ch.at_clock(0).wf(),
    ensures
        m.chan_ran(i, ch).wf(),
    decreases ch.timer_acc,
{
    let p = ch.spec_period();
    if ch.timer_acc >= p {
        let a = ch.sad.wrapping_add(ch.cursor);
        let b0 = m.byte7(a);
        let b1 = m.byte7(a.wrapping_add(1));
        let s = ch.at_clock(ch.timer_acc - p);
        lemma_step_wf(s, i, b0, b1);
        lemma_step_keeps_clock(s, i, b0, b1);
        if s.stepped(i, b0, b1).active {
            lemma_chan_wf(m, i, s.stepped(i, b0, b1));
        }
    }
}

proof fn lemma_step_wf(ch: NdsChannel, i: int, b0: u8, b1: u8)
    requires
        ch.at_clock(0).wf(),
    ensures
        ch.stepped(i, b0, b1).at_clock(0).wf(),
{
}

proof fn lemma_advance_wf(m: MmuModel, cycles: int, n: int)
    requires
        m.apu.wf(),
        0 <= n <= 16,
    ensures
        m.chans_advanced(cycles, n).apu.wf(),
        m.chans_advanced(cycles, n) == m.with_apu(m.chans_advanced(cycles, n).apu),
    decreases n,
{
    if n > 0 {
        lemma_advance_wf(m, cycles, n - 1);
        let p = m.chans_advanced(cycles, n - 1);
        let ch = p.apu.channels[n - 1];
        let late = ch.at_clock(ch.timer_acc + cycles);
        assert(ch.wf());
        lemma_chan_wf(p, n - 1, late);
    }
}

proof fn lemma_edge_bound(a: ApuModel, n: int)
    requires
        0 <= n <= a.channels.len(),
    ensures
        forall|i: int|
            #![trigger a.channels[i]]
            0 <= i < n && a.channels[i].active ==> a.next_edge(n) <= 0x2_0000 && a.next_edge(n)
                + a.channels[i].timer_acc <= (if a.channels[i].timer_acc
                > a.channels[i].spec_period() {
                a.channels[i].timer_acc as int
            } else {
                a.channels[i].spec_period() as int
            }),
    decreases n,
{
    if n > 0 {
        lemma_edge_bound(a, n - 1);
    }
}

impl NdsMmu {
    /// Byte write to a sound register.
    pub fn apu_write_byte(&mut self, off: u32, val: u8)
        requires
            old(self)@.wf(),
        ensures
            final(self)@ == old(self)@.sound_written(off, val),
            final(self)@.wf(),
    {
        self.sound.dirty = true;
        match self.apu.write_reg(off, val) {
            Some(i) => {
                let mut ch: NdsChannel = self.apu.channels[i];
                assert(ch.wf());
                let header: u32 = self.read_word_arm7(ch.sad);
                ch.key_on(header);
                self.apu.channels[i] = ch;
            },
            None => {},
        }
    }

    fn run_channel(&self, i: usize, start: NdsChannel) -> (r: NdsChannel)
        requires
            self@.wf(),
            start.at_clock(0).wf(),
            start.timer_acc <= 0x4_0000,
        ensures
            r == self@.chan_ran(i as int, start),
    {
        let mut ch: NdsChannel = start;
        let period: u32 = ch.period_cycles();
        while ch.timer_acc >= period
            invariant_except_break
                self@.chan_ran(i as int, ch) == self@.chan_ran(i as int, start),
                period == ch.spec_period(),
                period >= 2,
                ch.at_clock(0).wf(),
            invariant
                self@.wf(),
            ensures
                ch == self@.chan_ran(i as int, start),
            decreases ch.timer_acc,
        {
            let a: u32 = ch.sad.wrapping_add(ch.cursor);
            let b0: u8 = self.read_byte_arm7(a);
            let b1: u8 = self.read_byte_arm7(a.wrapping_add(1));
            let acc: u32 = ch.timer_acc - period;
            let ghost before = ch.at_clock(acc as int);
            ch.timer_acc = 0;
            ch.step(i, b0, b1);
            ch.timer_acc = acc;
            proof {
                lemma_step_clock_free(before, i as int, b0, b1);
                lemma_step_wf(before, i as int, b0, b1);
                lemma_step_keeps_clock(before, i as int, b0, b1);
                assert(ch == before.stepped(i as int, b0, b1));
            }
            if !ch.active {
                ch.timer_acc = 0;
                break;
            }
        }
        ch
    }

    fn apu_advance_channels(&mut self, cycles: u32)
        requires
            old(self)@.wf(),
            cycles <= 0x2_0000 || forall|i: int|
                0 <= i < 16 ==> !(#[trigger] old(self)@.apu.channels[i]).active,
        ensures
            final(self)@ == old(self)@.chans_advanced(cycles as int, 16),
            final(self)@.wf(),
    {
        let mut i: usize = 0;
        while i < 16
            invariant
                0 <= i <= 16,
                self@.wf(),
                old(self)@.wf(),
                self@ == old(self)@.chans_advanced(cycles as int, i as int),
                forall|k: int|
                    i <= k < 16 ==> #[trigger] self@.apu.channels[k] == old(self)@.apu.channels[k],
                cycles <= 0x2_0000 || forall|k: int|
                    0 <= k < 16 ==> !(#[trigger] old(self)@.apu.channels[k]).active,
            decreases 16 - i,
        {
            let ch: NdsChannel = self.apu.channels[i];
            assert(ch == old(self)@.apu.channels[i as int]);
            assert(self@.apu.channels[i as int].wf());
            if ch.active {
                let mut late: NdsChannel = ch;
                late.timer_acc = ch.timer_acc + cycles;
                let r: NdsChannel = self.run_channel(i, late);
                proof {
                    lemma_chan_wf(self@, i as int, late);
                }
                self.apu.channels[i] = r;
            }
            i = i + 1;
        }
    }

    /// Accepts bus cycles, and renders once the result can differ.
    pub fn tick_apu(&mut self, cycles: u32) -> (spans: Vec<ApuSpan>)
        requires
            old(self)@.wf(),
        ensures
            (final(self)@, spans@) == old(self)@.sound_ticked(cycles),
            final(self)@.wf(),
    {
        self.sound.pending = self.sound.pending.saturating_add(cycles);
        if !self.sound.dirty && self.sound.pending < self.apu.cycles_to_next_edge() {
            return Vec::new();
        }
        self.flush_apu()
    }

    /// Renders everything put off.
    pub fn flush_apu(&mut self) -> (spans: Vec<ApuSpan>)
        requires
            old(self)@.wf(),
        ensures
            final(self)@ == old(self)@.sound_flushed(),
            spans@ == old(self)@.flushed_spans(),
            final(self)@.wf(),
    {
        let cycles: u32 = self.sound.pending;
        self.sound.pending = 0;
        self.sound.dirty = false;
        let ghost start = self@;
        let ghost mut plain = self@;
        let mut spans: Vec<ApuSpan> = Vec::new();
        let mut remaining: u32 = cycles;
        proof {
            assert(plain.apu.with_accounts(plain.apu) == plain.apu);
            assert(spans@ + plain.played(cycles as int).1 =~= start.played(cycles as int).1);
        }
        while remaining > 0
            invariant
                self@.wf(),
                plain.apu.wf(),
                self@ == plain.with_apu(plain.apu.with_accounts(self@.apu)),
                start.played(cycles as int).0 == plain.played(remaining as int).0,
                start.played(cycles as int).1 == spans@ + plain.played(remaining as int).1,
                start.accounts(start.apu, cycles as int).same_accounts(
                    plain.accounts(self@.apu, remaining as int),
                ),
            decreases remaining,
        {
            let edge: u32 = self.apu.cycles_to_next_edge();
            let span: u32 = if edge < 1 {
                1
            } else if edge > remaining {
                remaining
            } else {
                edge
            };
            proof {
                lemma_edge_bound(self@.apu, 16);
                lemma_edge_stats(plain.apu, self@.apu, 16);
                lemma_mix_stats(plain.apu, self@.apu);
                assert(span == plain.apu.span(remaining as int));
            }
            let ghost before = self@;
            let (left, right) = self.apu.account_span();
            let ghost stats = self@.apu;
            proof {
                assert(self@ == plain.dressed(plain.sound, stats));
                lemma_dress_commutes(plain, plain.sound, stats, span as int, 16);
                lemma_advance_wf(plain, span as int, 16);
            }
            self.apu_advance_channels(span);
            let ghost sp = ApuSpan { cycles: span, left, right };
            spans.push(ApuSpan { cycles: span, left, right });
            proof {
                let next = plain.chans_advanced(span as int, 16);
                assert(self@ == next.dressed(plain.sound, stats));
                assert(self@ == next.with_apu(next.apu.with_accounts(stats)));
                assert(plain.apu.with_accounts(before.apu) == before.apu);
                assert(stats == before.apu.accounted());
                let rest = next.played((remaining - span) as int).1;
                assert(spans@ + rest =~= spans@.drop_last() + (seq![sp] + rest));
                lemma_accounts_stats(
                    next,
                    stats,
                    next.apu.with_accounts(stats),
                    (remaining - span) as int,
                );
                plain = next;
            }
            remaining = remaining - span;
        }
        assert(spans@ + plain.played(0).1 =~= spans@);
        spans
    }
}

proof fn lemma_step_clock_free(ch: NdsChannel, i: int, b0: u8, b1: u8)
    ensures
        ch.at_clock(0).stepped(i, b0, b1).at_clock(ch.timer_acc as int) == ch.stepped(i, b0, b1),
{
}

proof fn lemma_edge_stats(a: ApuModel, b: ApuModel, n: int)
    requires
        a.channels == b.channels,
    ensures
        a.next_edge(n) == b.next_edge(n),
    decreases n,
{
    if n > 0 {
        lemma_edge_stats(a, b, n - 1);
    }
}

proof fn lemma_mix_stats(a: ApuModel, b: ApuModel)
    requires
        a.channels == b.channels,
        a.soundcnt == b.soundcnt,
    ensures
        a.mixed(false) == b.mixed(false),
        a.mixed(true) == b.mixed(true),
{
}

/// Only the statistics of the argument count.
proof fn lemma_accounts_stats(m: MmuModel, a: ApuModel, b: ApuModel, remaining: int)
    requires
        a.same_accounts(b),
    ensures
        m.accounts(a, remaining).same_accounts(m.accounts(b, remaining)),
{
    if remaining > 0 {
        assert(m.apu.with_accounts(a) == m.apu.with_accounts(b));
    }
}

/// What loads see of the sound state: not the channels' clocks.
proof fn lemma_clocks_unread(m: MmuModel, x: int, from: int, a: u32)
    requires
        m.apu.wf(),
    ensures
        m.with_apu(m.apu.delayed_from(x, from)).byte7(a) == m.byte7(a),
{
    reveal(MmuModel::byte7);
    reveal(MmuModel::spot7);
    reveal(MmuModel::io7_byte);
    let d = m.with_apu(m.apu.delayed_from(x, from));
    let off = a % 0x100_0000;
    if m.spot7(a) is None && a / 0x100_0000 == 0x04 && 0x400 <= off < 0x520 {
        if off < 0x500 {
            let i = (off - 0x400) / 16;
            assert(d.apu.channels[i].cnt == m.apu.channels[i].cnt);
            assert(d.apu.channels[i].active == m.apu.channels[i].active);
        }
        assert(d.apu.reg(off) == m.apu.reg(off));
    }
}

proof fn lemma_clocks_chan(m: MmuModel, x: int, from: int, i: int, ch: NdsChannel)
    requires
        m.apu.wf(),
    ensures
        m.with_apu(m.apu.delayed_from(x, from)).chan_ran(i, ch) == m.chan_ran(i, ch),
    decreases ch.timer_acc,
{
    let p = ch.spec_period();
    if ch.timer_acc >= p {
        let a = ch.sad.wrapping_add(ch.cursor);
        lemma_clocks_unread(m, x, from, a);
        lemma_clocks_unread(m, x, from, a.wrapping_add(1));
        let s = ch.at_clock(ch.timer_acc - p);
        let b0 = m.byte7(a);
        let b1 = m.byte7(a.wrapping_add(1));
        lemma_step_keeps_clock(s, i, b0, b1);
        lemma_clocks_chan(m, x, from, i, s.stepped(i, b0, b1));
    }
}

/// Before the next edge, giving cycles only moves clocks.
proof fn lemma_before_edge(m: MmuModel, x: int, n: int)
    requires
        m.apu.wf(),
        0 <= x < m.apu.next_edge(16),
        0 <= n <= 16,
    ensures
        m.chans_advanced(x, n).apu.channels =~= Seq::new(
            16,
            |i: int|
                if i < n && m.apu.channels[i].active {
                    m.apu.channels[i].at_clock(m.apu.channels[i].timer_acc + x)
                } else {
                    m.apu.channels[i]
                },
        ),
        m.chans_advanced(x, n) == m.with_apu(
            (ApuModel { channels: m.chans_advanced(x, n).apu.channels, ..m.apu }),
        ),
    decreases n,
{
    if n > 0 {
        lemma_before_edge(m, x, n - 1);
        lemma_edge_low(m.apu, 16, n - 1);
        let p = m.chans_advanced(x, n - 1);
        let ch = p.apu.channels[n - 1];
        assert(ch == m.apu.channels[n - 1]);
        assert(ch.wf());
    }
}

/// The next edge is no later than any playing channel's.
proof fn lemma_edge_low(a: ApuModel, n: int, i: int)
    requires
        0 <= i < n <= a.channels.len(),
    ensures
        a.channels[i].active ==> a.next_edge(n) <= (if a.channels[i].spec_period()
            > a.channels[i].timer_acc {
            a.channels[i].spec_period() - a.channels[i].timer_acc
        } else {
            0
        }),
    decreases n,
{
    if i < n - 1 {
        lemma_edge_low(a, n - 1, i);
    }
}

/// Moved clocks bring the next edge closer by as much; with nothing playing
/// there is none.
proof fn lemma_edge_delayed(a: ApuModel, x: int, n: int)
    requires
        a.wf(),
        0 <= x < a.next_edge(n),
        0 <= n <= 16,
    ensures
        a.next_edge(n) == u32::MAX ==> a.delayed_from(x, 0).next_edge(n) == u32::MAX,
        a.next_edge(n) < u32::MAX ==> a.delayed_from(x, 0).next_edge(n) == a.next_edge(n) - x,
    decreases n,
{
    if n > 0 {
        assert(a.channels[n - 1].wf());
        lemma_edge_delayed(a, x, n - 1);
    }
}

proof fn lemma_mix_delayed(a: ApuModel, x: int, n: int, right: bool)
    requires
        a.wf(),
        0 <= n <= 16,
    ensures
        apu::mix_sum(a.delayed_from(x, 0).channels, n, right) == apu::mix_sum(
            a.channels,
            n,
            right,
        ),
    decreases n,
{
    if n > 0 {
        lemma_mix_delayed(a, x, n - 1, right);
        assert(apu::channel_level(a.delayed_from(x, 0).channels[n - 1], n - 1, right)
            == apu::channel_level(a.channels[n - 1], n - 1, right));
    }
}

/// Giving `x` cycles before the edge and `y` after is giving them at once.
proof fn lemma_advance_split(m: MmuModel, x: int, y: int, n: int)
    requires
        m.apu.wf(),
        0 <= x < m.apu.next_edge(16),
        0 <= y,
        x + y <= 0x2_0000 || m.apu.next_edge(16) == u32::MAX,
        0 <= n <= 16,
    ensures
        m.with_apu(m.apu.delayed_from(x, 0)).chans_advanced(y, n) == ({
            let r = m.chans_advanced(x + y, n);
            r.with_apu(r.apu.delayed_from(x, n))
        }),
        forall|i: int| n <= i < 16 ==> m.chans_advanced(x + y, n).apu.channels[i]
            == #[trigger] m.apu.channels[i],
    decreases n,
{
    let d = m.with_apu(m.apu.delayed_from(x, 0));
    if n > 0 {
        lemma_advance_split(m, x, y, n - 1);
        lemma_advance_wf(m, x + y, n - 1);
        lemma_edge_low(m.apu, 16, n - 1);
        let q = m.chans_advanced(x + y, n - 1);
        let p = d.chans_advanced(y, n - 1);
        let ch = q.apu.channels[n - 1];
        assert(ch == m.apu.channels[n - 1]);
        assert(ch.wf());
        let r = m.chans_advanced(x + y, n);
        if ch.active {
            let late = ch.at_clock(ch.timer_acc + (x + y));
            lemma_clocks_chan(q, x, n - 1, n - 1, late);
            assert(p.apu.channels[n - 1] == ch.at_clock(ch.timer_acc + x));
            assert(p.apu.channels[n - 1].at_clock(p.apu.channels[n - 1].timer_acc + y) == late);
            assert(d.chans_advanced(y, n).apu.channels =~= r.apu.delayed_from(x, n).channels);
        } else {
            assert(d.chans_advanced(y, n).apu.channels =~= r.apu.delayed_from(x, n).channels);
        }
    } else {
        assert(d.apu.channels =~= m.apu.delayed_from(x, 0).channels);
    }
}

proof fn lemma_held_split(l: i64, r: i64, a: nat, b: nat)
    ensures
        held(l, r, a + b) =~= held(l, r, a) + held(l, r, b),
{
}

proof fn lemma_samples_cons(s: ApuSpan, rest: Seq<ApuSpan>)
    ensures
        samples(seq![s] + rest) == held(s.left, s.right, s.cycles as nat) + samples(rest),
{
    let all = seq![s] + rest;
    assert(all.subrange(1, all.len() as int) =~= rest);
}

/// A slice that ends inside the first span: clocks move, the mix stays, and the
/// rest of the span follows.
proof fn lemma_inside_span(m: MmuModel, a: int, b: int)
    requires
        m.apu.wf(),
        0 < a < m.apu.next_edge(16),
        0 < b,
        a + b <= u32::MAX,
    ensures
        ({
            let s = m.apu.span(a + b);
            let early = m.chans_advanced(a, 16);
            &&& m.apu.span(a) == a
            &&& a < s <= a + b
            &&& early.apu.span(b) == s - a
            &&& early.apu.mixed(false) == m.apu.mixed(false)
            &&& early.apu.mixed(true) == m.apu.mixed(true)
            &&& early.chans_advanced(s - a, 16) == m.chans_advanced(s, 16)
        }),
{
    let s = m.apu.span(a + b);
    let early = m.chans_advanced(a, 16);
    lemma_before_edge(m, a, 16);
    assert(early.apu.channels =~= m.apu.delayed_from(a, 0).channels);
    assert(early == m.with_apu(m.apu.delayed_from(a, 0)));
    lemma_edge_delayed(m.apu, a, 16);
    lemma_mix_delayed(m.apu, a, 16, false);
    lemma_mix_delayed(m.apu, a, 16, true);
    lemma_edge_size(m.apu, 16);
    lemma_advance_split(m, a, s - a, 16);
    lemma_advance_wf(m, s, 16);
    let next = m.chans_advanced(s, 16);
    assert(next.apu.delayed_from(a, 16).channels =~= next.apu.channels);
}

/// The mix heard over the first span and after it.
proof fn lemma_played_once(m: MmuModel, n: int)
    requires
        n > 0,
    ensures
        ({
            let s = m.apu.span(n);
            let next = m.chans_advanced(s, 16);
            &&& m.played(n).0 == next.played(n - s).0
            &&& s <= u32::MAX ==> samples(m.played(n).1) == held(
                m.apu.mixed(false),
                m.apu.mixed(true),
                s as nat,
            ) + samples(next.played(n - s).1)
        }),
{
    let s = m.apu.span(n);
    let next = m.chans_advanced(s, 16);
    let sp = ApuSpan { cycles: s as u32, left: m.apu.mixed(false), right: m.apu.mixed(true) };
    lemma_samples_cons(sp, next.played(n - s).1);
}

/// How the caller slices time does not matter: playing `a` cycles and then `b`
/// leaves the same state as playing them at once, and the same mix is heard on
/// every cycle.
pub proof fn law_rendering_is_independent_of_slicing(m: MmuModel, a: int, b: int)
    requires
        m.apu.wf(),
        0 <= a,
        0 <= b,
        a + b <= u32::MAX,
    ensures
        m.played(a).0.played(b).0 == m.played(a + b).0,
        samples(m.played(a + b).1) == samples(m.played(a).1) + samples(m.played(a).0.played(b).1),
    decreases a,
{
    if a == 0 {
        assert(Seq::<(i64, i64)>::empty() + samples(m.played(b).1) =~= samples(m.played(b).1));
    } else if b == 0 {
        assert(samples(m.played(a).1) + Seq::<(i64, i64)>::empty() =~= samples(m.played(a).1));
    } else {
        let s = m.apu.span(a + b);
        let l = m.apu.mixed(false);
        let r = m.apu.mixed(true);
        let next = m.chans_advanced(s, 16);
        lemma_played_once(m, a + b);
        lemma_played_once(m, a);
        if s == m.apu.span(a) {
            lemma_advance_wf(m, s, 16);
            law_rendering_is_independent_of_slicing(next, a - s, b);
            let x = held(l, r, s as nat);
            let y = samples(next.played(a - s).1);
            let z = samples(m.played(a).0.played(b).1);
            assert((a - s) + b == a + b - s);
            assert(x + (y + z) =~= (x + y) + z);
        } else {
            lemma_inside_span(m, a, b);
            let early = m.chans_advanced(a, 16);
            assert(early.played(0) == (early, Seq::<ApuSpan>::empty()));
            lemma_played_once(early, b);
            lemma_held_split(l, r, a as nat, (s - a) as nat);
            let x = held(l, r, a as nat);
            let y = held(l, r, (s - a) as nat);
            let z = samples(next.played(a + b - s).1);
            assert(b - (s - a) == a + b - s);
            assert((x + y) + z =~= (x + Seq::<(i64, i64)>::empty()) + (y + z));
        }
    }
}

/// The next edge is within a period of now, or there is none.
proof fn lemma_edge_size(a: ApuModel, n: int)
    requires
        0 <= n <= a.channels.len(),
    ensures
        a.next_edge(n) <= 0x2_0000 || a.next_edge(n) == u32::MAX,
    decreases n,
{
    if n > 0 {
        lemma_edge_size(a, n - 1);
    }
}

/// Putting cycles off does not change what is heard, as long as they are not
/// due: one constant mix covers them all.
pub proof fn law_deferral_is_exact(m: MmuModel, n: int)
    requires
        m.apu.wf(),
        0 < n < m.apu.next_edge(16),
    ensures
        m.played(n).1 == seq![
            (ApuSpan { cycles: n as u32, left: m.apu.mixed(false), right: m.apu.mixed(true) }),
        ],
        m.played(n).0.apu.mixed(false) == m.apu.mixed(false),
        m.played(n).0.apu.mixed(true) == m.apu.mixed(true),
{
    lemma_before_edge(m, n, 16);
    let next = m.chans_advanced(n, 16);
    assert(next.apu.channels =~= m.apu.delayed_from(n, 0).channels);
    lemma_mix_delayed(m.apu, n, 16, false);
    lemma_mix_delayed(m.apu, n, 16, true);
    assert(next.played(0) == (next, Seq::<ApuSpan>::empty()));
    assert(m.apu.span(n) == n);
    let sp = ApuSpan { cycles: n as u32, left: m.apu.mixed(false), right: m.apu.mixed(true) };
    assert(seq![sp] + Seq::<ApuSpan>::empty() =~= seq![sp]);
}

proof fn lemma_samples_join(a: Seq<ApuSpan>, b: Seq<ApuSpan>)
    ensures
        samples(a + b) == samples(a) + samples(b),
    decreases a.len(),
{
    if a.len() == 0 {
        assert(a + b =~= b);
        assert(samples(a) + samples(b) =~= samples(b));
    } else {
        let rest = a.subrange(1, a.len() as int);
        lemma_samples_join(rest, b);
        assert((a + b).subrange(1, (a + b).len() as int) =~= rest + b);
        let x = held(a[0].left, a[0].right, a[0].cycles as nat);
        assert(x + (samples(rest) + samples(b)) =~= (x + samples(rest)) + samples(b));
    }
}

proof fn lemma_loudest_join(floor: u64, a: Seq<(i64, i64)>, b: Seq<(i64, i64)>)
    ensures
        loudest(floor, a + b) == loudest(loudest(floor, a), b),
    decreases b.len(),
{
    if b.len() == 0 {
        assert(a + b =~= a);
    } else {
        lemma_loudest_join(floor, a, b.drop_last());
        assert((a + b).drop_last() =~= a + b.drop_last());
    }
}

proof fn lemma_loudest_held(floor: u64, left: i64, right: i64, n: nat)
    ensures
        n > 0 ==> loudest(floor, held(left, right, n)) == (if amplitude(left, right) > floor {
            amplitude(left, right)
        } else {
            floor
        }),
    decreases n,
{
    if n > 0 {
        lemma_loudest_held(floor, left, right, (n - 1) as nat);
        assert(held(left, right, n).drop_last() =~= held(left, right, (n - 1) as nat));
        reveal_with_fuel(loudest, 2);
    }
}

/// The peak is that of what is heard.
proof fn lemma_peak(m: MmuModel, stats: ApuModel, n: int)
    requires
        0 <= n <= u32::MAX,
    ensures
        m.accounts(stats, n).dbg_peak == loudest(stats.dbg_peak, samples(m.played(n).1)),
    decreases n,
{
    if n > 0 {
        let s = m.apu.span(n);
        let l = m.apu.mixed(false);
        let r = m.apu.mixed(true);
        let next = m.chans_advanced(s, 16);
        let after = m.apu.with_accounts(stats).accounted();
        lemma_played_once(m, n);
        lemma_mix_stats(m.apu, m.apu.with_accounts(stats));
        lemma_peak(next, after, n - s);
        lemma_loudest_held(stats.dbg_peak, l, r, s as nat);
        lemma_loudest_join(stats.dbg_peak, held(l, r, s as nat), samples(next.played(n - s).1));
    }
}

proof fn lemma_dress_played(m: MmuModel, sound: SoundClock, stats: ApuModel, n: int)
    ensures
        m.dressed(sound, stats).played(n).0 == m.played(n).0.dressed(sound, stats),
        m.dressed(sound, stats).played(n).1 == m.played(n).1,
    decreases n,
{
    if n > 0 {
        let s = m.apu.span(n);
        lemma_edge_stats(m.apu, m.apu.with_accounts(stats), 16);
        lemma_mix_stats(m.apu, m.apu.with_accounts(stats));
        lemma_dress_commutes(m, sound, stats, s, 16);
        lemma_dress_played(m.chans_advanced(s, 16), sound, stats, n - s);
    }
}

/// Whether `p` is where playing `n` cycles of `base` leads, up to what is put off
/// and the statistics, with the spans that were heard and their peak.
#[verifier::opaque]
spec fn reached(base: MmuModel, floor: u64, n: int, p: MmuModel, spans: Seq<ApuSpan>) -> bool {
    &&& p == base.played(n).0.dressed(p.sound, p.apu)
    &&& samples(spans) == samples(base.played(n).1)
    &&& p.apu.dbg_peak == loudest(floor, samples(spans))
}

proof fn lemma_flush_reaches(
    base: MmuModel,
    floor: u64,
    n: int,
    p: MmuModel,
    spans: Seq<ApuSpan>,
)
    requires
        base.apu.wf(),
        0 <= n,
        n + p.sound.pending <= u32::MAX,
        reached(base, floor, n, p, spans),
    ensures
        reached(
            base,
            floor,
            n + p.sound.pending,
            p.sound_flushed(),
            spans + p.flushed_spans(),
        ),
        p.sound_flushed().sound == SoundClock::settled(),
{
    reveal(reached);
    let k = p.sound.pending as int;
    let q = base.played(n).0;
    let start = MmuModel { sound: SoundClock::settled(), ..p };
    assert(start == q.dressed(SoundClock::settled(), p.apu));
    lemma_dress_played(q, SoundClock::settled(), p.apu, k);
    law_rendering_is_independent_of_slicing(base, n, k);
    lemma_samples_join(spans, p.flushed_spans());
    lemma_peak(start, start.apu, k);
    lemma_loudest_join(floor, samples(spans), samples(p.flushed_spans()));
    let end = p.sound_flushed();
    assert(end == base.played(n + k).0.dressed(end.sound, end.apu));
}

proof fn lemma_same_end(
    base: MmuModel,
    floor: u64,
    n: int,
    p: MmuModel,
    s: Seq<ApuSpan>,
    q: MmuModel,
    t: Seq<ApuSpan>,
)
    requires
        reached(base, floor, n, p, s),
        reached(base, floor, n, q, t),
        p.sound == q.sound,
    ensures
        samples(s) == samples(t),
        p == q.with_apu(
            (ApuModel {
                dbg_clip: p.apu.dbg_clip,
                dbg_samples: p.apu.dbg_samples,
                ..q.apu
            }),
        ),
{
    reveal(reached);
}

proof fn lemma_ticks_reach(m: MmuModel, slices: Seq<u32>)
    requires
        m.apu.wf(),
        m.sound.pending + total(slices) <= u32::MAX,
    ensures
        ({
            let base = MmuModel { sound: SoundClock::settled(), ..m };
            let p = m.sound_ticked_by(slices);
            let n = m.sound.pending + total(slices) - p.0.sound.pending;
            0 <= n && reached(base, m.apu.dbg_peak, n, p.0, p.1)
        }),
    decreases slices.len(),
{
    reveal(reached);
    let base = MmuModel { sound: SoundClock::settled(), ..m };
    let floor = m.apu.dbg_peak;
    if slices.len() == 0 {
        assert(base.played(0) == (base, Seq::<ApuSpan>::empty()));
        assert(m == base.dressed(m.sound, m.apu));
    } else {
        let prefix = slices.drop_last();
        let c = slices.last();
        lemma_ticks_reach(m, prefix);
        let p = m.sound_ticked_by(prefix);
        let n = m.sound.pending + total(prefix) - p.0.sound.pending;
        let d = p.0.sound_deferred(c);
        assert(d.sound.pending == p.0.sound.pending + c);
        assert(d == base.played(n).0.dressed(d.sound, d.apu));
        if d.sound_due() {
            lemma_flush_reaches(base, floor, n, d, p.1);
        } else {
            assert(p.1 + Seq::<ApuSpan>::empty() =~= p.1);
        }
    }
}

proof fn lemma_end_reached(m: MmuModel, slices: Seq<u32>)
    requires
        m.apu.wf(),
        m.sound.pending + total(slices) <= u32::MAX,
    ensures
        reached(
            (MmuModel { sound: SoundClock::settled(), ..m }),
            m.apu.dbg_peak,
            m.sound.pending + total(slices),
            m.sound_played_by(slices).0,
            m.sound_played_by(slices).1,
        ),
        m.sound_played_by(slices).0.sound == SoundClock::settled(),
{
    let base = MmuModel { sound: SoundClock::settled(), ..m };
    let p = m.sound_ticked_by(slices);
    lemma_ticks_reach(m, slices);
    lemma_flush_reaches(
        base,
        m.apu.dbg_peak,
        m.sound.pending + total(slices) - p.0.sound.pending,
        p.0,
        p.1,
    );
}

/// How the caller slices time does not matter: cycles accepted in slices, with
/// what is left over rendered at the end, give the same mix on every cycle and the
/// same final state whatever the slices. The exception are the counts of spans,
/// which depend on where spans are cut.
pub proof fn law_ticks_are_independent_of_slicing(m: MmuModel, a: Seq<u32>, b: Seq<u32>)
    requires
        m.apu.wf(),
        total(a) == total(b),
        m.sound.pending + total(a) <= u32::MAX,
    ensures
        samples(m.sound_played_by(a).1) == samples(m.sound_played_by(b).1),
        m.sound_played_by(a).0 == ({
            let end = m.sound_played_by(b).0;
            let counts = m.sound_played_by(a).0.apu;
            end.with_apu(
                ApuModel {
                    dbg_clip: counts.dbg_clip,
                    dbg_samples: counts.dbg_samples,
                    ..end.apu
                },
            )
        }),
{
    let base = MmuModel { sound: SoundClock::settled(), ..m };
    let floor = m.apu.dbg_peak;
    let n = m.sound.pending + total(a);
    lemma_end_reached(m, a);
    lemma_end_reached(m, b);
    lemma_same_end(
        base,
        floor,
        n,
        m.sound_played_by(a).0,
        m.sound_played_by(a).1,
        m.sound_played_by(b).0,
        m.sound_played_by(b).1,
    );
}

/// A channel consumes a source sample for every period that its clock holds, and
/// keeps the rest: twice the distance of its timer value to 0x10000. Stated of
/// signed bytes before the end of the sample: as many bytes are consumed, and the
/// last of them is heard.
pub proof fn law_channels_keep_time(m: MmuModel, i: int, ch: NdsChannel, p: int, k: int, rest: int)
    requires
        ch.cnt / 0x2000_0000 % 4 == 0,
        ch.active,
        p == 2 * (0x1_0000 - ch.tmr),
        0 <= k,
        0 <= rest < p,
        ch.timer_acc == k * p + rest,
        ch.cursor + k < 4 * (ch.pnt + ch.len),
        ch.cursor + k <= u32::MAX,
    ensures
        ({
            let r = m.chan_ran(i, ch);
            &&& r.cursor == ch.cursor + k
            &&& r.timer_acc == rest
            &&& r.active
            &&& k > 0 ==> ({
                let b = m.byte7(ch.sad.wrapping_add((ch.cursor + k - 1) as u32));
                r.sample == (if b < 0x80 {
                    b as int
                } else {
                    b - 0x100
                }) * 0x100
            })
        }),
    decreases k,
{
    assert(p == ch.spec_period());
    if k > 0 {
        assert(k * p == (k - 1) * p + p) by (nonlinear_arith);
        assert((k - 1) * p >= 0) by (nonlinear_arith)
            requires
                k >= 1,
                p >= 0,
        ;
        let a = ch.sad.wrapping_add(ch.cursor);
        let b0 = m.byte7(a);
        let b1 = m.byte7(a.wrapping_add(1));
        let s = ch.at_clock(ch.timer_acc - p);
        let c = s.stepped(i, b0, b1);
        lemma_step_keeps_clock(s, i, b0, b1);
        law_channels_keep_time(m, i, c, p, k - 1, rest);
    } else {
        assert(k * p == 0) by (nonlinear_arith)
            requires
                k == 0,
        ;
    }
}

} // verus!
