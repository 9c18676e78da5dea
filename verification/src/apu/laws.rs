//! What the sound channels play and how they are mixed.

use vstd::prelude::*;
use crate::apu;
use crate::apu::{ApuModel, NdsChannel, ADPCM_STEPS};

verus! {

/// Signed bytes are the upper half of their samples; one byte makes a sample.
pub proof fn law_byte_samples(ch: NdsChannel, index: int, v: int, b0: u8, b1: u8)
    requires
        ch.cnt / 0x2000_0000 % 4 == 0,
        -0x80 <= v < 0x80,
        b0 == v % 0x100,
        ch.cursor + 1 < 4 * (ch.pnt + ch.len),
        ch.cursor < u32::MAX,
    ensures
        ch.stepped(index, b0, b1) == (NdsChannel {
            sample: (v * 0x100) as i16,
            cursor: (ch.cursor + 1) as u32,
            ..ch
        }),
{
}

/// Signed halfwords are samples, low byte first; two bytes make a sample.
pub proof fn law_halfword_samples(ch: NdsChannel, index: int, v: int, b0: u8, b1: u8)
    requires
        ch.cnt / 0x2000_0000 % 4 == 1,
        -0x8000 <= v < 0x8000,
        b0 == v % 0x100,
        b1 == v / 0x100 % 0x100,
        ch.cursor + 2 < 4 * (ch.pnt + ch.len),
        ch.cursor < 0xFFFF_0000,
    ensures
        ch.stepped(index, b0, b1) == (NdsChannel {
            sample: v as i16,
            cursor: (ch.cursor + 2) as u32,
            ..ch
        }),
{
    let h = v / 0x100;
    assert(v == h * 0x100 + b0);
    assert(-0x80 <= h < 0x80);
    assert(b1 == h || b1 == h + 0x100);
}

/// A byte of compressed sound holds two samples, the first in its low half: the two
/// steps decode the one and then the other, and together move on by one byte.
pub proof fn law_compressed_bytes_play_low_half_first(
    ch: NdsChannel,
    index: int,
    lo: u8,
    hi: u8,
    b: u8,
    x: u8,
    y: u8,
)
    requires
        ch.cnt / 0x2000_0000 % 4 == 2,
        !ch.adpcm_high,
        lo < 16,
        hi < 16,
        b == lo + 16 * hi,
        ch.cursor + 1 < 4 * (ch.pnt + ch.len),
        ch.cursor < u32::MAX,
    ensures
        ({
            let one = ch.stepped(index, b, x);
            let two = one.stepped(index, b, y);
            let first = ch.decoded(lo);
            let second = first.decoded(hi);
            &&& one.adpcm_val == first.adpcm_val && one.adpcm_idx == first.adpcm_idx
            &&& one.sample == first.sample && one.cursor == ch.cursor && one.active == ch.active
            &&& two.adpcm_val == second.adpcm_val && two.adpcm_idx == second.adpcm_idx
            &&& two.sample == second.sample && two.active == ch.active
            &&& two.cursor == ch.cursor + 1 && !two.adpcm_high
        }),
{
    assert(b % 16 == lo && b / 16 == hi);
    let one = ch.stepped(index, b, x);
    assert(one.cnt == ch.cnt && one.pnt == ch.pnt && one.len == ch.len);
    assert(one.adpcm_high);
}

/// Decoding adds a difference that is linear in the bits of the nibble: an eighth
/// of the step, a quarter more for bit 0, a half for bit 1 and the whole for bit 2,
/// and bit 3 takes it away instead. Away from the limits of the value.
#[verifier::rlimit(40)]
#[verifier::spinoff_prover]
pub proof fn law_compressed_differences(ch: NdsChannel, m: u8, step: int)
    requires
        0 <= ch.adpcm_idx <= 88,
        step == ADPCM_STEPS@[ch.adpcm_idx as int],
        m < 8,
        -0x7FFF <= ch.adpcm_val - 2 * step,
        ch.adpcm_val + 2 * step <= 0x7FFF,
    ensures
        ch.decoded(0).adpcm_val - ch.adpcm_val == step / 8,
        m % 2 == 0 ==> ch.decoded((m + 1) as u8).adpcm_val - ch.decoded(m).adpcm_val == step / 4,
        m / 2 % 2 == 0 ==> ch.decoded((m + 2) as u8).adpcm_val - ch.decoded(m).adpcm_val == step / 2,
        m / 4 == 0 ==> ch.decoded((m + 4) as u8).adpcm_val - ch.decoded(m).adpcm_val == step,
        ch.decoded((m + 8) as u8).adpcm_val - ch.adpcm_val == ch.adpcm_val - ch.decoded(m).adpcm_val,
        ch.decoded(m).sample == ch.decoded(m).adpcm_val,
{
}

/// Small differences shorten the step by one place of the table, large ones
/// lengthen it by 2, 4, 6 or 8, whatever the sign. Away from the ends of the table.
pub proof fn law_compressed_steps_adapt(ch: NdsChannel, m: u8)
    requires
        1 <= ch.adpcm_idx <= 80,
        m < 8,
    ensures
        m < 4 ==> ch.decoded(m).adpcm_idx == ch.adpcm_idx - 1,
        ch.decoded(4).adpcm_idx == ch.adpcm_idx + 2,
        4 <= m < 7 ==> ch.decoded((m + 1) as u8).adpcm_idx == ch.decoded(m).adpcm_idx + 2,
        ch.decoded((m + 8) as u8).adpcm_idx == ch.decoded(m).adpcm_idx,
{
}

/// The steps grow by a tenth from place to place, from 7 up to the largest sample.
#[verifier::rlimit(40)]
#[verifier::spinoff_prover]
pub proof fn law_steps_grow_by_a_tenth(i: int)
    requires
        0 <= i < 88,
    ensures
        ADPCM_STEPS@[0] == 7,
        ADPCM_STEPS@[88] == 0x7FFF,
        ADPCM_STEPS@[i] < ADPCM_STEPS@[i + 1],
        -10 <= 10 * ADPCM_STEPS@[i + 1] - 11 * ADPCM_STEPS@[i] <= 10 || i == 87,
{
}

/// Keying a compressed channel on takes the first sample and its step from the
/// header word, and starts behind it; the others start at their first byte.
pub proof fn law_header_starts_the_decoder(ch: NdsChannel, v: int, i: int, header: u32)
    requires
        -0x8000 <= v < 0x8000,
        0 <= i <= 88,
        header == v % 0x1_0000 + 0x1_0000 * i,
    ensures
        ({
            let k = ch.keyed_on(header);
            &&& k.active && k.timer_acc == 0 && !k.adpcm_high
            &&& ch.cnt / 0x2000_0000 % 4 == 2 ==> k.adpcm_val == v && k.adpcm_idx == i && k.cursor
                == 4 && k.adpcm_loop_val == v && k.adpcm_loop_idx == i
            &&& ch.cnt / 0x2000_0000 % 4 != 2 ==> k.cursor == 0
            &&& k.noise_lfsr == 0x7FFF && k.psg_phase == 0
        }),
{
    let h = v % 0x1_0000;
    assert(header as int % 0x1_0000 == h && header as int / 0x1_0000 == i);
    assert(h == v || h == v + 0x1_0000);
}

/// The noise of the last two channels: the lowest bit of a 15-bit register makes
/// the sample, low for a one, and comes back in at the top, and into the place
/// below it by exclusive or.
pub proof fn law_noise_register(ch: NdsChannel, index: int, x: u16)
    requires
        index == 14 || index == 15,
        ch.noise_lfsr == x,
        x < 0x8000,
    ensures
        ({
            let n = ch.generated(index);
            let y = n.noise_lfsr;
            &&& y / 0x4000 == x % 2
            &&& (y / 0x2000 % 2 == 1) == ((x / 0x4000 % 2 == 1) != (x % 2 == 1))
            &&& y % 0x2000 == x / 2 % 0x2000
            &&& n.sample == (if x % 2 == 1 {
                -0x7FFF
            } else {
                0x7FFF
            })
        }),
{
    let h = x / 2;
    assert(h < 0x4000);
    assert(((h ^ 0x6000) / 0x4000 == 1) && ((h ^ 0x6000) / 0x2000 % 2 == 1) != (h / 0x2000 % 2 == 1)
        && (h ^ 0x6000) % 0x2000 == h % 0x2000) by (bit_vector)
        requires
            h < 0x4000u16,
    ;
}

/// The rectangular wave is low first: within a turn it rises once and never falls.
pub proof fn law_wave_is_low_first(ch: NdsChannel, index: int)
    requires
        8 <= index < 14,
        ch.psg_phase < 7,
    ensures
        ch.generated(index).psg_phase == ch.psg_phase + 1,
        ch.generated(index).sample > 0 ==> ch.generated(index).generated(index).sample > 0,
        ch.psg_phase == 6 && ch.cnt / 0x100_0000 % 8 != 7 ==> ch.generated(index).generated(
            index,
        ).sample == 0x7FFF,
        ch.generated(index).sample == 0x7FFF || ch.generated(index).sample == -0x7FFF,
{
}

/// A channel that plays alone is heard with its volume, over its divider, split by
/// its pan, times the master volume, in units where the product of the four largest
/// settings stays below full scale. The divider is 1, 2, 4 or 16.
#[verifier::rlimit(40)]
#[verifier::spinoff_prover]
pub proof fn law_lone_channel_is_scaled(
    a: ApuModel,
    i: int,
    vol: int,
    div: int,
    pan: int,
    master: int,
)
    requires
        a.wf(),
        0 <= i < 16,
        forall|j: int| 0 <= j < 16 && j != i ==> !(#[trigger] a.channels[j]).active,
        a.channels[i].active,
        a.channels[i].cnt / 0x2000_0000 % 4 == 3 ==> i >= 8,
        a.soundcnt == 0x8000 + master,
        0 <= master < 128,
        vol == a.channels[i].cnt % 128,
        pan == a.channels[i].cnt / 0x1_0000 % 128,
        div == (if a.channels[i].cnt / 0x100 % 4 == 3 {
            16int
        } else if a.channels[i].cnt / 0x100 % 4 == 2 {
            4
        } else if a.channels[i].cnt / 0x100 % 4 == 1 {
            2
        } else {
            1
        }),
    ensures
        a.mixed(true) * div == a.channels[i].sample * vol * 16 * pan * master,
        a.mixed(false) * div == a.channels[i].sample * vol * 16 * (128 - pan) * master,
{
    let ch = a.channels[i];
    lemma_alone(a.channels, i, 16, true);
    lemma_alone(a.channels, i, 16, false);
    let g = apu::channel_gain(ch.cnt);
    lemma_scaled(ch.sample as int, vol, g, pan, master, div);
    lemma_scaled(ch.sample as int, vol, g, 128 - pan, master, div);
}

proof fn lemma_scaled(s: int, v: int, g: int, p: int, m: int, d: int)
    requires
        -0x8000 <= s <= 0x7FFF,
        0 <= v < 128,
        g == 1 && d == 16 || g == 4 && d == 4 || g == 8 && d == 2 || g == 16 && d == 1,
        0 <= p <= 128,
        0 <= m < 128,
    ensures
        -0x100_0000_0000 <= s * v * g * p * m <= 0x100_0000_0000,
        s * v * g * p * m * d == s * v * 16 * p * m,
{
    assert(-0x8000 * 127 <= s * v <= 0x7FFF * 127) by (nonlinear_arith)
        requires
            -0x8000 <= s <= 0x7FFF,
            0 <= v < 128,
    ;
    let a = s * v;
    assert(-0x8000 * 127 * 16 <= a * g <= 0x7FFF * 127 * 16) by (nonlinear_arith)
        requires
            -0x8000 * 127 <= a <= 0x7FFF * 127,
            1 <= g <= 16,
    ;
    let b = a * g;
    assert(-0x8000 * 127 * 16 * 128 <= b * p <= 0x7FFF * 127 * 16 * 128) by (nonlinear_arith)
        requires
            -0x8000 * 127 * 16 <= b <= 0x7FFF * 127 * 16,
            0 <= p <= 128,
    ;
    let c = b * p;
    assert(-0x8000 * 127 * 16 * 128 * 127 <= c * m <= 0x7FFF * 127 * 16 * 128 * 127)
        by (nonlinear_arith)
        requires
            -0x8000 * 127 * 16 * 128 <= c <= 0x7FFF * 127 * 16 * 128,
            0 <= m < 128,
    ;
    assert(a * g * p * m * d == a * 16 * p * m) by (nonlinear_arith)
        requires
            g * d == 16,
    ;
}

proof fn lemma_alone(channels: Seq<NdsChannel>, i: int, n: int, right: bool)
    requires
        0 <= n <= channels.len(),
        0 <= i < channels.len(),
        forall|j: int| 0 <= j < channels.len() && j != i ==> !(#[trigger] channels[j]).active,
    ensures
        apu::mix_sum(channels, n, right) == (if i < n {
            apu::channel_level(channels[i], i, right)
        } else {
            0
        }),
    decreases n,
{
    if n > 0 {
        lemma_alone(channels, i, n - 1, right);
    }
}

/// Channels add up: what is heard of all is what is heard without one of them plus
/// what that one gives alone, as long as none of the three reaches the limits.
pub proof fn law_channels_add_up(a: ApuModel, i: int, right: bool)
    requires
        a.wf(),
        0 <= i < 16,
    ensures
        ({
            let without = ApuModel {
                channels: a.channels.update(i, NdsChannel { active: false, ..a.channels[i] }),
                ..a
            };
            let alone = ApuModel {
                channels: Seq::new(
                    16,
                    |j: int|
                        NdsChannel {
                            active: a.channels[j].active && j == i,
                            ..a.channels[j]
                        },
                ),
                ..a
            };
            let full = apu::MIX_ONE;
            -full < a.mixed(right) < full && -full < without.mixed(right) < full && -full
                < alone.mixed(right) < full ==> a.mixed(right) == without.mixed(right)
                + alone.mixed(right)
        }),
{
    let w = a.channels.update(i, NdsChannel { active: false, ..a.channels[i] });
    let o = Seq::new(
        16,
        |j: int| NdsChannel { active: a.channels[j].active && j == i, ..a.channels[j] },
    );
    lemma_alone(o, i, 16, right);
    lemma_without(a.channels, w, i, 16, right);
    let m = a.soundcnt as int % 128;
    let x = apu::mix_sum(w, 16, right);
    let y = apu::channel_level(a.channels[i], i, right);
    assert(apu::channel_level(o[i], i, right) == y);
    assert((x + y) * m == x * m + y * m) by (nonlinear_arith);
}

proof fn lemma_without(
    channels: Seq<NdsChannel>,
    w: Seq<NdsChannel>,
    i: int,
    n: int,
    right: bool,
)
    requires
        0 <= n <= channels.len(),
        0 <= i < channels.len(),
        w == channels.update(i, NdsChannel { active: false, ..channels[i] }),
    ensures
        apu::mix_sum(channels, n, right) == apu::mix_sum(w, n, right) + (if i < n {
            apu::channel_level(channels[i], i, right)
        } else {
            0
        }),
    decreases n,
{
    if n > 0 {
        lemma_without(channels, w, i, n - 1, right);
    }
}

} // verus!
