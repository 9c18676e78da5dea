//! Sound channels: register file, sample decoding and the stereo mix.
//!
//! Channels play 8-bit and 16-bit PCM, IMA-ADPCM, rectangular waves (channels 8
//! to 13) and noise (channels 14 and 15). Sample fetches go through the memory
//! map, so this module takes the fetched bytes as arguments.

use vstd::prelude::*;
use crate::bytes;

pub mod laws;

verus! {

/// IMA-ADPCM step table.
pub const ADPCM_STEPS: [u16; 89] = [
    7, 8, 9, 10, 11, 12, 13, 14, 16, 17, 19, 21, 23, 25, 28, 31, 34, 37, 41, 45, 50, 55, 60, 66, 73,
    80, 88, 97, 107, 118, 130, 143, 157, 173, 190, 209, 230, 253, 279, 307, 337, 371, 408, 449, 494,
    544, 598, 658, 724, 796, 876, 963, 1060, 1166, 1282, 1411, 1552, 1707, 1878, 2066, 2272, 2499,
    2749, 3024, 3327, 3660, 4026, 4428, 4871, 5358, 5894, 6484, 7132, 7845, 8630, 9493, 10442, 11487,
    12635, 13899, 15289, 16818, 18500, 20350, 22385, 24623, 27086, 29794, 32767,
];

/// `v` limited to `lo..=hi`.
pub open spec fn clamped(v: int, lo: int, hi: int) -> int {
    if v < lo {
        lo
    } else if v > hi {
        hi
    } else {
        v
    }
}

/// Step-index change for a nibble.
pub open spec fn index_delta(nib: u8) -> int {
    let m = nib as int % 8;
    if m < 4 {
        -1
    } else {
        2 * (m - 3)
    }
}

/// Magnitude of the sample change for a nibble at a step size.
pub open spec fn adpcm_diff(step: int, nib: u8) -> int {
    step / 8 + (if nib % 2 == 1 {
        step / 4
    } else {
        0
    }) + (if nib / 2 % 2 == 1 {
        step / 2
    } else {
        0
    }) + (if nib / 4 % 2 == 1 {
        step
    } else {
        0
    })
}

/// One sound channel: its registers and its playback state.
#[derive(Clone, Copy, Debug, PartialEq, Eq, Structural)]
pub struct NdsChannel {
    /// Control word as written.
    pub cnt: u32,
    /// Source address.
    pub sad: u32,
    /// Timer reload; the sample period is twice the distance to 0x10000.
    pub tmr: u16,
    /// Loop start in words.
    pub pnt: u16,
    /// Length past the loop start in words.
    pub len: u32,
    /// Whether the channel plays.
    pub active: bool,
    /// Byte offset of the next source unit.
    pub cursor: u32,
    /// Bus cycles accumulated toward the next sample.
    pub timer_acc: u32,
    /// Current output sample.
    pub sample: i16,
    /// Whether the next nibble is the high one.
    pub adpcm_high: bool,
    pub adpcm_val: i32,
    pub adpcm_idx: i32,
    /// Decoder state at the loop start, resumed on every wrap.
    pub adpcm_loop_val: i32,
    pub adpcm_loop_idx: i32,
    /// Position in the duty sequence.
    pub psg_phase: u8,
    /// Noise shift register.
    pub noise_lfsr: u16,
}

impl Default for NdsChannel {
    fn default() -> (r: Self)
        ensures
            r == NdsChannel::silent(),
    {
        NdsChannel {
            cnt: 0,
            sad: 0,
            tmr: 0,
            pnt: 0,
            len: 0,
            active: false,
            cursor: 0,
            timer_acc: 0,
            sample: 0,
            adpcm_high: false,
            adpcm_val: 0,
            adpcm_idx: 0,
            adpcm_loop_val: 0,
            adpcm_loop_idx: 0,
            psg_phase: 0,
            noise_lfsr: 0,
        }
    }
}

impl NdsChannel {
    pub open spec fn silent() -> NdsChannel {
        NdsChannel {
            cnt: 0,
            sad: 0,
            tmr: 0,
            pnt: 0,
            len: 0,
            active: false,
            cursor: 0,
            timer_acc: 0,
            sample: 0,
            adpcm_high: false,
            adpcm_val: 0,
            adpcm_idx: 0,
            adpcm_loop_val: 0,
            adpcm_loop_idx: 0,
            psg_phase: 0,
            noise_lfsr: 0,
        }
    }

    /// Ranges that register writes, key-on and decoding keep.
    pub open spec fn wf(self) -> bool {
        &&& self.len <= 0x3F_FFFF
        &&& self.timer_acc <= 0x2_0000
        &&& -0x8000 <= self.adpcm_val <= 0x7FFF
        &&& -0x8000 <= self.adpcm_loop_val <= 0x7FFF
    }

    pub open spec fn spec_format(self) -> u32 {
        self.cnt / 0x2000_0000 % 4
    }

    pub open spec fn spec_repeat_mode(self) -> u32 {
        self.cnt / 0x800_0000 % 4
    }

    pub open spec fn spec_total_bytes(self) -> int {
        (self.pnt + self.len) * 4
    }

    /// Loop start in bytes; for ADPCM never inside the header word.
    pub open spec fn spec_loop_start(self) -> u32 {
        if self.spec_format() == 2 && self.pnt == 0 {
            4
        } else {
            (self.pnt * 4) as u32
        }
    }

    pub open spec fn spec_period(self) -> u32 {
        (2 * (0x1_0000 - self.tmr)) as u32
    }

    /// Sample format: 0 and 1 PCM, 2 ADPCM, 3 generated.
    pub fn format(&self) -> (f: u32)
        ensures
            f == self.spec_format(),
            f < 4,
    {
        self.cnt / 0x2000_0000 % 4
    }

    /// What happens at the end of the sample.
    pub fn repeat_mode(&self) -> (m: u32)
        ensures
            m == self.spec_repeat_mode(),
            m < 4,
    {
        self.cnt / 0x800_0000 % 4
    }

    /// Playable bytes.
    pub fn total_bytes(&self) -> (n: u32)
        requires
            self.pnt + self.len <= 0x3FFF_FFFF,
        ensures
            n == self.spec_total_bytes(),
    {
        (self.pnt as u32 + self.len) * 4
    }

    /// Where a loop restarts, in bytes.
    pub fn loop_start_bytes(&self) -> (n: u32)
        ensures
            n == self.spec_loop_start(),
    {
        let p: u32 = self.pnt as u32 * 4;
        if self.format() == 2 && p < 4 {
            4
        } else {
            p
        }
    }

    /// Sample period in bus cycles, at least two.
    pub fn period_cycles(&self) -> (n: u32)
        ensures
            n == self.spec_period(),
            2 <= n <= 0x2_0000,
    {
        2 * (0x1_0000 - self.tmr as u32)
    }

    /// State after decoding one nibble.
    pub open spec fn decoded(self, nib: u8) -> NdsChannel {
        let idx = clamped(self.adpcm_idx as int, 0, 88);
        let diff = adpcm_diff(ADPCM_STEPS@[idx] as int, nib);
        let val = if nib / 8 % 2 == 1 {
            if self.adpcm_val - diff < -0x7FFF {
                -0x7FFFi32
            } else {
                (self.adpcm_val - diff) as i32
            }
        } else {
            if self.adpcm_val + diff > 0x7FFF {
                0x7FFFi32
            } else {
                (self.adpcm_val + diff) as i32
            }
        };
        NdsChannel {
            adpcm_val: val,
            adpcm_idx: clamped(idx + index_delta(nib), 0, 88) as i32,
            sample: val as i16,
            ..self
        }
    }

    /// Whether adding or subtracting the difference of a nibble stays in range.
    pub open spec fn decodable(self, nib: u8) -> bool {
        let idx = clamped(self.adpcm_idx as int, 0, 88);
        let diff = adpcm_diff(ADPCM_STEPS@[idx] as int, nib);
        if nib / 8 % 2 == 1 {
            self.adpcm_val - diff >= i32::MIN
        } else {
            self.adpcm_val + diff <= i32::MAX
        }
    }

    /// Decodes one nibble into the current sample. The value saturates at
    /// plus and minus 0x7FFF and the step index at 0 and 88.
    #[verifier::spinoff_prover]
    #[verifier::rlimit(40)]
    pub fn adpcm_decode(&mut self, nib: u8)
        requires
            old(self).decodable(nib),
        ensures
            *final(self) == old(self).decoded(nib),
            old(self).wf() ==> final(self).wf(),
    {
        let idx: i32 = if self.adpcm_idx < 0 {
            0
        } else if self.adpcm_idx > 88 {
            88
        } else {
            self.adpcm_idx
        };
        let step: u32 = ADPCM_STEPS[idx as usize] as u32;
        let mut diff: u32 = step / 8;
        if nib % 2 == 1 {
            diff = diff + step / 4;
        }
        if nib / 2 % 2 == 1 {
            diff = diff + step / 2;
        }
        if nib / 4 % 2 == 1 {
            diff = diff + step;
        }
        let d: i32 = diff as i32;
        if nib / 8 % 2 == 1 {
            let v: i32 = self.adpcm_val - d;
            self.adpcm_val = if v < -0x7FFF { -0x7FFF } else { v };
        } else {
            let v: i32 = self.adpcm_val + d;
            self.adpcm_val = if v > 0x7FFF { 0x7FFF } else { v };
        }
        let m: i32 = (nib % 8) as i32;
        let next: i32 = idx + (if m < 4 { -1 } else { 2 * (m - 3) });
        self.adpcm_idx = if next < 0 {
            0
        } else if next > 88 {
            88
        } else {
            next
        };
        self.sample = self.adpcm_val as i16;
    }

    /// Level of the rectangular wave at a phase: low for the first `7 - duty`
    /// eighths, then high; duty 7 is always low.
    pub open spec fn wave_level(duty: int, phase: int) -> i16 {
        if duty == 7 || phase < 7 - duty {
            -0x7FFFi16
        } else {
            0x7FFFi16
        }
    }

    pub open spec fn spec_duty(self) -> int {
        self.cnt as int / 0x100_0000 % 8
    }

    /// State after one clock of the generator of channel `index`.
    pub open spec fn generated(self, index: int) -> NdsChannel {
        if index >= 14 {
            if self.noise_lfsr % 2 == 1 {
                NdsChannel {
                    noise_lfsr: (self.noise_lfsr / 2) ^ 0x6000,
                    sample: -0x7FFFi16,
                    ..self
                }
            } else {
                NdsChannel { noise_lfsr: self.noise_lfsr / 2, sample: 0x7FFF, ..self }
            }
        } else if index >= 8 {
            NdsChannel {
                psg_phase: self.psg_phase.wrapping_add(1) % 8,
                sample: NdsChannel::wave_level(self.spec_duty(), self.psg_phase as int),
                ..self
            }
        } else {
            self
        }
    }

    /// Clocks the generator: noise on channels 14 and 15, rectangular wave on
    /// channels 8 to 13, nothing below.
    pub fn psg_step(&mut self, index: usize)
        ensures
            *final(self) == old(self).generated(index as int),
    {
        if index >= 14 {
            if self.noise_lfsr % 2 == 1 {
                self.noise_lfsr = (self.noise_lfsr / 2) ^ 0x6000;
                self.sample = -0x7FFF;
            } else {
                self.noise_lfsr = self.noise_lfsr / 2;
                self.sample = 0x7FFF;
            }
        } else if index >= 8 {
            let duty: u8 = (self.cnt / 0x100_0000 % 8) as u8;
            let phase: u8 = self.psg_phase;
            self.psg_phase = phase.wrapping_add(1) % 8;
            self.sample = if duty == 7 || phase < 7 - duty { -0x7FFF } else { 0x7FFF };
        }
    }

    /// State once keyed on. ADPCM starts from the header word: initial sample
    /// in the low half, step index above it.
    pub open spec fn keyed_on(self, header: u32) -> NdsChannel {
        let s = NdsChannel {
            active: true,
            timer_acc: 0,
            sample: 0,
            adpcm_high: false,
            psg_phase: 0,
            noise_lfsr: 0x7FFF,
            cursor: 0,
            ..self
        };
        if self.spec_format() == 2 {
            let half = header as int % 0x1_0000;
            let val = (if half >= 0x8000 {
                half - 0x1_0000
            } else {
                half
            }) as i32;
            let idx = clamped(header as int / 0x1_0000 % 0x80, 0, 88) as i32;
            NdsChannel {
                adpcm_val: val,
                adpcm_idx: idx,
                adpcm_loop_val: val,
                adpcm_loop_idx: idx,
                cursor: 4,
                ..s
            }
        } else {
            s
        }
    }

    /// Keys the channel on, given the word at its source address.
    pub fn key_on(&mut self, header: u32)
        ensures
            *final(self) == old(self).keyed_on(header),
            old(self).wf() ==> final(self).wf(),
    {
        self.active = true;
        self.timer_acc = 0;
        self.sample = 0;
        self.adpcm_high = false;
        self.psg_phase = 0;
        self.noise_lfsr = 0x7FFF;
        if self.format() == 2 {
            let half: u32 = header % 0x1_0000;
            self.adpcm_val = if half >= 0x8000 { half as i32 - 0x1_0000 } else { half as i32 };
            let idx: u32 = header / 0x1_0000 % 0x80;
            self.adpcm_idx = if idx > 88 { 88 } else { idx as i32 };
            self.adpcm_loop_val = self.adpcm_val;
            self.adpcm_loop_idx = self.adpcm_idx;
            self.cursor = 4;
        } else {
            self.cursor = 0;
        }
    }

    /// A byte as the upper half of a sample.
    pub open spec fn pcm8_sample(b: u8) -> i16 {
        (if b >= 0x80 {
            (b - 0x100) * 0x100
        } else {
            b * 0x100
        }) as i16
    }

    /// Two bytes as a sample.
    pub open spec fn pcm16_sample(b0: u8, b1: u8) -> i16 {
        (if b1 >= 0x80 {
            b0 + (b1 - 0x100) * 0x100
        } else {
            b0 + b1 * 0x100
        }) as i16
    }

    /// State after consuming one source unit, the end of the sample aside.
    pub open spec fn fetched(self, b0: u8, b1: u8) -> NdsChannel {
        if self.spec_format() == 0 {
            NdsChannel {
                sample: NdsChannel::pcm8_sample(b0),
                cursor: self.cursor.wrapping_add(1),
                ..self
            }
        } else if self.spec_format() == 1 {
            NdsChannel {
                sample: NdsChannel::pcm16_sample(b0, b1),
                cursor: self.cursor.wrapping_add(2),
                ..self
            }
        } else {
            let d = NdsChannel {
                cursor: if self.adpcm_high {
                    self.cursor.wrapping_add(1)
                } else {
                    self.cursor
                },
                adpcm_high: !self.adpcm_high,
                ..self
            }.decoded(if self.adpcm_high {
                b0 / 16
            } else {
                b0 % 16
            });
            if d.cursor == d.spec_loop_start() && !d.adpcm_high {
                NdsChannel {
                    adpcm_loop_val: d.adpcm_val,
                    adpcm_loop_idx: d.adpcm_idx,
                    ..d
                }
            } else {
                d
            }
        }
    }

    /// State at the end of the sample: looping modes restart from the loop
    /// point and its decoder state, the others stop.
    pub open spec fn ended(self) -> NdsChannel {
        if self.spec_repeat_mode() % 2 == 1 {
            let s = NdsChannel { cursor: self.spec_loop_start(), ..self };
            if self.spec_format() == 2 {
                NdsChannel {
                    adpcm_val: self.adpcm_loop_val,
                    adpcm_idx: self.adpcm_loop_idx,
                    adpcm_high: false,
                    ..s
                }
            } else {
                s
            }
        } else {
            NdsChannel {
                active: false,
                cnt: self.cnt % 0x8000_0000,
                sample: if self.cnt / 0x8000 % 2 == 0 {
                    0
                } else {
                    self.sample
                },
                ..self
            }
        }
    }

    /// State after one source sample of channel `index`, `b0` and `b1` being
    /// the bytes at the cursor.
    pub open spec fn stepped(self, index: int, b0: u8, b1: u8) -> NdsChannel {
        if self.spec_format() == 3 {
            self.generated(index)
        } else {
            let f = self.fetched(b0, b1);
            if f.cursor >= f.spec_total_bytes() {
                f.ended()
            } else {
                f
            }
        }
    }

    /// Produces the next source sample.
    pub fn step(&mut self, index: usize, b0: u8, b1: u8)
        requires
            old(self).wf(),
        ensures
            *final(self) == old(self).stepped(index as int, b0, b1),
            final(self).wf(),
            final(self).timer_acc == old(self).timer_acc,
            final(self).tmr == old(self).tmr,
    {
        let format: u32 = self.format();
        if format == 3 {
            self.psg_step(index);
            return;
        }
        if format == 0 {
            self.sample = if b0 >= 0x80 {
                (b0 as i16 - 0x100) * 0x100
            } else {
                b0 as i16 * 0x100
            };
            self.cursor = self.cursor.wrapping_add(1);
        } else if format == 1 {
            self.sample = if b1 >= 0x80 {
                b0 as i16 + (b1 as i16 - 0x100) * 0x100
            } else {
                b0 as i16 + b1 as i16 * 0x100
            };
            self.cursor = self.cursor.wrapping_add(2);
        } else {
            let nib: u8 = if self.adpcm_high { b0 / 16 } else { b0 % 16 };
            if self.adpcm_high {
                self.cursor = self.cursor.wrapping_add(1);
            }
            self.adpcm_high = !self.adpcm_high;
            self.adpcm_decode(nib);
            if self.cursor == self.loop_start_bytes() && !self.adpcm_high {
                self.adpcm_loop_val = self.adpcm_val;
                self.adpcm_loop_idx = self.adpcm_idx;
            }
        }
        if self.cursor >= self.total_bytes() {
            if self.repeat_mode() % 2 == 1 {
                self.cursor = self.loop_start_bytes();
                if format == 2 {
                    self.adpcm_val = self.adpcm_loop_val;
                    self.adpcm_idx = self.adpcm_loop_idx;
                    self.adpcm_high = false;
                }
            } else {
                self.active = false;
                let hold: bool = self.cnt / 0x8000 % 2 == 1;
                self.cnt = self.cnt % 0x8000_0000;
                if !hold {
                    self.sample = 0;
                }
            }
        }
    }

    /// State after a register write of byte `reg`, the key-on edge aside.
    pub open spec fn with_reg(self, reg: int, val: u8) -> NdsChannel {
        if reg < 3 {
            NdsChannel { cnt: bytes::set_byte(self.cnt, reg, val), ..self }
        } else if reg == 3 {
            NdsChannel {
                cnt: bytes::set_byte(self.cnt, 3, val),
                active: self.active && val >= 0x80,
                ..self
            }
        } else if reg < 8 {
            NdsChannel { sad: bytes::set_byte(self.sad, reg - 4, val) % 0x800_0000, ..self }
        } else if reg == 8 {
            NdsChannel { tmr: bytes::le16(val, bytes::hi(self.tmr)), ..self }
        } else if reg == 9 {
            NdsChannel { tmr: bytes::le16(bytes::lo(self.tmr), val), ..self }
        } else if reg == 0xA {
            NdsChannel { pnt: bytes::le16(val, bytes::hi(self.pnt)), ..self }
        } else if reg == 0xB {
            NdsChannel { pnt: bytes::le16(bytes::lo(self.pnt), val), ..self }
        } else {
            NdsChannel { len: bytes::set_byte(self.len, reg - 0xC, val) % 0x40_0000, ..self }
        }
    }

    /// Writes byte `reg` of the channel's register block. Clearing the start
    /// bit stops the channel.
    pub fn write_reg(&mut self, reg: u32, val: u8)
        requires
            reg < 16,
        ensures
            *final(self) == old(self).with_reg(reg as int, val),
            old(self).wf() ==> final(self).wf(),
    {
        if reg < 3 {
            self.cnt = bytes::put_byte(self.cnt, reg, val);
        } else if reg == 3 {
            self.cnt = bytes::put_byte(self.cnt, 3, val);
            if val < 0x80 {
                self.active = false;
            }
        } else if reg < 8 {
            self.sad = bytes::put_byte(self.sad, reg - 4, val) % 0x800_0000;
        } else if reg == 8 {
            self.tmr = bytes::halfword(val, bytes::high_byte(self.tmr));
        } else if reg == 9 {
            self.tmr = bytes::halfword(bytes::low_byte(self.tmr), val);
        } else if reg == 0xA {
            self.pnt = bytes::halfword(val, bytes::high_byte(self.pnt));
        } else if reg == 0xB {
            self.pnt = bytes::halfword(bytes::low_byte(self.pnt), val);
        } else {
            self.len = bytes::put_byte(self.len, reg - 0xC, val) % 0x40_0000;
        }
    }
}

/// The mix is computed in units of full scale over two to the fortieth.
pub const MIX_ONE: i64 = 0x100_0000_0000;

/// Mix magnitude from which a sample counts as clipped: 0.999 of full scale.
pub const CLIP_LEVEL: u64 = 1_098_412_116_149;

/// Entries kept in the capture-register log.
pub const CAP_LOG_CAP: usize = 256;

/// Gain of a channel in sixteenths: the volume divider is 1, 2, 4 or 16.
pub open spec fn channel_gain(cnt: u32) -> int {
    let d = cnt / 0x100 % 4;
    if d == 0 {
        16
    } else if d == 1 {
        8
    } else if d == 2 {
        4
    } else {
        1
    }
}

/// Pan position: 0 is left, 127 right.
pub open spec fn channel_pan(cnt: u32) -> int {
    cnt as int / 0x1_0000 % 128
}

/// Whether a channel reaches the mix. Generated sound exists only from channel
/// 8 on.
pub open spec fn audible(ch: NdsChannel, i: int) -> bool {
    ch.active && !(ch.spec_format() == 3 && i < 8)
}

/// Contribution of a channel to one side, before master volume: sample times
/// volume over 128 times gain over 16 times the pan share over 128.
pub open spec fn channel_level(ch: NdsChannel, i: int, right: bool) -> int {
    if audible(ch, i) {
        ch.sample * (ch.cnt as int % 128) * channel_gain(ch.cnt) * (if right {
            channel_pan(ch.cnt)
        } else {
            128 - channel_pan(ch.cnt)
        })
    } else {
        0
    }
}

/// Sum of the contributions of the first `n` channels.
pub open spec fn mix_sum(channels: Seq<NdsChannel>, n: int, right: bool) -> int
    decreases n,
{
    if n <= 0 {
        0
    } else {
        mix_sum(channels, n - 1, right) + channel_level(channels[n - 1], n - 1, right)
    }
}

/// Mathematical state of the mixer and its register file.
pub struct ApuModel {
    pub channels: Seq<NdsChannel>,
    pub soundcnt: u16,
    pub soundbias: u16,
    pub cap_cnt: Seq<u8>,
    pub cap_dad: Seq<u32>,
    pub cap_len: Seq<u16>,
    pub cap_write_log: Seq<(u32, u8)>,
    pub key_ons: Seq<u32>,
    pub dbg_peak: u64,
    pub dbg_clip: u64,
    pub dbg_samples: u64,
    pub dbg_soundcnt_seen: u16,
}

impl ApuModel {
    pub open spec fn wf(self) -> bool {
        &&& self.channels.len() == 16
        &&& forall|i: int| 0 <= i < 16 ==> #[trigger] self.channels[i].wf()
        &&& self.cap_cnt.len() == 2
        &&& self.cap_dad.len() == 2
        &&& self.cap_len.len() == 2
        &&& self.key_ons.len() == 16
    }

    pub open spec fn fresh() -> ApuModel {
        ApuModel {
            channels: Seq::new(16, |i: int| NdsChannel::silent()),
            soundcnt: 0,
            soundbias: 0,
            cap_cnt: Seq::new(2, |i: int| 0u8),
            cap_dad: Seq::new(2, |i: int| 0u32),
            cap_len: Seq::new(2, |i: int| 0u16),
            cap_write_log: Seq::empty(),
            key_ons: Seq::new(16, |i: int| 0u32),
            dbg_peak: 0,
            dbg_clip: 0,
            dbg_samples: 0,
            dbg_soundcnt_seen: 0,
        }
    }

    /// One side of the mix, limited to full scale; silent while the master
    /// enable bit is clear.
    pub open spec fn mixed(self, right: bool) -> i64 {
        if self.soundcnt < 0x8000 {
            0
        } else {
            clamped(
                mix_sum(self.channels, 16, right) * (self.soundcnt as int % 128),
                -MIX_ONE as int,
                MIX_ONE as int,
            ) as i64
        }
    }

    /// Byte read of the register block. Channel control words read back with
    /// the live busy state on top; the other channel registers read zero.
    pub open spec fn reg(self, offset: u32) -> u8 {
        if offset == 0x500 {
            bytes::lo(self.soundcnt)
        } else if offset == 0x501 {
            bytes::hi(self.soundcnt)
        } else if offset == 0x504 {
            bytes::lo(self.soundbias)
        } else if offset == 0x505 {
            bytes::hi(self.soundbias)
        } else if offset == 0x508 || offset == 0x509 {
            self.cap_cnt[offset - 0x508]
        } else if 0x510 <= offset <= 0x513 {
            bytes::byte_of(self.cap_dad[0], offset - 0x510)
        } else if 0x518 <= offset <= 0x51B {
            bytes::byte_of(self.cap_dad[1], offset - 0x518)
        } else if 0x400 <= offset < 0x500 {
            let ch = self.channels[(offset - 0x400) / 16];
            if offset % 16 < 3 {
                bytes::byte_of(ch.cnt, offset as int % 16)
            } else if offset % 16 == 3 {
                (bytes::byte_of(ch.cnt, 3) % 128 + (if ch.active {
                    128int
                } else {
                    0
                })) as u8
            } else {
                0
            }
        } else {
            0
        }
    }

    pub open spec fn logged(self, offset: u32, val: u8) -> ApuModel {
        ApuModel {
            cap_write_log: if self.cap_write_log.len() < CAP_LOG_CAP {
                self.cap_write_log.push((offset, val))
            } else {
                self.cap_write_log
            },
            ..self
        }
    }

    /// Channel that a register write keys on: a rising start bit does so.
    pub open spec fn keys_on(self, offset: u32, val: u8) -> Option<int> {
        if 0x400 <= offset < 0x500 && offset % 16 == 3 && val >= 0x80 && self.channels[(offset
            - 0x400) / 16].cnt < 0x8000_0000 {
            Some((offset - 0x400) / 16)
        } else {
            None
        }
    }

    /// State after a register write, a key-on itself aside.
    pub open spec fn with_reg(self, offset: u32, val: u8) -> ApuModel {
        if offset == 0x500 || offset == 0x501 {
            let c = if offset == 0x500 {
                bytes::le16(val, bytes::hi(self.soundcnt))
            } else {
                bytes::le16(bytes::lo(self.soundcnt), val)
            };
            ApuModel { soundcnt: c, dbg_soundcnt_seen: self.dbg_soundcnt_seen | c, ..self }
        } else if offset == 0x504 {
            ApuModel { soundbias: bytes::le16(val, bytes::hi(self.soundbias)), ..self }
        } else if offset == 0x505 {
            ApuModel { soundbias: bytes::le16(bytes::lo(self.soundbias), val), ..self }
        } else if 0x400 <= offset < 0x500 {
            let i = (offset - 0x400) / 16;
            let s = ApuModel {
                channels: self.channels.update(
                    i,
                    self.channels[i].with_reg(offset as int % 16, val),
                ),
                ..self
            };
            if self.keys_on(offset, val) is Some {
                ApuModel {
                    key_ons: self.key_ons.update(
                        i,
                        if self.key_ons[i] == u32::MAX {
                            u32::MAX
                        } else {
                            (self.key_ons[i] + 1) as u32
                        },
                    ),
                    ..s
                }
            } else {
                s
            }
        } else if offset == 0x508 || offset == 0x509 {
            ApuModel { cap_cnt: self.cap_cnt.update(offset - 0x508, val), ..self }.logged(
                offset,
                val,
            )
        } else if 0x510 <= offset <= 0x513 || 0x518 <= offset <= 0x51B {
            let u = if offset < 0x518 {
                0int
            } else {
                1
            };
            ApuModel {
                cap_dad: self.cap_dad.update(
                    u,
                    bytes::set_byte(self.cap_dad[u], offset as int % 4, val) % 0x800_0000,
                ),
                ..self
            }.logged(offset, val)
        } else if offset == 0x514 || offset == 0x515 || offset == 0x51C || offset == 0x51D {
            let u = if offset < 0x518 {
                0int
            } else {
                1
            };
            ApuModel {
                cap_len: self.cap_len.update(
                    u,
                    if offset % 2 == 0 {
                        bytes::le16(val, bytes::hi(self.cap_len[u]))
                    } else {
                        bytes::le16(bytes::lo(self.cap_len[u]), val)
                    },
                ),
                ..self
            }.logged(offset, val)
        } else {
            self
        }
    }

    /// Cycles until the earliest active channel among the first `n` consumes
    /// its next sample; the largest value when none is active.
    pub open spec fn next_edge(self, n: int) -> u32
        decreases n,
    {
        if n <= 0 {
            u32::MAX
        } else {
            let rest = self.next_edge(n - 1);
            let ch = self.channels[n - 1];
            let due = if ch.spec_period() > ch.timer_acc {
                (ch.spec_period() - ch.timer_acc) as u32
            } else {
                0
            };
            if ch.active && due < rest {
                due
            } else {
                rest
            }
        }
    }

    /// State after one rendered span has been accounted for.
    pub open spec fn accounted(self) -> ApuModel {
        let l = self.mixed(false) as int;
        let r = self.mixed(true) as int;
        let la = if l < 0 {
            -l
        } else {
            l
        };
        let ra = if r < 0 {
            -r
        } else {
            r
        };
        let amp = if la > ra {
            la as u64
        } else {
            ra as u64
        };
        ApuModel {
            dbg_peak: if amp > self.dbg_peak {
                amp
            } else {
                self.dbg_peak
            },
            dbg_clip: if amp >= CLIP_LEVEL {
                self.dbg_clip.wrapping_add(1)
            } else {
                self.dbg_clip
            },
            dbg_samples: self.dbg_samples.wrapping_add(1),
            ..self
        }
    }
}

/// Sixteen channels and the register file around them.
#[derive(Clone)]
pub struct NdsApu {
    pub channels: [NdsChannel; 16],
    /// Master volume in bits 0 to 6, master enable in bit 15.
    pub soundcnt: u16,
    /// Stored for reading back.
    pub soundbias: u16,
    /// Capture units: control, destination and length, stored only.
    pub cap_cnt: [u8; 2],
    pub cap_dad: [u32; 2],
    pub cap_len: [u16; 2],
    pub cap_write_log: Vec<(u32, u8)>,
    /// Key-ons per channel.
    pub key_ons: [u32; 16],
    /// Largest mix magnitude seen, in mix units.
    pub dbg_peak: u64,
    /// Spans that reached the clipping level, and all spans.
    pub dbg_clip: u64,
    pub dbg_samples: u64,
    /// Every control value seen, or-ed together.
    pub dbg_soundcnt_seen: u16,
}

impl View for NdsApu {
    type V = ApuModel;

    open spec fn view(&self) -> ApuModel {
        ApuModel {
            channels: self.channels@,
            soundcnt: self.soundcnt,
            soundbias: self.soundbias,
            cap_cnt: self.cap_cnt@,
            cap_dad: self.cap_dad@,
            cap_len: self.cap_len@,
            cap_write_log: self.cap_write_log@,
            key_ons: self.key_ons@,
            dbg_peak: self.dbg_peak,
            dbg_clip: self.dbg_clip,
            dbg_samples: self.dbg_samples,
            dbg_soundcnt_seen: self.dbg_soundcnt_seen,
        }
    }
}

proof fn lemma_level_bounds(sample: int, vol: int, gain: int, share: int)
    requires
        -0x8000 <= sample <= 0x7FFF,
        0 <= vol <= 127,
        1 <= gain <= 16,
        0 <= share <= 128,
    ensures
        -0x40_0000 <= sample * vol <= 0x40_0000,
        -0x400_0000 <= sample * vol * gain <= 0x400_0000,
        -0x2_0000_0000 <= sample * vol * gain * share <= 0x2_0000_0000,
{
    assert(-0x40_0000 <= sample * vol <= 0x40_0000) by (nonlinear_arith)
        requires
            -0x8000 <= sample <= 0x7FFF,
            0 <= vol <= 127,
    ;
    let a = sample * vol;
    assert(-0x400_0000 <= a * gain <= 0x400_0000) by (nonlinear_arith)
        requires
            -0x40_0000 <= a <= 0x40_0000,
            1 <= gain <= 16,
    ;
    let b = a * gain;
    assert(-0x2_0000_0000 <= b * share <= 0x2_0000_0000) by (nonlinear_arith)
        requires
            -0x400_0000 <= b <= 0x400_0000,
            0 <= share <= 128,
    ;
}

impl NdsApu {
    pub fn new() -> (r: Self)
        ensures
            r@ == ApuModel::fresh(),
            r@.wf(),
    {
        let silent: NdsChannel = NdsChannel::default();
        let r = NdsApu {
            channels: [silent; 16],
            soundcnt: 0,
            soundbias: 0,
            cap_cnt: [0u8; 2],
            cap_dad: [0u32; 2],
            cap_len: [0u16; 2],
            cap_write_log: Vec::new(),
            key_ons: [0u32; 16],
            dbg_peak: 0,
            dbg_clip: 0,
            dbg_samples: 0,
            dbg_soundcnt_seen: 0,
        };
        assert(r@.channels =~= ApuModel::fresh().channels);
        assert(r@.cap_cnt =~= ApuModel::fresh().cap_cnt);
        assert(r@.cap_dad =~= ApuModel::fresh().cap_dad);
        assert(r@.cap_len =~= ApuModel::fresh().cap_len);
        assert(r@.key_ons =~= ApuModel::fresh().key_ons);
        r
    }

    /// Byte read anywhere in the register block.
    pub fn read_reg(&self, offset: u32) -> (b: u8)
        ensures
            b == self@.reg(offset),
    {
        if offset == 0x500 {
            bytes::low_byte(self.soundcnt)
        } else if offset == 0x501 {
            bytes::high_byte(self.soundcnt)
        } else if offset == 0x504 {
            bytes::low_byte(self.soundbias)
        } else if offset == 0x505 {
            bytes::high_byte(self.soundbias)
        } else if offset == 0x508 || offset == 0x509 {
            self.cap_cnt[(offset - 0x508) as usize]
        } else if offset >= 0x510 && offset <= 0x513 {
            bytes::get_byte(self.cap_dad[0], offset - 0x510)
        } else if offset >= 0x518 && offset <= 0x51B {
            bytes::get_byte(self.cap_dad[1], offset - 0x518)
        } else if offset >= 0x400 && offset < 0x500 {
            let i: usize = ((offset - 0x400) / 16) as usize;
            let ch: NdsChannel = self.channels[i];
            if offset % 16 < 3 {
                bytes::get_byte(ch.cnt, offset % 16)
            } else if offset % 16 == 3 {
                bytes::get_byte(ch.cnt, 3) % 128 + (if ch.active { 128 } else { 0 })
            } else {
                0
            }
        } else {
            0
        }
    }

    fn log_capture(&mut self, offset: u32, val: u8)
        ensures
            final(self)@ == old(self)@.logged(offset, val),
    {
        if self.cap_write_log.len() < CAP_LOG_CAP {
            self.cap_write_log.push((offset, val));
        }
    }

    /// Byte write anywhere in the register block. Returns the channel whose
    /// start bit rose, which the caller keys on.
    pub fn write_reg(&mut self, offset: u32, val: u8) -> (key: Option<usize>)
        requires
            old(self)@.wf(),
        ensures
            final(self)@ == old(self)@.with_reg(offset, val),
            final(self)@.wf(),
            match key {
                Some(i) => old(self)@.keys_on(offset, val) == Some(i as int) && i < 16,
                None => old(self)@.keys_on(offset, val) is None,
            },
    {
        if offset == 0x500 || offset == 0x501 {
            let c: u16 = if offset == 0x500 {
                bytes::halfword(val, bytes::high_byte(self.soundcnt))
            } else {
                bytes::halfword(bytes::low_byte(self.soundcnt), val)
            };
            self.soundcnt = c;
            self.dbg_soundcnt_seen = self.dbg_soundcnt_seen | c;
        } else if offset == 0x504 {
            self.soundbias = bytes::halfword(val, bytes::high_byte(self.soundbias));
        } else if offset == 0x505 {
            self.soundbias = bytes::halfword(bytes::low_byte(self.soundbias), val);
        } else if offset >= 0x400 && offset < 0x500 {
            return self.write_channel(offset, val);
        } else if offset == 0x508 || offset == 0x509 {
            self.cap_cnt[(offset - 0x508) as usize] = val;
            self.log_capture(offset, val);
        } else if offset >= 0x510 && offset <= 0x513 || offset >= 0x518 && offset <= 0x51B {
            let u: usize = if offset < 0x518 { 0 } else { 1 };
            let d: u32 = bytes::put_byte(self.cap_dad[u], offset % 4, val) % 0x800_0000;
            self.cap_dad[u] = d;
            self.log_capture(offset, val);
        } else if offset == 0x514 || offset == 0x515 || offset == 0x51C || offset == 0x51D {
            let u: usize = if offset < 0x518 { 0 } else { 1 };
            let n: u16 = if offset % 2 == 0 {
                bytes::halfword(val, bytes::high_byte(self.cap_len[u]))
            } else {
                bytes::halfword(bytes::low_byte(self.cap_len[u]), val)
            };
            self.cap_len[u] = n;
            self.log_capture(offset, val);
        }
        None
    }

    fn write_channel(&mut self, offset: u32, val: u8) -> (key: Option<usize>)
        requires
            old(self)@.wf(),
            0x400 <= offset < 0x500,
        ensures
            final(self)@ == old(self)@.with_reg(offset, val),
            final(self)@.wf(),
            match key {
                Some(i) => old(self)@.keys_on(offset, val) == Some(i as int) && i < 16,
                None => old(self)@.keys_on(offset, val) is None,
            },
    {
        let i: usize = ((offset - 0x400) / 16) as usize;
        let was_started: bool = self.channels[i].cnt >= 0x8000_0000;
        let mut ch: NdsChannel = self.channels[i];
        assert(old(self)@.channels[i as int].wf());
        ch.write_reg(offset % 16, val);
        self.channels[i] = ch;
        if offset % 16 == 3 && val >= 0x80 && !was_started {
            let n: u32 = self.key_ons[i];
            self.key_ons[i] = if n == u32::MAX { n } else { n + 1 };
            return Some(i);
        }
        None
    }

    fn level(&self, i: usize, right: bool) -> (v: i64)
        requires
            i < 16,
        ensures
            v == channel_level(self@.channels[i as int], i as int, right),
            -0x2_0000_0000 <= v <= 0x2_0000_0000,
    {
        let ch: NdsChannel = self.channels[i];
        if !ch.active || (ch.format() == 3 && i < 8) {
            return 0;
        }
        let vol: i64 = (ch.cnt % 128) as i64;
        let gain: i64 = match ch.cnt / 0x100 % 4 {
            0 => 16,
            1 => 8,
            2 => 4,
            _ => 1,
        };
        let pan: i64 = (ch.cnt / 0x1_0000 % 128) as i64;
        let share: i64 = if right { pan } else { 128 - pan };
        proof {
            lemma_level_bounds(ch.sample as int, vol as int, gain as int, share as int);
        }
        ch.sample as i64 * vol * gain * share
    }

    fn side(&self, right: bool) -> (v: i64)
        ensures
            v == self@.mixed(right),
    {
        if self.soundcnt < 0x8000 {
            return 0;
        }
        let mut sum: i64 = 0;
        let mut i: usize = 0;
        while i < 16
            invariant
                0 <= i <= 16,
                sum == mix_sum(self@.channels, i as int, right),
                -0x2_0000_0000 * i <= sum <= 0x2_0000_0000 * i,
            decreases 16 - i,
        {
            let v: i64 = self.level(i, right);
            sum = sum + v;
            i = i + 1;
        }
        let master: i64 = (self.soundcnt % 128) as i64;
        assert(-0x20_0000_0000 * 128 <= sum * master <= 0x20_0000_0000 * 128) by (nonlinear_arith)
            requires
                -0x20_0000_0000 <= sum <= 0x20_0000_0000,
                0 <= master <= 127,
        ;
        let v: i64 = sum * master;
        if v < -MIX_ONE {
            -MIX_ONE
        } else if v > MIX_ONE {
            MIX_ONE
        } else {
            v
        }
    }

    /// Stereo mix of the current samples, left then right, in units of full
    /// scale over two to the fortieth.
    pub fn mix(&self) -> (lr: (i64, i64))
        ensures
            lr.0 == self@.mixed(false),
            lr.1 == self@.mixed(true),
    {
        let l: i64 = self.side(false);
        let r: i64 = self.side(true);
        (l, r)
    }

    /// Cycles for which the current mix is guaranteed to hold.
    pub fn cycles_to_next_edge(&self) -> (n: u32)
        ensures
            n == self@.next_edge(16),
    {
        let mut best: u32 = u32::MAX;
        let mut i: usize = 0;
        while i < 16
            invariant
                0 <= i <= 16,
                best == self@.next_edge(i as int),
            decreases 16 - i,
        {
            let ch: NdsChannel = self.channels[i];
            if ch.active {
                let period: u32 = ch.period_cycles();
                let due: u32 = if period > ch.timer_acc { period - ch.timer_acc } else { 0 };
                if due < best {
                    best = due;
                }
            }
            i = i + 1;
        }
        best
    }

    /// Accounts for one rendered span and returns its mix.
    pub fn account_span(&mut self) -> (lr: (i64, i64))
        ensures
            lr.0 == old(self)@.mixed(false),
            lr.1 == old(self)@.mixed(true),
            final(self)@ == old(self)@.accounted(),
    {
        let (l, r) = self.mix();
        let la: u64 = if l < 0 { (-l) as u64 } else { l as u64 };
        let ra: u64 = if r < 0 { (-r) as u64 } else { r as u64 };
        let amp: u64 = if la > ra { la } else { ra };
        if amp > self.dbg_peak {
            self.dbg_peak = amp;
        }
        if amp >= CLIP_LEVEL {
            self.dbg_clip = self.dbg_clip.wrapping_add(1);
        }
        self.dbg_samples = self.dbg_samples.wrapping_add(1);
        (l, r)
    }
}

/// Decoding keeps the value within plus and minus 0x7FFF on the side it moves
/// toward, so that one within them stays there, and the step index within 0 and
/// 88, whatever the nibble.
pub proof fn law_adpcm_saturates(ch: NdsChannel, nib: u8)
    requires
        ch.wf(),
    ensures
        ch.decoded(nib).wf(),
        -0x8000 <= ch.decoded(nib).adpcm_val <= 0x7FFF,
        nib / 8 % 2 == 1 ==> ch.decoded(nib).adpcm_val >= -0x7FFF,
        -0x7FFF <= ch.adpcm_val <= 0x7FFF ==> -0x7FFF <= ch.decoded(nib).adpcm_val <= 0x7FFF,
        0 <= ch.decoded(nib).adpcm_idx <= 88,
        ch.decoded(nib).sample == ch.decoded(nib).adpcm_val,
{
}

/// `n` clocks of the generator of channel `index`.
pub open spec fn generated_times(ch: NdsChannel, index: int, n: nat) -> NdsChannel
    decreases n,
{
    if n == 0 {
        ch
    } else {
        generated_times(ch, index, (n - 1) as nat).generated(index)
    }
}

/// How many of the first `n` samples are high.
pub open spec fn high_count(ch: NdsChannel, index: int, n: nat) -> nat
    decreases n,
{
    if n == 0 {
        0
    } else {
        high_count(ch, index, (n - 1) as nat) + (if generated_times(ch, index, n).sample > 0 {
            1nat
        } else {
            0
        })
    }
}

/// A rectangular wave returns to its phase after eight clocks, and within them
/// is high `duty + 1` times; duty 7 is never high.
#[verifier::spinoff_prover]
#[verifier::rlimit(40)]
pub proof fn law_duty_cycle(ch: NdsChannel, index: int)
    requires
        8 <= index < 14,
        ch.psg_phase < 8,
    ensures
        generated_times(ch, index, 8).psg_phase == ch.psg_phase,
        high_count(ch, index, 8) == (if ch.spec_duty() == 7 {
            0
        } else {
            ch.spec_duty() + 1
        }),
{
    reveal_with_fuel(generated_times, 9);
    reveal_with_fuel(high_count, 9);
    let d = ch.spec_duty();
    assert(0 <= d < 8);
}

/// Pan splits a channel's level: the two sides add up to the whole, and centre
/// pan gives each exactly half.
pub proof fn law_pan_splits_the_level(ch: NdsChannel, i: int)
    requires
        audible(ch, i),
    ensures
        channel_level(ch, i, false) + channel_level(ch, i, true) == ch.sample * (ch.cnt as int
            % 128) * channel_gain(ch.cnt) * 128,
        channel_pan(ch.cnt) == 64 ==> channel_level(ch, i, false) == channel_level(ch, i, true),
{
    let a = ch.sample * (ch.cnt as int % 128) * channel_gain(ch.cnt);
    let p = channel_pan(ch.cnt);
    assert(a * (128 - p) + a * p == a * 128) by (nonlinear_arith);
}

/// Clearing the master enable bit silences both sides.
pub proof fn law_master_disable_silences(a: ApuModel)
    requires
        a.soundcnt < 0x8000,
    ensures
        a.mixed(false) == 0,
        a.mixed(true) == 0,
{
}

/// At the end of the sample a looping channel resumes from exactly the decoder
/// state stored at its loop point.
pub proof fn law_loop_resumes_the_snapshot(ch: NdsChannel)
    requires
        ch.spec_repeat_mode() == 1 || ch.spec_repeat_mode() == 3,
        ch.spec_format() == 2,
    ensures
        ch.ended().active == ch.active,
        ch.ended().adpcm_val == ch.adpcm_loop_val,
        ch.ended().adpcm_idx == ch.adpcm_loop_idx,
        !ch.ended().adpcm_high,
        ch.ended().cursor == ch.spec_loop_start(),
{
}

/// At the end of the sample any other channel stops, and reads as not busy.
pub proof fn law_one_shot_stops(ch: NdsChannel)
    requires
        ch.spec_repeat_mode() == 0 || ch.spec_repeat_mode() == 2,
    ensures
        !ch.ended().active,
        ch.ended().cnt < 0x8000_0000,
{
}

impl ApuModel {
    /// Sound hardware that resumes from a saved one; the diagnostics are not
    /// saved.
    pub open spec fn resumed(self, saved: ApuModel) -> ApuModel {
        ApuModel {
            channels: saved.channels,
            soundcnt: saved.soundcnt,
            soundbias: saved.soundbias,
            cap_cnt: saved.cap_cnt,
            cap_dad: saved.cap_dad,
            cap_len: saved.cap_len,
            ..self
        }
    }
}

impl NdsApu {
    /// Takes the registers and channels of a saved unit over.
    pub fn resume_from(&mut self, saved: &NdsApu)
        ensures
            final(self)@ == old(self)@.resumed(saved@),
    {
        self.channels = saved.channels;
        self.soundcnt = saved.soundcnt;
        self.soundbias = saved.soundbias;
        self.cap_cnt = saved.cap_cnt;
        self.cap_dad = saved.cap_dad;
        self.cap_len = saved.cap_len;
    }
}

} // verus!
