//! Four programmable sound channels and their frame sequencer: two squares, a
//! wave player and a noise generator.
//!
//! Amplitudes are integers: fifteenths of full scale for the squares and the
//! noise, sixtieths for the wave player.

use vstd::prelude::*;
use vstd::arithmetic::div_mod;

verus! {

/// How often a timer that reloads with `p` expires over some cycles.
pub open spec fn expiries(timer: int, p: int, cycles: int) -> int {
    if cycles < timer {
        0
    } else {
        1 + (cycles - timer) / p
    }
}

/// What the timer then holds.
pub open spec fn timer_after(timer: int, p: int, cycles: int) -> int {
    if cycles < timer {
        timer - cycles
    } else {
        p - (cycles - timer) % p
    }
}

/// Length counter and enable flag after a length clock.
pub open spec fn length_clocked(enabled: bool, counting: bool, counter: u16) -> (bool, u16) {
    if counting && counter > 0 {
        (enabled && counter > 1, (counter - 1) as u16)
    } else {
        (enabled, counter)
    }
}

/// State of a volume envelope.
pub struct Envelope {
    pub enabled: bool,
    pub timer: u8,
    pub volume: u8,
}

impl Envelope {
    /// After an envelope clock: the volume moves by one when the timer expires,
    /// and the envelope ends at the rail.
    pub open spec fn clocked(self, period: u8, up: bool) -> Envelope {
        if !self.enabled || period == 0 || self.timer == 0 {
            self
        } else if self.timer > 1 {
            Envelope { timer: (self.timer - 1) as u8, ..self }
        } else if up {
            if self.volume < 15 {
                Envelope { timer: period, volume: (self.volume + 1) as u8, ..self }
            } else {
                Envelope { timer: period, enabled: false, ..self }
            }
        } else {
            if self.volume > 0 {
                Envelope { timer: period, volume: (self.volume - 1) as u8, ..self }
            } else {
                Envelope { timer: period, enabled: false, ..self }
            }
        }
    }
}

/// Whether a square wave is high at a step of its cycle. The four settings are
/// high for an eighth, a quarter, a half and three quarters of it.
pub open spec fn duty_high(duty: u8, step: u8) -> bool {
    if duty == 0 {
        step == 7
    } else if duty == 1 {
        step == 0 || step == 7
    } else if duty == 2 {
        step == 0 || 5 <= step <= 7
    } else if duty == 3 {
        1 <= step <= 6
    } else {
        false
    }
}

fn is_duty_high(duty: u8, step: u8) -> (b: bool)
    ensures
        b == duty_high(duty, step),
{
    if duty == 0 {
        step == 7
    } else if duty == 1 {
        step == 0 || step == 7
    } else if duty == 2 {
        step == 0 || (5 <= step && step <= 7)
    } else if duty == 3 {
        1 <= step && step <= 6
    } else {
        false
    }
}

/// A frequency register with its low byte replaced.
pub open spec fn with_low(period: u16, val: u8) -> u16 {
    (period / 256 % 8 * 256 + val) as u16
}

/// A frequency register with its upper three bits replaced.
pub open spec fn with_high(period: u16, val: u8) -> u16 {
    (period % 256 + val % 8 * 256) as u16
}

fn set_low(period: u16, val: u8) -> (p: u16)
    ensures
        p == with_low(period, val),
        p <= 2047,
{
    period / 256 % 8 * 256 + val as u16
}

fn set_high(period: u16, val: u8) -> (p: u16)
    ensures
        p == with_high(period, val),
        p <= 2047,
{
    period % 256 + (val % 8) as u16 * 256
}

/// Steps that an overflow of a timer amounts to.
fn steps_of(overflow: u32, p: u32) -> (n: u32)
    requires
        p >= 2,
    ensures
        n == 1 + overflow as int / p as int,
        1 <= n <= 0x8000_0000,
{
    let q: u32 = overflow / p;
    assert(q <= 0x7FFF_FFFF) by (nonlinear_arith)
        requires
            q == overflow as int / p as int,
            p >= 2,
    ;
    1 + q
}

/// Square channel with a frequency sweep.
#[derive(Clone, Copy, Debug, PartialEq, Eq, Structural)]
pub struct Square1Channel {
    pub enabled: bool,
    pub duty: u8,
    pub duty_pointer: u8,
    pub length_enabled: bool,
    pub length_counter: u16,
    pub period: u16,
    pub period_timer: u16,
    pub volume: u8,
    pub env_enabled: bool,
    pub env_period: u8,
    pub env_timer: u8,
    /// The volume rises rather than falls.
    pub env_direction: bool,
    pub env_initial_volume: u8,
    pub sweep_enabled: bool,
    pub sweep_period: u8,
    pub sweep_timer: u8,
    pub sweep_shift: u8,
    /// The frequency falls rather than rises.
    pub sweep_direction: bool,
    pub shadow_frequency: u16,
}

impl Default for Square1Channel {
    fn default() -> (r: Self)
        ensures
            r == Square1Channel::silent(),
    {
        Square1Channel {
            enabled: false,
            duty: 0,
            duty_pointer: 0,
            length_enabled: false,
            length_counter: 0,
            period: 0,
            period_timer: 0,
            volume: 0,
            env_enabled: false,
            env_period: 0,
            env_timer: 0,
            env_direction: false,
            env_initial_volume: 0,
            sweep_enabled: false,
            sweep_period: 0,
            sweep_timer: 0,
            sweep_shift: 0,
            sweep_direction: false,
            shadow_frequency: 0,
        }
    }
}

impl Square1Channel {
    pub open spec fn silent() -> Square1Channel {
        Square1Channel {
            enabled: false,
            duty: 0,
            duty_pointer: 0,
            length_enabled: false,
            length_counter: 0,
            period: 0,
            period_timer: 0,
            volume: 0,
            env_enabled: false,
            env_period: 0,
            env_timer: 0,
            env_direction: false,
            env_initial_volume: 0,
            sweep_enabled: false,
            sweep_period: 0,
            sweep_timer: 0,
            sweep_shift: 0,
            sweep_direction: false,
            shadow_frequency: 0,
        }
    }

    /// Registers hold eleven bits of frequency and eight steps, and three bits
    /// of sweep shift.
    pub open spec fn wf(self) -> bool {
        &&& self.period <= 2047
        &&& self.duty_pointer < 8
        &&& self.sweep_shift <= 7
    }

    /// Cycles of one step.
    pub open spec fn step_cycles(self) -> int {
        (2048 - self.period) * 4
    }

    pub open spec fn envelope(self) -> Envelope {
        Envelope { enabled: self.env_enabled, timer: self.env_timer, volume: self.volume }
    }

    pub open spec fn length_ticked(self) -> Square1Channel {
        let r = length_clocked(self.enabled, self.length_enabled, self.length_counter);
        Square1Channel { enabled: r.0, length_counter: r.1, ..self }
    }

    pub open spec fn envelope_ticked(self) -> Square1Channel {
        let e = self.envelope().clocked(self.env_period, self.env_direction);
        Square1Channel { env_enabled: e.enabled, env_timer: e.timer, volume: e.volume, ..self }
    }

    pub open spec fn triggered(self) -> Square1Channel {
        Square1Channel {
            enabled: true,
            length_counter: if self.length_counter == 0 {
                64
            } else {
                self.length_counter
            },
            period_timer: self.step_cycles() as u16,
            env_timer: self.env_period,
            volume: self.env_initial_volume,
            env_enabled: self.env_period > 0,
            shadow_frequency: self.period,
            sweep_timer: self.sweep_period,
            sweep_enabled: self.sweep_period > 0 || self.sweep_shift > 0,
            ..self
        }
    }

    pub open spec fn ticked(self, cycles: u32) -> Square1Channel {
        let n = expiries(self.period_timer as int, self.step_cycles(), cycles as int);
        let t = timer_after(self.period_timer as int, self.step_cycles(), cycles as int);
        if self.enabled {
            Square1Channel {
                duty_pointer: ((self.duty_pointer + n) % 8) as u8,
                period_timer: t as u16,
                ..self
            }
        } else {
            self
        }
    }

    /// Output in fifteenths of full scale.
    pub open spec fn amplitude(self) -> int {
        if !self.enabled {
            0
        } else if duty_high(self.duty, self.duty_pointer) {
            self.volume as int
        } else {
            -(self.volume as int)
        }
    }

    /// Frequency that the sweep moves to.
    pub open spec fn swept(self) -> u16 {
        let delta = self.shadow_frequency >> self.sweep_shift;
        if self.sweep_direction {
            self.shadow_frequency.wrapping_sub(delta)
        } else {
            self.shadow_frequency.wrapping_add(delta)
        }
    }

    /// After a sweep clock. A frequency that does not fit silences the channel.
    pub open spec fn sweep_ticked(self) -> Square1Channel {
        if !self.sweep_enabled || self.sweep_period == 0 || self.sweep_timer == 0 {
            self
        } else if self.sweep_timer > 1 {
            Square1Channel { sweep_timer: (self.sweep_timer - 1) as u8, ..self }
        } else {
            let s = Square1Channel { sweep_timer: self.sweep_period, ..self };
            if self.swept() > 2047 {
                Square1Channel { enabled: false, sweep_enabled: false, ..s }
            } else if self.sweep_shift > 0 {
                Square1Channel { shadow_frequency: self.swept(), period: self.swept(), ..s }
            } else {
                s
            }
        }
    }

    /// After a register write.
    pub open spec fn written(self, offset: u8, val: u8) -> Square1Channel {
        if offset == 0x11 {
            Square1Channel { duty: val / 64, length_counter: (64 - val % 64) as u16, ..self }
        } else if offset == 0x12 {
            Square1Channel {
                env_initial_volume: val / 16,
                env_direction: val / 8 % 2 == 1,
                env_period: val % 8,
                ..self
            }
        } else if offset == 0x13 {
            Square1Channel { period: with_low(self.period, val), ..self }
        } else if offset == 0x14 {
            let s = Square1Channel {
                period: with_high(self.period, val),
                length_enabled: val / 64 % 2 == 1,
                ..self
            };
            if val >= 128 {
                s.triggered()
            } else {
                s
            }
        } else if offset == 0x10 {
            Square1Channel {
                sweep_period: val / 16 % 8,
                sweep_direction: val / 8 % 2 == 1,
                sweep_shift: val % 8,
                ..self
            }
        } else {
            self
        }
    }

    pub fn trigger(&mut self)
        requires
            old(self).wf(),
        ensures
            *final(self) == old(self).triggered(),
            final(self).wf(),
    {
        self.enabled = true;
        if self.length_counter == 0 {
            self.length_counter = 64;
        }
        self.period_timer = (2048 - self.period) * 4;
        self.env_timer = self.env_period;
        self.volume = self.env_initial_volume;
        self.env_enabled = self.env_period > 0;
        self.shadow_frequency = self.period;
        self.sweep_timer = self.sweep_period;
        self.sweep_enabled = self.sweep_period > 0 || self.sweep_shift > 0;
    }

    /// Lets cycles pass: every whole step that they span is taken.
    pub fn tick_period(&mut self, cycles: u32)
        requires
            old(self).wf(),
        ensures
            *final(self) == old(self).ticked(cycles),
            final(self).wf(),
    {
        if !self.enabled {
            return;
        }
        let p: u32 = (2048 - self.period) as u32 * 4;
        let acc: u32 = self.period_timer as u32;
        if cycles < acc {
            self.period_timer = (acc - cycles) as u16;
            return;
        }
        let overflow: u32 = cycles - acc;
        let steps: u32 = steps_of(overflow, p);
        self.duty_pointer = ((self.duty_pointer as u32 + steps) % 8) as u8;
        self.period_timer = (p - overflow % p) as u16;
    }

    /// Output in fifteenths of full scale.
    pub fn get_amplitude(&self) -> (a: i32)
        ensures
            a == self.amplitude(),
    {
        if !self.enabled {
            0
        } else if is_duty_high(self.duty, self.duty_pointer) {
            self.volume as i32
        } else {
            -(self.volume as i32)
        }
    }

    /// Length clock: a channel whose counter runs out falls silent.
    pub fn tick_length(&mut self)
        ensures
            *final(self) == old(self).length_ticked(),
    {
        if self.length_enabled && self.length_counter > 0 {
            self.length_counter = self.length_counter - 1;
            if self.length_counter == 0 {
                self.enabled = false;
            }
        }
    }

    /// Envelope clock.
    pub fn tick_envelope(&mut self)
        ensures
            *final(self) == old(self).envelope_ticked(),
    {
        if !self.env_enabled || self.env_period == 0 {
            return;
        }
        if self.env_timer > 0 {
            self.env_timer = self.env_timer - 1;
            if self.env_timer == 0 {
                self.env_timer = self.env_period;
                if self.env_direction {
                    if self.volume < 15 {
                        self.volume = self.volume + 1;
                    } else {
                        self.env_enabled = false;
                    }
                } else {
                    if self.volume > 0 {
                        self.volume = self.volume - 1;
                    } else {
                        self.env_enabled = false;
                    }
                }
            }
        }
    }

    /// Sweep clock.
    pub fn tick_sweep(&mut self)
        requires
            old(self).wf(),
        ensures
            *final(self) == old(self).sweep_ticked(),
            final(self).wf(),
    {
        if !self.sweep_enabled || self.sweep_period == 0 {
            return;
        }
        if self.sweep_timer > 0 {
            self.sweep_timer = self.sweep_timer - 1;
            if self.sweep_timer == 0 {
                self.sweep_timer = self.sweep_period;
                let delta: u16 = self.shadow_frequency >> self.sweep_shift;
                let new_freq: u16 = if self.sweep_direction {
                    self.shadow_frequency.wrapping_sub(delta)
                } else {
                    self.shadow_frequency.wrapping_add(delta)
                };
                if new_freq > 2047 {
                    self.enabled = false;
                    self.sweep_enabled = false;
                } else if self.sweep_shift > 0 {
                    self.shadow_frequency = new_freq;
                    self.period = new_freq;
                }
            }
        }
    }

    fn write(&mut self, offset: u8, val: u8)
        requires
            old(self).wf(),
        ensures
            *final(self) == old(self).written(offset, val),
            final(self).wf(),
    {
        if offset == 0x11 {
            self.duty = val / 64;
            self.length_counter = 64 - (val % 64) as u16;
        } else if offset == 0x12 {
            self.env_initial_volume = val / 16;
            self.env_direction = val / 8 % 2 == 1;
            self.env_period = val % 8;
        } else if offset == 0x13 {
            self.period = set_low(self.period, val);
        } else if offset == 0x14 {
            self.period = set_high(self.period, val);
            self.length_enabled = val / 64 % 2 == 1;
            if val >= 128 {
                self.trigger();
            }
        } else if offset == 0x10 {
            self.sweep_period = val / 16 % 8;
            self.sweep_direction = val / 8 % 2 == 1;
            self.sweep_shift = val % 8;
        }
    }
}

/// Square channel.
#[derive(Clone, Copy, Debug, PartialEq, Eq, Structural)]
pub struct Square2Channel {
    pub enabled: bool,
    pub duty: u8,
    pub duty_pointer: u8,
    pub length_enabled: bool,
    pub length_counter: u16,
    pub period: u16,
    pub period_timer: u16,
    pub volume: u8,
    pub env_enabled: bool,
    pub env_period: u8,
    pub env_timer: u8,
    /// The volume rises rather than falls.
    pub env_direction: bool,
    pub env_initial_volume: u8,
}

impl Default for Square2Channel {
    fn default() -> (r: Self)
        ensures
            r == Square2Channel::silent(),
    {
        Square2Channel {
            enabled: false,
            duty: 0,
            duty_pointer: 0,
            length_enabled: false,
            length_counter: 0,
            period: 0,
            period_timer: 0,
            volume: 0,
            env_enabled: false,
            env_period: 0,
            env_timer: 0,
            env_direction: false,
            env_initial_volume: 0,
        }
    }
}

impl Square2Channel {
    pub open spec fn silent() -> Square2Channel {
        Square2Channel {
            enabled: false,
            duty: 0,
            duty_pointer: 0,
            length_enabled: false,
            length_counter: 0,
            period: 0,
            period_timer: 0,
            volume: 0,
            env_enabled: false,
            env_period: 0,
            env_timer: 0,
            env_direction: false,
            env_initial_volume: 0,
        }
    }

    /// Registers hold eleven bits of frequency and eight steps.
    pub open spec fn wf(self) -> bool {
        &&& self.period <= 2047
        &&& self.duty_pointer < 8
    }

    /// Cycles of one step.
    pub open spec fn step_cycles(self) -> int {
        (2048 - self.period) * 4
    }

    pub open spec fn envelope(self) -> Envelope {
        Envelope { enabled: self.env_enabled, timer: self.env_timer, volume: self.volume }
    }

    pub open spec fn length_ticked(self) -> Square2Channel {
        let r = length_clocked(self.enabled, self.length_enabled, self.length_counter);
        Square2Channel { enabled: r.0, length_counter: r.1, ..self }
    }

    pub open spec fn envelope_ticked(self) -> Square2Channel {
        let e = self.envelope().clocked(self.env_period, self.env_direction);
        Square2Channel { env_enabled: e.enabled, env_timer: e.timer, volume: e.volume, ..self }
    }

    pub open spec fn triggered(self) -> Square2Channel {
        Square2Channel {
            enabled: true,
            length_counter: if self.length_counter == 0 {
                64
            } else {
                self.length_counter
            },
            period_timer: self.step_cycles() as u16,
            env_timer: self.env_period,
            volume: self.env_initial_volume,
            env_enabled: self.env_period > 0,
            ..self
        }
    }

    pub open spec fn ticked(self, cycles: u32) -> Square2Channel {
        let n = expiries(self.period_timer as int, self.step_cycles(), cycles as int);
        let t = timer_after(self.period_timer as int, self.step_cycles(), cycles as int);
        if self.enabled {
            Square2Channel {
                duty_pointer: ((self.duty_pointer + n) % 8) as u8,
                period_timer: t as u16,
                ..self
            }
        } else {
            self
        }
    }

    /// Output in fifteenths of full scale.
    pub open spec fn amplitude(self) -> int {
        if !self.enabled {
            0
        } else if duty_high(self.duty, self.duty_pointer) {
            self.volume as int
        } else {
            -(self.volume as int)
        }
    }

    /// After a register write.
    pub open spec fn written(self, offset: u8, val: u8) -> Square2Channel {
        if offset == 0x16 {
            Square2Channel { duty: val / 64, length_counter: (64 - val % 64) as u16, ..self }
        } else if offset == 0x17 {
            Square2Channel {
                env_initial_volume: val / 16,
                env_direction: val / 8 % 2 == 1,
                env_period: val % 8,
                ..self
            }
        } else if offset == 0x18 {
            Square2Channel { period: with_low(self.period, val), ..self }
        } else if offset == 0x19 {
            let s = Square2Channel {
                period: with_high(self.period, val),
                length_enabled: val / 64 % 2 == 1,
                ..self
            };
            if val >= 128 {
                s.triggered()
            } else {
                s
            }
        } else {
            self
        }
    }

    pub fn trigger(&mut self)
        requires
            old(self).wf(),
        ensures
            *final(self) == old(self).triggered(),
            final(self).wf(),
    {
        self.enabled = true;
        if self.length_counter == 0 {
            self.length_counter = 64;
        }
        self.period_timer = (2048 - self.period) * 4;
        self.env_timer = self.env_period;
        self.volume = self.env_initial_volume;
        self.env_enabled = self.env_period > 0;
    }

    /// Lets cycles pass: every whole step that they span is taken.
    pub fn tick_period(&mut self, cycles: u32)
        requires
            old(self).wf(),
        ensures
            *final(self) == old(self).ticked(cycles),
            final(self).wf(),
    {
        if !self.enabled {
            return;
        }
        let p: u32 = (2048 - self.period) as u32 * 4;
        let acc: u32 = self.period_timer as u32;
        if cycles < acc {
            self.period_timer = (acc - cycles) as u16;
            return;
        }
        let overflow: u32 = cycles - acc;
        let steps: u32 = steps_of(overflow, p);
        self.duty_pointer = ((self.duty_pointer as u32 + steps) % 8) as u8;
        self.period_timer = (p - overflow % p) as u16;
    }

    /// Output in fifteenths of full scale.
    pub fn get_amplitude(&self) -> (a: i32)
        ensures
            a == self.amplitude(),
    {
        if !self.enabled {
            0
        } else if is_duty_high(self.duty, self.duty_pointer) {
            self.volume as i32
        } else {
            -(self.volume as i32)
        }
    }

    /// Length clock: a channel whose counter runs out falls silent.
    pub fn tick_length(&mut self)
        ensures
            *final(self) == old(self).length_ticked(),
    {
        if self.length_enabled && self.length_counter > 0 {
            self.length_counter = self.length_counter - 1;
            if self.length_counter == 0 {
                self.enabled = false;
            }
        }
    }

    /// Envelope clock.
    pub fn tick_envelope(&mut self)
        ensures
            *final(self) == old(self).envelope_ticked(),
    {
        if !self.env_enabled || self.env_period == 0 {
            return;
        }
        if self.env_timer > 0 {
            self.env_timer = self.env_timer - 1;
            if self.env_timer == 0 {
                self.env_timer = self.env_period;
                if self.env_direction {
                    if self.volume < 15 {
                        self.volume = self.volume + 1;
                    } else {
                        self.env_enabled = false;
                    }
                } else {
                    if self.volume > 0 {
                        self.volume = self.volume - 1;
                    } else {
                        self.env_enabled = false;
                    }
                }
            }
        }
    }

    fn write(&mut self, offset: u8, val: u8)
        requires
            old(self).wf(),
        ensures
            *final(self) == old(self).written(offset, val),
            final(self).wf(),
    {
        if offset == 0x16 {
            self.duty = val / 64;
            self.length_counter = 64 - (val % 64) as u16;
        } else if offset == 0x17 {
            self.env_initial_volume = val / 16;
            self.env_direction = val / 8 % 2 == 1;
            self.env_period = val % 8;
        } else if offset == 0x18 {
            self.period = set_low(self.period, val);
        } else if offset == 0x19 {
            self.period = set_high(self.period, val);
            self.length_enabled = val / 64 % 2 == 1;
            if val >= 128 {
                self.trigger();
            }
        }
    }
}

/// Wave channel: thirty-two four-bit samples, played round.
#[derive(Clone, Debug)]
pub struct WaveChannel {
    pub enabled: bool,
    pub dac_enabled: bool,
    pub length_enabled: bool,
    pub length_counter: u16,
    pub period: u16,
    pub period_timer: u16,
    /// Output level: off, full, half or a quarter.
    pub volume_shift: u8,
    pub wave_ram: [u8; 16],
    pub sample_pointer: u8,
}

impl Default for WaveChannel {
    fn default() -> (r: Self)
        ensures
            r.wf(),
            r.wave_ram@ =~= Seq::new(16, |i: int| 0u8),
            r == (WaveChannel {
                enabled: false,
                dac_enabled: false,
                length_enabled: false,
                length_counter: 0,
                period: 0,
                period_timer: 0,
                volume_shift: 0,
                sample_pointer: 0,
                ..r
            }),
    {
        WaveChannel {
            enabled: false,
            dac_enabled: false,
            length_enabled: false,
            length_counter: 0,
            period: 0,
            period_timer: 0,
            volume_shift: 0,
            wave_ram: [0u8; 16],
            sample_pointer: 0,
        }
    }
}

impl WaveChannel {
    pub open spec fn wf(self) -> bool {
        &&& self.period <= 2047
        &&& self.sample_pointer < 32
    }

    /// Cycles of one sample.
    pub open spec fn step_cycles(self) -> int {
        (2048 - self.period) * 2
    }

    pub open spec fn length_ticked(self) -> WaveChannel {
        let r = length_clocked(self.enabled, self.length_enabled, self.length_counter);
        WaveChannel { enabled: r.0, length_counter: r.1, ..self }
    }

    pub open spec fn triggered(self) -> WaveChannel {
        WaveChannel {
            enabled: true,
            length_counter: if self.length_counter == 0 {
                256
            } else {
                self.length_counter
            },
            period_timer: self.step_cycles() as u16,
            sample_pointer: 0,
            ..self
        }
    }

    pub open spec fn ticked(self, cycles: u32) -> WaveChannel {
        let n = expiries(self.period_timer as int, self.step_cycles(), cycles as int);
        let t = timer_after(self.period_timer as int, self.step_cycles(), cycles as int);
        if self.enabled && self.dac_enabled {
            WaveChannel {
                sample_pointer: ((self.sample_pointer + n) % 32) as u8,
                period_timer: t as u16,
                ..self
            }
        } else {
            self
        }
    }

    /// Four-bit sample that is playing: high nibbles come first.
    pub open spec fn sample(self) -> int {
        let b = self.wave_ram@[self.sample_pointer as int / 2];
        if self.sample_pointer % 2 == 0 {
            b as int / 16
        } else {
            b as int % 16
        }
    }

    /// Output in sixtieths of full scale. The sample is centred before the level
    /// applies, so that a lower level scales a wave about zero.
    pub open spec fn amplitude(self) -> int {
        let centered = 2 * self.sample() - 15;
        if !self.enabled || !self.dac_enabled {
            0
        } else if self.volume_shift == 1 {
            4 * centered
        } else if self.volume_shift == 2 {
            2 * centered
        } else if self.volume_shift == 3 {
            centered
        } else {
            0
        }
    }

    /// After a register write outside the samples.
    pub open spec fn written(self, offset: u8, val: u8) -> WaveChannel {
        if offset == 0x1a {
            WaveChannel {
                dac_enabled: val >= 128,
                enabled: self.enabled && val >= 128,
                ..self
            }
        } else if offset == 0x1b {
            WaveChannel { length_counter: (256 - val) as u16, ..self }
        } else if offset == 0x1c {
            WaveChannel { volume_shift: val / 32 % 4, ..self }
        } else if offset == 0x1d {
            WaveChannel { period: with_low(self.period, val), ..self }
        } else if offset == 0x1e {
            let s = WaveChannel {
                period: with_high(self.period, val),
                length_enabled: val / 64 % 2 == 1,
                ..self
            };
            if val >= 128 {
                s.triggered()
            } else {
                s
            }
        } else {
            self
        }
    }

    /// Samples after a register write.
    pub open spec fn samples_written(self, offset: u8, val: u8) -> Seq<u8> {
        if 0x30 <= offset <= 0x3f {
            self.wave_ram@.update(offset - 0x30, val)
        } else {
            self.wave_ram@
        }
    }

    pub fn trigger(&mut self)
        requires
            old(self).wf(),
        ensures
            *final(self) == old(self).triggered(),
            final(self).wf(),
    {
        self.enabled = true;
        if self.length_counter == 0 {
            self.length_counter = 256;
        }
        self.period_timer = (2048 - self.period) * 2;
        self.sample_pointer = 0;
    }

    /// Lets cycles pass: every whole sample that they span is played.
    pub fn tick_period(&mut self, cycles: u32)
        requires
            old(self).wf(),
        ensures
            *final(self) == old(self).ticked(cycles),
            final(self).wf(),
    {
        if !self.enabled || !self.dac_enabled {
            return;
        }
        let p: u32 = (2048 - self.period) as u32 * 2;
        let acc: u32 = self.period_timer as u32;
        if cycles < acc {
            self.period_timer = (acc - cycles) as u16;
            return;
        }
        let overflow: u32 = cycles - acc;
        let steps: u32 = steps_of(overflow, p);
        self.sample_pointer = ((self.sample_pointer as u32 + steps) % 32) as u8;
        self.period_timer = (p - overflow % p) as u16;
    }

    /// Output in sixtieths of full scale.
    pub fn get_amplitude(&self) -> (a: i32)
        requires
            self.wf(),
        ensures
            a == self.amplitude(),
    {
        if !self.enabled || !self.dac_enabled || self.volume_shift == 0 {
            return 0;
        }
        let b: u8 = self.wave_ram[(self.sample_pointer / 2) as usize];
        let sample: i32 = if self.sample_pointer % 2 == 0 {
            (b / 16) as i32
        } else {
            (b % 16) as i32
        };
        let centered: i32 = 2 * sample - 15;
        if self.volume_shift == 1 {
            4 * centered
        } else if self.volume_shift == 2 {
            2 * centered
        } else if self.volume_shift == 3 {
            centered
        } else {
            0
        }
    }

    /// Length clock: a channel whose counter runs out falls silent.
    pub fn tick_length(&mut self)
        ensures
            *final(self) == old(self).length_ticked(),
    {
        if self.length_enabled && self.length_counter > 0 {
            self.length_counter = self.length_counter - 1;
            if self.length_counter == 0 {
                self.enabled = false;
            }
        }
    }

    fn write(&mut self, offset: u8, val: u8)
        requires
            old(self).wf(),
        ensures
            *final(self) == (WaveChannel {
                wave_ram: final(self).wave_ram,
                ..old(self).written(offset, val)
            }),
            final(self).wave_ram@ == old(self).samples_written(offset, val),
            final(self).wf(),
    {
        if offset == 0x1a {
            self.dac_enabled = val >= 128;
            if !self.dac_enabled {
                self.enabled = false;
            }
        } else if offset == 0x1b {
            self.length_counter = 256 - val as u16;
        } else if offset == 0x1c {
            self.volume_shift = val / 32 % 4;
        } else if offset == 0x1d {
            self.period = set_low(self.period, val);
        } else if offset == 0x1e {
            self.period = set_high(self.period, val);
            self.length_enabled = val / 64 % 2 == 1;
            if val >= 128 {
                self.trigger();
            }
        } else if 0x30 <= offset && offset <= 0x3f {
            self.wave_ram[(offset - 0x30) as usize] = val;
        }
    }
}

/// Noise channel: a shift register with feedback.
#[derive(Clone, Copy, Debug, PartialEq, Eq, Structural)]
pub struct NoiseChannel {
    pub enabled: bool,
    pub length_enabled: bool,
    pub length_counter: u16,
    pub volume: u8,
    pub env_enabled: bool,
    pub env_period: u8,
    pub env_timer: u8,
    /// The volume rises rather than falls.
    pub env_direction: bool,
    pub env_initial_volume: u8,
    pub lfsr: u16,
    pub divisor: u8,
    pub shift_clock: u8,
    /// The short noise sequence.
    pub width_7bit: bool,
    pub period_timer: u32,
}

impl Default for NoiseChannel {
    fn default() -> (r: Self)
        ensures
            r == NoiseChannel::silent(),
    {
        NoiseChannel {
            enabled: false,
            length_enabled: false,
            length_counter: 0,
            volume: 0,
            env_enabled: false,
            env_period: 0,
            env_timer: 0,
            env_direction: false,
            env_initial_volume: 0,
            lfsr: 0,
            divisor: 0,
            shift_clock: 0,
            width_7bit: false,
            period_timer: 0,
        }
    }
}

/// The shift register after one clock: the two lowest bits, combined, enter at
/// the top, and in the short sequence at bit 6 too.
pub open spec fn noise_clock(lfsr: u16, short: bool) -> u16 {
    let x = (lfsr & 1) ^ ((lfsr >> 1) & 1);
    let l = (lfsr >> 1) | (x << 14);
    if short {
        (l & 0xFFBF) | (x << 6)
    } else {
        l
    }
}

pub open spec fn noise_clocks(lfsr: u16, short: bool, n: nat) -> u16
    decreases n,
{
    if n == 0 {
        lfsr
    } else {
        noise_clock(noise_clocks(lfsr, short, (n - 1) as nat), short)
    }
}

/// Clocks that one call performs at most.
pub const NOISE_CLOCK_LIMIT: u32 = 512;

impl NoiseChannel {
    pub open spec fn silent() -> NoiseChannel {
        NoiseChannel {
            enabled: false,
            length_enabled: false,
            length_counter: 0,
            volume: 0,
            env_enabled: false,
            env_period: 0,
            env_timer: 0,
            env_direction: false,
            env_initial_volume: 0,
            lfsr: 0,
            divisor: 0,
            shift_clock: 0,
            width_7bit: false,
            period_timer: 0,
        }
    }

    /// Registers hold three bits of divisor and four of shift.
    pub open spec fn wf(self) -> bool {
        &&& self.divisor <= 7
        &&& self.shift_clock <= 15
    }

    /// Cycles of one clock: 8, or 16 times the divisor, shifted.
    pub open spec fn step_cycles(self) -> u32 {
        let div: u32 = if self.divisor == 0 {
            8
        } else {
            (self.divisor * 16) as u32
        };
        div << self.shift_clock
    }

    pub open spec fn envelope(self) -> Envelope {
        Envelope { enabled: self.env_enabled, timer: self.env_timer, volume: self.volume }
    }

    pub open spec fn length_ticked(self) -> NoiseChannel {
        let r = length_clocked(self.enabled, self.length_enabled, self.length_counter);
        NoiseChannel { enabled: r.0, length_counter: r.1, ..self }
    }

    pub open spec fn envelope_ticked(self) -> NoiseChannel {
        let e = self.envelope().clocked(self.env_period, self.env_direction);
        NoiseChannel { env_enabled: e.enabled, env_timer: e.timer, volume: e.volume, ..self }
    }

    pub open spec fn triggered(self) -> NoiseChannel {
        NoiseChannel {
            enabled: true,
            length_counter: if self.length_counter == 0 {
                64
            } else {
                self.length_counter
            },
            lfsr: 0x7FFF,
            env_timer: self.env_period,
            volume: self.env_initial_volume,
            env_enabled: self.env_period > 0,
            period_timer: self.step_cycles(),
            ..self
        }
    }

    /// Clocks that some cycles amount to.
    pub open spec fn clocks(self, cycles: u32) -> nat {
        let n = expiries(self.period_timer as int, self.step_cycles() as int, cycles as int);
        if n > NOISE_CLOCK_LIMIT {
            NOISE_CLOCK_LIMIT as nat
        } else {
            n as nat
        }
    }

    pub open spec fn ticked(self, cycles: u32) -> NoiseChannel {
        let t = timer_after(self.period_timer as int, self.step_cycles() as int, cycles as int);
        if self.enabled {
            NoiseChannel {
                lfsr: noise_clocks(self.lfsr, self.width_7bit, self.clocks(cycles)),
                period_timer: t as u32,
                ..self
            }
        } else {
            self
        }
    }

    /// Output in fifteenths of full scale: high while the lowest bit is clear.
    pub open spec fn amplitude(self) -> int {
        if !self.enabled {
            0
        } else if self.lfsr % 2 == 0 {
            self.volume as int
        } else {
            -(self.volume as int)
        }
    }

    /// After a register write.
    pub open spec fn written(self, offset: u8, val: u8) -> NoiseChannel {
        if offset == 0x20 {
            NoiseChannel { length_counter: (64 - val % 64) as u16, ..self }
        } else if offset == 0x21 {
            NoiseChannel {
                env_initial_volume: val / 16,
                env_direction: val / 8 % 2 == 1,
                env_period: val % 8,
                ..self
            }
        } else if offset == 0x22 {
            NoiseChannel {
                shift_clock: val / 16,
                width_7bit: val / 8 % 2 == 1,
                divisor: val % 8,
                ..self
            }
        } else if offset == 0x23 {
            let s = NoiseChannel { length_enabled: val / 64 % 2 == 1, ..self };
            if val >= 128 {
                s.triggered()
            } else {
                s
            }
        } else {
            self
        }
    }

    proof fn lemma_step_cycles(self)
        requires
            self.wf(),
        ensures
            8 <= self.step_cycles() <= 0x38_0000,
    {
        let div: u32 = if self.divisor == 0 {
            8
        } else {
            (self.divisor * 16) as u32
        };
        let k = self.shift_clock;
        assert(8 <= (div << k) <= 0x38_0000) by (bit_vector)
            requires
                8 <= div <= 112,
                k <= 15,
        ;
    }

    /// Cycles of one clock.
    pub fn get_period(&self) -> (p: u32)
        requires
            self.wf(),
        ensures
            p == self.step_cycles(),
            8 <= p <= 0x38_0000,
    {
        proof {
            self.lemma_step_cycles();
        }
        let div: u32 = if self.divisor == 0 {
            8
        } else {
            self.divisor as u32 * 16
        };
        div << self.shift_clock
    }

    pub fn trigger(&mut self)
        requires
            old(self).wf(),
        ensures
            *final(self) == old(self).triggered(),
            final(self).wf(),
    {
        self.enabled = true;
        if self.length_counter == 0 {
            self.length_counter = 64;
        }
        self.lfsr = 0x7FFF;
        self.env_timer = self.env_period;
        self.volume = self.env_initial_volume;
        self.env_enabled = self.env_period > 0;
        self.period_timer = self.get_period();
    }

    /// Lets cycles pass: the register is clocked for every whole period.
    pub fn tick_period(&mut self, cycles: u32)
        requires
            old(self).wf(),
        ensures
            *final(self) == old(self).ticked(cycles),
            final(self).wf(),
    {
        if !self.enabled {
            return;
        }
        let period: u32 = self.get_period();
        if cycles < self.period_timer {
            self.period_timer = self.period_timer - cycles;
            assert(noise_clocks(self.lfsr, self.width_7bit, 0) == self.lfsr);
            return;
        }
        let overflow: u32 = cycles - self.period_timer;
        let spanned: u32 = steps_of(overflow, period);
        let steps: u32 = if spanned > NOISE_CLOCK_LIMIT {
            NOISE_CLOCK_LIMIT
        } else {
            spanned
        };
        let mut i: u32 = 0;
        while i < steps
            invariant
                i <= steps,
                self.lfsr == noise_clocks(old(self).lfsr, old(self).width_7bit, i as nat),
                *self == (NoiseChannel { lfsr: self.lfsr, ..*old(self) }),
            decreases steps - i,
        {
            let x: u16 = (self.lfsr & 1) ^ ((self.lfsr >> 1) & 1);
            self.lfsr = (self.lfsr >> 1) | (x << 14);
            if self.width_7bit {
                self.lfsr = (self.lfsr & 0xFFBF) | (x << 6);
            }
            i = i + 1;
        }
        self.period_timer = period - overflow % period;
    }

    /// Output in fifteenths of full scale.
    pub fn get_amplitude(&self) -> (a: i32)
        ensures
            a == self.amplitude(),
    {
        if !self.enabled {
            0
        } else if self.lfsr % 2 == 0 {
            self.volume as i32
        } else {
            -(self.volume as i32)
        }
    }

    /// Length clock: a channel whose counter runs out falls silent.
    pub fn tick_length(&mut self)
        ensures
            *final(self) == old(self).length_ticked(),
    {
        if self.length_enabled && self.length_counter > 0 {
            self.length_counter = self.length_counter - 1;
            if self.length_counter == 0 {
                self.enabled = false;
            }
        }
    }

    /// Envelope clock.
    pub fn tick_envelope(&mut self)
        ensures
            *final(self) == old(self).envelope_ticked(),
    {
        if !self.env_enabled || self.env_period == 0 {
            return;
        }
        if self.env_timer > 0 {
            self.env_timer = self.env_timer - 1;
            if self.env_timer == 0 {
                self.env_timer = self.env_period;
                if self.env_direction {
                    if self.volume < 15 {
                        self.volume = self.volume + 1;
                    } else {
                        self.env_enabled = false;
                    }
                } else {
                    if self.volume > 0 {
                        self.volume = self.volume - 1;
                    } else {
                        self.env_enabled = false;
                    }
                }
            }
        }
    }

    fn write(&mut self, offset: u8, val: u8)
        requires
            old(self).wf(),
        ensures
            *final(self) == old(self).written(offset, val),
            final(self).wf(),
    {
        if offset == 0x20 {
            self.length_counter = 64 - (val % 64) as u16;
        } else if offset == 0x21 {
            self.env_initial_volume = val / 16;
            self.env_direction = val / 8 % 2 == 1;
            self.env_period = val % 8;
        } else if offset == 0x22 {
            self.shift_clock = val / 16;
            self.width_7bit = val / 8 % 2 == 1;
            self.divisor = val % 8;
        } else if offset == 0x23 {
            self.length_enabled = val / 64 % 2 == 1;
            if val >= 128 {
                self.trigger();
            }
        }
    }
}

/// One of the eight steps of the frame sequencer: the even ones clock lengths,
/// 2 and 6 the sweep, 7 the envelopes.
pub fn frame_sequencer_step(
    step: u8,
    ch1: &mut Square1Channel,
    ch2: &mut Square2Channel,
    ch3: &mut WaveChannel,
    ch4: &mut NoiseChannel,
)
    requires
        old(ch1).wf(),
    ensures
        final(ch1).wf(),
        *final(ch1) == if step == 2 || step == 6 {
            old(ch1).length_ticked().sweep_ticked()
        } else if step == 0 || step == 4 {
            old(ch1).length_ticked()
        } else if step == 7 {
            old(ch1).envelope_ticked()
        } else {
            *old(ch1)
        },
        *final(ch2) == if step % 2 == 0 && step <= 6 {
            old(ch2).length_ticked()
        } else if step == 7 {
            old(ch2).envelope_ticked()
        } else {
            *old(ch2)
        },
        *final(ch3) == if step % 2 == 0 && step <= 6 {
            old(ch3).length_ticked()
        } else {
            *old(ch3)
        },
        *final(ch4) == if step % 2 == 0 && step <= 6 {
            old(ch4).length_ticked()
        } else if step == 7 {
            old(ch4).envelope_ticked()
        } else {
            *old(ch4)
        },
{
    if step == 0 || step == 2 || step == 4 || step == 6 {
        ch1.tick_length();
        ch2.tick_length();
        ch3.tick_length();
        ch4.tick_length();
    }
    if step == 2 || step == 6 {
        ch1.tick_sweep();
    }
    if step == 7 {
        ch1.tick_envelope();
        ch2.tick_envelope();
        ch4.tick_envelope();
    }
}

/// Decodes a write to a sound register; each one belongs to one channel.
pub fn write_channel_register(
    ch1: &mut Square1Channel,
    ch2: &mut Square2Channel,
    ch3: &mut WaveChannel,
    ch4: &mut NoiseChannel,
    offset: u8,
    val: u8,
)
    requires
        old(ch1).wf(),
        old(ch2).wf(),
        old(ch3).wf(),
        old(ch4).wf(),
    ensures
        *final(ch1) == old(ch1).written(offset, val),
        *final(ch2) == old(ch2).written(offset, val),
        *final(ch3) == (WaveChannel {
            wave_ram: final(ch3).wave_ram,
            ..old(ch3).written(offset, val)
        }),
        final(ch3).wave_ram@ == old(ch3).samples_written(offset, val),
        *final(ch4) == old(ch4).written(offset, val),
        final(ch1).wf(),
        final(ch2).wf(),
        final(ch3).wf(),
        final(ch4).wf(),
{
    if offset <= 0x14 {
        ch1.write(offset, val);
    } else if offset <= 0x19 {
        ch2.write(offset, val);
    } else if offset <= 0x1e || offset >= 0x30 {
        ch3.write(offset, val);
    } else {
        ch4.write(offset, val);
    }
}

/// A timer fed in two slices expires as often, and ends as it would have, fed
/// at once.
pub proof fn law_timer_is_independent_of_slicing(timer: int, p: int, a: int, b: int)
    requires
        0 <= timer,
        0 < p,
        0 <= a,
        0 <= b,
    ensures
        expiries(timer, p, a + b) == expiries(timer, p, a) + expiries(
            timer_after(timer, p, a),
            p,
            b,
        ),
        timer_after(timer, p, a + b) == timer_after(timer_after(timer, p, a), p, b),
{
    if a >= timer {
        let o = a - timer;
        let q = o / p;
        let r = o % p;
        div_mod::lemma_fundamental_div_mod(o, p);
        assert(0 <= r < p) by (nonlinear_arith)
            requires
                r == o % p,
                0 < p,
        ;
        if b < p - r {
            assert(o + b == q * p + (r + b)) by (nonlinear_arith)
                requires
                    o == p * q + r,
            ;
            div_mod::lemma_fundamental_div_mod_converse(o + b, p, q, r + b);
        } else {
            let u = b - (p - r);
            div_mod::lemma_fundamental_div_mod(u, p);
            let s = u % p;
            let t = u / p;
            assert(0 <= s < p) by (nonlinear_arith)
                requires
                    s == u % p,
                    0 < p,
            ;
            assert(o + b == (q + 1 + t) * p + s) by (nonlinear_arith)
                requires
                    o == p * q + r,
                    u == p * t + s,
                    u == b - (p - r),
            ;
            div_mod::lemma_fundamental_div_mod_converse(o + b, p, q + 1 + t, s);
        }
    }
}

/// The sweeping square channel fed cycles in two slices ends as it would have,
/// fed at once: no step is lost to coarse slices.
pub proof fn law_square1_is_independent_of_slicing(c: Square1Channel, a: u32, b: u32)
    requires
        c.wf(),
        a + b <= u32::MAX,
    ensures
        c.ticked(a).ticked(b) == c.ticked((a + b) as u32),
{
    law_timer_is_independent_of_slicing(
        c.period_timer as int,
        c.step_cycles(),
        a as int,
        b as int,
    );
    lemma_timer_range(c.period_timer as int, c.step_cycles(), a as int);
}

/// The same of the other square channel.
pub proof fn law_square2_is_independent_of_slicing(c: Square2Channel, a: u32, b: u32)
    requires
        c.wf(),
        a + b <= u32::MAX,
    ensures
        c.ticked(a).ticked(b) == c.ticked((a + b) as u32),
{
    law_timer_is_independent_of_slicing(
        c.period_timer as int,
        c.step_cycles(),
        a as int,
        b as int,
    );
    lemma_timer_range(c.period_timer as int, c.step_cycles(), a as int);
}

proof fn lemma_timer_range(timer: int, p: int, cycles: int)
    requires
        0 <= timer,
        0 < p,
        0 <= cycles,
    ensures
        0 <= timer_after(timer, p, cycles),
        timer_after(timer, p, cycles) <= timer || timer_after(timer, p, cycles) <= p,
        0 <= expiries(timer, p, cycles),
{
    let o = cycles - timer;
    if o >= 0 {
        assert(0 <= o % p < p && 0 <= o / p) by (nonlinear_arith)
            requires
                0 < p,
                0 <= o,
        ;
    }
}

/// The same of the wave channel.
#[verifier::rlimit(40)]
#[verifier::spinoff_prover]
pub proof fn law_wave_is_independent_of_slicing(c: WaveChannel, a: u32, b: u32)
    requires
        c.wf(),
        a + b <= u32::MAX,
    ensures
        c.ticked(a).ticked(b) == c.ticked((a + b) as u32),
{
    law_timer_is_independent_of_slicing(
        c.period_timer as int,
        c.step_cycles(),
        a as int,
        b as int,
    );
    lemma_timer_range(c.period_timer as int, c.step_cycles(), a as int);
}

proof fn lemma_clocks_add(l: u16, short: bool, m: nat, n: nat)
    ensures
        noise_clocks(noise_clocks(l, short, m), short, n) == noise_clocks(l, short, m + n),
    decreases n,
{
    if n > 0 {
        lemma_clocks_add(l, short, m, (n - 1) as nat);
    }
}

/// The same of the noise channel, as long as no call reaches the clock limit.
pub proof fn law_noise_is_independent_of_slicing(c: NoiseChannel, a: u32, b: u32)
    requires
        c.wf(),
        a + b <= u32::MAX,
        expiries(c.period_timer as int, c.step_cycles() as int, a + b) <= NOISE_CLOCK_LIMIT,
    ensures
        c.ticked(a).ticked(b) == c.ticked((a + b) as u32),
{
    let t = c.period_timer as int;
    let p = c.step_cycles() as int;
    c.lemma_step_cycles();
    law_timer_is_independent_of_slicing(t, p, a as int, b as int);
    lemma_timer_range(t, p, a as int);
    lemma_timer_range(timer_after(t, p, a as int), p, b as int);
    lemma_clocks_add(
        c.lfsr,
        c.width_7bit,
        expiries(t, p, a as int) as nat,
        expiries(timer_after(t, p, a as int), p, b as int) as nat,
    );
}

/// The long noise sequence never locks up: from a register of fifteen bits that
/// is not zero it reaches only such registers.
pub proof fn law_noise_never_locks(lfsr: u16, n: nat)
    requires
        0 < lfsr <= 0x7FFF,
    ensures
        0 < noise_clocks(lfsr, false, n) <= 0x7FFF,
    decreases n,
{
    if n > 0 {
        law_noise_never_locks(lfsr, (n - 1) as nat);
        let l = noise_clocks(lfsr, false, (n - 1) as nat);
        assert(0 < ((l >> 1) | (((l & 1) ^ ((l >> 1) & 1)) << 14)) <= 0x7FFF) by (bit_vector)
            requires
                0 < l <= 0x7FFF,
        ;
    }
}

/// Envelopes keep the volume in range.
pub proof fn law_envelope_stays_in_range(e: Envelope, period: u8, up: bool)
    requires
        e.volume <= 15,
    ensures
        e.clocked(period, up).volume <= 15,
{
}

/// A wave at any level is as far from zero on one side as the inverted wave is
/// on the other: the level adds no offset.
pub proof fn law_level_adds_no_offset(c: WaveChannel, d: WaveChannel)
    requires
        c.enabled == d.enabled,
        c.dac_enabled == d.dac_enabled,
        c.volume_shift == d.volume_shift,
        c.sample() + d.sample() == 15,
    ensures
        c.amplitude() + d.amplitude() == 0,
{
}

/// The four settings of a square wave are high for one, two, four and six eighths of
/// it, and each changes its level twice within a turn.
pub proof fn law_square_settings(duty: u8, s: u8)
    requires
        duty < 4,
        s < 8,
    ensures
        high_steps(duty, 8) == (if duty == 0 {
            1int
        } else {
            2 * duty
        }),
        changes(duty, 8) == 2,
        duty < 3 ==> duty_high(duty, 7),
        duty == 3 ==> duty_high(duty, s) != duty_high(1, s),
{
    reveal_with_fuel(high_steps, 9);
    reveal_with_fuel(changes, 9);
}

/// How many of the first `n` steps are high.
pub open spec fn high_steps(duty: u8, n: nat) -> int
    decreases n,
{
    if n == 0 {
        0
    } else {
        high_steps(duty, (n - 1) as nat) + (if duty_high(duty, (n - 1) as u8) {
            1int
        } else {
            0
        })
    }
}

/// How often the level differs from that of the step before, in the first `n` steps.
pub open spec fn changes(duty: u8, n: nat) -> int
    decreases n,
{
    if n == 0 {
        0
    } else {
        changes(duty, (n - 1) as nat) + (if duty_high(duty, (n - 1) as u8) != duty_high(
            duty,
            ((n + 6) % 8) as u8,
        ) {
            1int
        } else {
            0
        })
    }
}

/// A byte of the wave holds two samples, the first in its high half.
pub proof fn law_wave_bytes_play_high_half_first(c: WaveChannel, d: WaveChannel, hi: int, lo: int)
    requires
        c.sample_pointer % 2 == 0,
        c.sample_pointer < 32,
        d == (WaveChannel { sample_pointer: (c.sample_pointer + 1) as u8, ..c }),
        0 <= hi < 16,
        0 <= lo < 16,
        c.wave_ram@[c.sample_pointer as int / 2] == 16 * hi + lo,
    ensures
        c.sample() == hi,
        d.sample() == lo,
{
    assert(d.sample_pointer as int / 2 == c.sample_pointer as int / 2);
}

/// A timer runs down one by one and starts over from its period when it expires.
pub proof fn law_timer_runs_down(timer: int, p: int, n: int)
    requires
        1 <= timer <= p,
        0 <= n,
    ensures
        timer_after(timer, p, 0) == timer,
        expiries(timer, p, 0) == 0,
        ({
            let before = timer_after(timer, p, n);
            let after = timer_after(timer, p, n + 1);
            let more = expiries(timer, p, n + 1) - expiries(timer, p, n);
            if before == 1 {
                after == p && more == 1
            } else {
                after == before - 1 && more == 0
            }
        }),
{
    if n >= timer {
        let a = n - timer;
        vstd::arithmetic::div_mod::lemma_fundamental_div_mod(a, p);
        let q = a / p;
        let r = a % p;
        if r == p - 1 {
            assert(a + 1 == p * (q + 1)) by (nonlinear_arith)
                requires
                    p * q + r == a,
                    r == p - 1,
            ;
            vstd::arithmetic::div_mod::lemma_fundamental_div_mod_converse(a + 1, p, q + 1, 0);
        } else {
            vstd::arithmetic::div_mod::lemma_fundamental_div_mod_converse(a + 1, p, q, r + 1);
        }
    } else if n + 1 == timer {
        assert(0int % p == 0 && 0int / p == 0) by (nonlinear_arith)
            requires
                p > 0,
        ;
    }
}

} // verus!
