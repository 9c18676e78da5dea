//! Serial peripheral bus of the second processor: power management, firmware
//! flash and touch-screen converter behind one control/data register pair.

use vstd::prelude::*;
use crate::bytes;
use crate::user_settings;

verus! {

/// Entries kept in the touch transaction log.
pub const IO_LOG_CAP: usize = 4096;

/// Entries kept in the firmware read log.
pub const READ_LOG_CAP: usize = 48;

#[derive(Clone, Copy, Debug, PartialEq, Eq, Structural)]
pub enum TscState {
    ExpectControl,
    ExpectData,
}

impl Default for TscState {
    fn default() -> (r: Self)
        ensures
            r == TscState::ExpectControl,
    {
        TscState::ExpectControl
    }
}

/// Mathematical state of the touch converter.
pub struct TscModel {
    pub touch_x: u16,
    pub touch_y: u16,
    pub touch_pressed: bool,
    pub state: TscState,
    pub current_channel: u8,
    pub mode_8bit: bool,
    pub result: u16,
    pub byte_count: usize,
    pub conv_counts: Seq<u32>,
    pub io_log: Seq<(u8, u8)>,
    pub io_log_on: bool,
}

/// `v` limited to the range of a 12-bit conversion.
pub open spec fn clamp12(v: int) -> u16 {
    if v < 0 {
        0
    } else if v > 4095 {
        4095
    } else {
        v as u16
    }
}

impl TscModel {
    pub open spec fn wf(self) -> bool {
        self.conv_counts.len() == 8
    }

    pub open spec fn fresh() -> TscModel {
        TscModel {
            touch_x: 0,
            touch_y: 0,
            touch_pressed: false,
            state: TscState::ExpectControl,
            current_channel: 0,
            mode_8bit: false,
            result: 0,
            byte_count: 0,
            conv_counts: Seq::new(8, |i: int| 0u32),
            io_log: Seq::empty(),
            io_log_on: false,
        }
    }

    /// Conversion of the selected channel. With the pen up the Y and Z2 inputs
    /// are pulled to the rail and everything else floats low; with the pen down
    /// Y is 20 counts per pixel and X 15, each offset by 128.
    pub open spec fn conversion(self) -> u16 {
        if !self.touch_pressed {
            if self.current_channel == 1 || self.current_channel == 4 {
                0xFFF
            } else {
                0
            }
        } else if self.current_channel == 1 {
            clamp12(self.touch_y * 20 + 128)
        } else if self.current_channel == 5 {
            clamp12(self.touch_x * 15 + 128)
        } else if self.current_channel == 3 {
            100
        } else if self.current_channel == 4 {
            200
        } else {
            0
        }
    }

    /// State once a control byte has selected a channel and run a conversion.
    pub open spec fn latched(self, val: u8) -> TscModel {
        let ch = (val >> 4) & 0x7;
        let s = TscModel {
            current_channel: ch,
            conv_counts: self.conv_counts.update(
                ch as int,
                self.conv_counts[ch as int].wrapping_add(1),
            ),
            mode_8bit: (val & 0x08) != 0,
            byte_count: 0,
            state: TscState::ExpectData,
            ..self
        };
        TscModel { result: s.conversion(), ..s }
    }

    /// State after answering one data byte, before any overlapped control byte.
    pub open spec fn drained(self) -> TscModel {
        if self.state != TscState::ExpectData {
            self
        } else if self.mode_8bit {
            if self.byte_count == 0 {
                TscModel { byte_count: 1, state: TscState::ExpectControl, ..self }
            } else {
                self
            }
        } else if self.byte_count == 0 {
            TscModel { byte_count: 1, ..self }
        } else if self.byte_count == 1 {
            TscModel { byte_count: 2, state: TscState::ExpectControl, ..self }
        } else {
            self
        }
    }

    /// Byte answered in the current phase.
    pub open spec fn response(self) -> u8 {
        if self.state != TscState::ExpectData {
            0
        } else if self.mode_8bit {
            if self.byte_count == 0 {
                ((self.result >> 4) & 0xFF) as u8
            } else {
                0
            }
        } else if self.byte_count == 0 {
            ((self.result >> 5) & 0x7F) as u8
        } else if self.byte_count == 1 {
            ((self.result << 3) & 0xF8) as u8
        } else {
            0
        }
    }

    /// State after one byte, the log aside. A control byte takes effect even
    /// while the previous result is still being read.
    pub open spec fn stepped(self, val: u8) -> TscModel {
        if (val & 0x80) != 0 {
            self.drained().latched(val)
        } else {
            self.drained()
        }
    }

    /// State after one byte.
    pub open spec fn clocked(self, val: u8) -> TscModel {
        let s = self.stepped(val);
        TscModel {
            io_log: if s.io_log_on && s.io_log.len() < IO_LOG_CAP {
                s.io_log.push((val, self.response()))
            } else {
                s.io_log
            },
            ..s
        }
    }

    /// State once the transaction is abandoned.
    pub open spec fn released(self) -> TscModel {
        TscModel { state: TscState::ExpectControl, byte_count: 0, ..self }
    }
}

/// Touch-screen converter.
#[derive(Clone, Debug)]
pub struct TouchScreenController {
    pub touch_x: u16,
    pub touch_y: u16,
    pub touch_pressed: bool,
    pub state: TscState,
    pub current_channel: u8,
    pub mode_8bit: bool,
    pub result: u16,
    pub byte_count: usize,
    /// Conversions started per channel.
    pub conv_counts: [u32; 8],
    /// Transaction log (byte in, byte out), filled while `io_log_on`.
    pub io_log: Vec<(u8, u8)>,
    pub io_log_on: bool,
}

impl View for TouchScreenController {
    type V = TscModel;

    open spec fn view(&self) -> TscModel {
        TscModel {
            touch_x: self.touch_x,
            touch_y: self.touch_y,
            touch_pressed: self.touch_pressed,
            state: self.state,
            current_channel: self.current_channel,
            mode_8bit: self.mode_8bit,
            result: self.result,
            byte_count: self.byte_count,
            conv_counts: self.conv_counts@,
            io_log: self.io_log@,
            io_log_on: self.io_log_on,
        }
    }
}

impl Default for TouchScreenController {
    fn default() -> (r: Self)
        ensures
            r@ == TscModel::fresh(),
    {
        TouchScreenController::new()
    }
}

impl TouchScreenController {
    pub fn new() -> (r: Self)
        ensures
            r@ == TscModel::fresh(),
            r@.wf(),
    {
        let r = TouchScreenController {
            touch_x: 0,
            touch_y: 0,
            touch_pressed: false,
            state: TscState::ExpectControl,
            current_channel: 0,
            mode_8bit: false,
            result: 0,
            byte_count: 0,
            conv_counts: [0u32; 8],
            io_log: Vec::new(),
            io_log_on: false,
        };
        assert(r@.conv_counts =~= TscModel::fresh().conv_counts);
        r
    }

    /// Clocks one byte and returns the byte answered.
    pub fn process_byte(&mut self, val: u8) -> (out: u8)
        ensures
            out == old(self)@.response(),
            final(self)@ == old(self)@.clocked(val),
    {
        let out: u8 = self.process_byte_inner(val);
        if self.io_log_on && self.io_log.len() < IO_LOG_CAP {
            self.io_log.push((val, out));
        }
        out
    }

    fn latch_control(&mut self, val: u8)
        ensures
            final(self)@ == old(self)@.latched(val),
    {
        let ch: u8 = (val >> 4) & 0x7;
        assert((val >> 4) & 0x7 < 8) by (bit_vector);
        self.current_channel = ch;
        self.conv_counts[ch as usize] = self.conv_counts[ch as usize].wrapping_add(1);
        self.mode_8bit = (val & 0x08) != 0;
        self.byte_count = 0;
        self.state = TscState::ExpectData;
        self.result = self.calculate_result();
    }

    fn process_byte_inner(&mut self, val: u8) -> (out: u8)
        ensures
            out == old(self)@.response(),
            final(self)@ == old(self)@.stepped(val),
    {
        match self.state {
            TscState::ExpectControl => {
                if (val & 0x80) != 0 {
                    self.latch_control(val);
                }
                0
            },
            TscState::ExpectData => {
                let response: u8 = if self.mode_8bit {
                    if self.byte_count == 0 {
                        self.byte_count = 1;
                        self.state = TscState::ExpectControl;
                        ((self.result >> 4) & 0xFF) as u8
                    } else {
                        0
                    }
                } else if self.byte_count == 0 {
                    self.byte_count = 1;
                    ((self.result >> 5) & 0x7F) as u8
                } else if self.byte_count == 1 {
                    self.byte_count = 2;
                    self.state = TscState::ExpectControl;
                    ((self.result << 3) & 0xF8) as u8
                } else {
                    0
                };
                if (val & 0x80) != 0 {
                    self.latch_control(val);
                }
                response
            },
        }
    }

    /// Conversion of the selected channel.
    pub fn calculate_result(&self) -> (r: u16)
        ensures
            r == self@.conversion(),
    {
        if !self.touch_pressed {
            return match self.current_channel {
                1 | 4 => 0xFFF,
                _ => 0,
            };
        }
        match self.current_channel {
            1 => {
                let raw: u32 = self.touch_y as u32 * 20 + 128;
                if raw > 4095 {
                    4095
                } else {
                    raw as u16
                }
            },
            5 => {
                let raw: u32 = self.touch_x as u32 * 15 + 128;
                if raw > 4095 {
                    4095
                } else {
                    raw as u16
                }
            },
            3 => 100,
            4 => 200,
            _ => 0,
        }
    }

    pub fn reset_state(&mut self)
        ensures
            final(self)@ == old(self)@.released(),
    {
        self.state = TscState::ExpectControl;
        self.byte_count = 0;
    }
}

#[derive(Clone, Copy, Debug, PartialEq, Eq, Structural)]
pub enum PmicStateEnum {
    ExpectCommand,
    ExpectData,
}

impl Default for PmicStateEnum {
    fn default() -> (r: Self)
        ensures
            r == PmicStateEnum::ExpectCommand,
    {
        PmicStateEnum::ExpectCommand
    }
}

/// Power-management chip.
#[derive(Clone, Copy, Debug, PartialEq, Eq, Structural)]
pub struct PmicState {
    pub control: u8,
    pub reg_addr: u8,
    pub is_read: bool,
    pub state: PmicStateEnum,
}

impl Default for PmicState {
    fn default() -> (r: Self)
        ensures
            r == PmicState::fresh(),
    {
        PmicState::new()
    }
}

impl PmicState {
    pub open spec fn fresh() -> PmicState {
        PmicState {
            control: 0,
            reg_addr: 0,
            is_read: false,
            state: PmicStateEnum::ExpectCommand,
        }
    }

    /// Byte answered in the current phase: register 0 reads both backlights on,
    /// every other register reads zero.
    pub open spec fn response(self) -> u8 {
        if self.state == PmicStateEnum::ExpectData && self.is_read && self.reg_addr == 0 {
            0x03
        } else {
            0
        }
    }

    /// State after one byte.
    pub open spec fn clocked(self, val: u8) -> PmicState {
        match self.state {
            PmicStateEnum::ExpectCommand => PmicState {
                is_read: (val & 0x80) != 0,
                reg_addr: val & 0x7F,
                state: PmicStateEnum::ExpectData,
                ..self
            },
            PmicStateEnum::ExpectData => PmicState {
                state: PmicStateEnum::ExpectCommand,
                ..self
            },
        }
    }

    pub fn new() -> (r: Self)
        ensures
            r == PmicState::fresh(),
    {
        PmicState {
            control: 0,
            reg_addr: 0,
            is_read: false,
            state: PmicStateEnum::ExpectCommand,
        }
    }

    /// Clocks one byte and returns the byte answered.
    pub fn process_byte(&mut self, val: u8) -> (out: u8)
        ensures
            out == old(self).response(),
            *final(self) == old(self).clocked(val),
    {
        match self.state {
            PmicStateEnum::ExpectCommand => {
                self.is_read = (val & 0x80) != 0;
                self.reg_addr = val & 0x7F;
                self.state = PmicStateEnum::ExpectData;
                0
            },
            PmicStateEnum::ExpectData => {
                self.state = PmicStateEnum::ExpectCommand;
                if self.is_read {
                    match self.reg_addr {
                        0 => 0x03,
                        _ => 0,
                    }
                } else {
                    0
                }
            },
        }
    }
}

/// Firmware flash size.
pub const FIRMWARE_BYTES: usize = 0x40000;

/// Where the settings page stands in the firmware image.
pub const SETTINGS_OFFSET: usize = 0x3FE00;

/// Mathematical state of the firmware flash.
pub struct FirmwareModel {
    pub cmd: Option<u8>,
    pub idx: u32,
    pub addr: u32,
    pub wel: bool,
    pub data: Seq<u8>,
    pub wip_reads: u8,
    pub log_on: bool,
    pub read_log: Seq<(u32, u8)>,
}

/// The factory image: erased, with a header that points at the settings page
/// and the settings page itself.
pub open spec fn firmware_image() -> Seq<u8> {
    Seq::new(
        FIRMWARE_BYTES as nat,
        |i: int|
            if i == 0x20 {
                0xC0u8
            } else if i == 0x21 {
                0x7Fu8
            } else if SETTINGS_OFFSET <= i < SETTINGS_OFFSET + user_settings::user_settings().len() {
                user_settings::user_settings()[i - SETTINGS_OFFSET]
            } else {
                0xFFu8
            },
    )
}

impl FirmwareModel {
    pub open spec fn wf(self) -> bool {
        self.data.len() == FIRMWARE_BYTES
    }

    pub open spec fn fresh() -> FirmwareModel {
        FirmwareModel {
            cmd: None,
            idx: 0,
            addr: 0,
            wel: false,
            data: firmware_image(),
            wip_reads: 0,
            log_on: false,
            read_log: Seq::empty(),
        }
    }

    /// Whether the open transaction is one that keeps the chip busy afterwards.
    pub open spec fn is_write(self) -> bool {
        self.cmd == Some(0x02u8) || self.cmd == Some(0x0Au8) || self.cmd == Some(0x01u8)
            || self.cmd == Some(0xDBu8)
    }

    /// State once chip select is released.
    pub open spec fn released(self) -> FirmwareModel {
        FirmwareModel {
            wip_reads: if self.is_write() { 2 } else { self.wip_reads },
            cmd: None,
            idx: 0,
            addr: 0,
            ..self
        }
    }

    /// Cell that a bus address selects.
    pub open spec fn cell(self, addr: u32) -> int {
        addr as int % FIRMWARE_BYTES as int
    }

    pub open spec fn status(self) -> u8 {
        (if self.wip_reads > 0 { 1u8 } else { 0u8 }) | (if self.wel { 2u8 } else { 0u8 })
    }

    /// Byte answered to `val`.
    pub open spec fn response(self, val: u8) -> u8 {
        if self.cmd == Some(0x05u8) {
            self.status()
        } else if self.cmd == Some(0x03u8) && self.idx.wrapping_add(1) > 3 {
            self.data[self.cell(self.addr)]
        } else {
            0
        }
    }

    /// State after one byte.
    pub open spec fn clocked(self, val: u8) -> FirmwareModel {
        let i = self.idx.wrapping_add(1);
        match self.cmd {
            None => FirmwareModel {
                cmd: Some(val),
                wel: if val == 0x06 {
                    true
                } else if val == 0x04 {
                    false
                } else {
                    self.wel
                },
                ..self
            },
            Some(cmd) => if cmd == 0x05 {
                FirmwareModel {
                    wip_reads: if self.wip_reads > 0 { (self.wip_reads - 1) as u8 } else { 0 },
                    wel: self.wel && self.wip_reads != 1,
                    ..self
                }
            } else if cmd == 0x03 || cmd == 0x02 || cmd == 0x0A {
                if i <= 3 {
                    FirmwareModel { idx: i, addr: (self.addr << 8) | val as u32, ..self }
                } else if cmd == 0x03 {
                    FirmwareModel {
                        idx: i,
                        addr: self.addr.wrapping_add(1),
                        read_log: if i == 4 && self.log_on && self.read_log.len() < READ_LOG_CAP {
                            self.read_log.push((self.addr, self.data[self.cell(self.addr)]))
                        } else {
                            self.read_log
                        },
                        ..self
                    }
                } else {
                    FirmwareModel {
                        idx: i,
                        addr: self.addr.wrapping_add(1),
                        data: self.data.update(self.cell(self.addr), val),
                        ..self
                    }
                }
            } else {
                self
            },
        }
    }
}

/// Firmware serial flash.
#[derive(Clone, Debug)]
pub struct FirmwareState {
    cmd: Option<u8>,
    idx: u32,
    addr: u32,
    wel: bool,
    data: Vec<u8>,
    wip_reads: u8,
    /// Whether the start of each read transaction is logged.
    pub log_on: bool,
    pub read_log: Vec<(u32, u8)>,
}

impl View for FirmwareState {
    type V = FirmwareModel;

    closed spec fn view(&self) -> FirmwareModel {
        FirmwareModel {
            cmd: self.cmd,
            idx: self.idx,
            addr: self.addr,
            wel: self.wel,
            data: self.data@,
            wip_reads: self.wip_reads,
            log_on: self.log_on,
            read_log: self.read_log@,
        }
    }
}

impl Default for FirmwareState {
    fn default() -> (r: Self)
        ensures
            r@ == FirmwareModel::fresh(),
    {
        FirmwareState::new()
    }
}

impl FirmwareState {
    pub fn new() -> (r: Self)
        ensures
            r@ == FirmwareModel::fresh(),
            r@.wf(),
    {
        FirmwareState {
            cmd: None,
            idx: 0,
            addr: 0,
            wel: false,
            data: FirmwareState::initial_image(),
            wip_reads: 0,
            log_on: false,
            read_log: Vec::new(),
        }
    }

    fn initial_image() -> (d: Vec<u8>)
        ensures
            d@ == firmware_image(),
    {
        let mut d: Vec<u8> = vec![0xFFu8; FIRMWARE_BYTES];
        d[0x20] = 0xC0;
        d[0x21] = 0x7F;
        let settings: Vec<u8> = user_settings::build_user_settings();
        let mut i: usize = 0;
        while i < settings.len()
            invariant
                settings@ == user_settings::user_settings(),
                settings@.len() == 512,
                0 <= i <= 512,
                d@.len() == FIRMWARE_BYTES,
                forall|k: int|
                    0 <= k < d@.len() ==> #[trigger] d@[k] == (if SETTINGS_OFFSET <= k
                        < SETTINGS_OFFSET + i {
                        user_settings::user_settings()[k - SETTINGS_OFFSET]
                    } else if k == 0x20 {
                        0xC0u8
                    } else if k == 0x21 {
                        0x7Fu8
                    } else {
                        0xFFu8
                    }),
            decreases settings@.len() - i,
        {
            d[SETTINGS_OFFSET + i] = settings[i];
            i = i + 1;
        }
        assert(d@ =~= firmware_image());
        d
    }

    /// The flash contents.
    pub fn data(&self) -> (d: &[u8])
        ensures
            d@ == self@.data,
    {
        self.data.as_slice()
    }

    /// Chip-select release. A write command starts the simulated busy window.
    pub fn reset_state(&mut self)
        ensures
            final(self)@ == old(self)@.released(),
    {
        if let Some(cmd) = self.cmd {
            if cmd == 0x02 || cmd == 0x0A || cmd == 0x01 || cmd == 0xDB {
                self.wip_reads = 2;
            }
        }
        self.cmd = None;
        self.idx = 0;
        self.addr = 0;
    }

    /// Clocks one byte and returns the byte answered.
    pub fn process_byte(&mut self, val: u8) -> (out: u8)
        requires
            old(self)@.wf(),
        ensures
            out == old(self)@.response(val),
            final(self)@ == old(self)@.clocked(val),
            final(self)@.wf(),
    {
        match self.cmd {
            None => {
                self.cmd = Some(val);
                match val {
                    0x06 => {
                        self.wel = true;
                    },
                    0x04 => {
                        self.wel = false;
                    },
                    _ => {},
                }
                0x00
            },
            Some(cmd) => {
                if cmd == 0x05 {
                    let wip: u8 = if self.wip_reads > 0 { 1 } else { 0 };
                    let latch: u8 = if self.wel { 2 } else { 0 };
                    if self.wip_reads > 0 {
                        self.wip_reads = self.wip_reads - 1;
                        if self.wip_reads == 0 {
                            self.wel = false;
                        }
                    }
                    wip | latch
                } else if cmd == 0x03 {
                    self.idx = self.idx.wrapping_add(1);
                    if self.idx <= 3 {
                        self.addr = (self.addr << 8) | val as u32;
                        0x00
                    } else {
                        let b: u8 = self.data[(self.addr as usize) % FIRMWARE_BYTES];
                        if self.idx == 4 && self.log_on && self.read_log.len() < READ_LOG_CAP {
                            self.read_log.push((self.addr, b));
                        }
                        self.addr = self.addr.wrapping_add(1);
                        b
                    }
                } else if cmd == 0x02 || cmd == 0x0A {
                    self.idx = self.idx.wrapping_add(1);
                    if self.idx <= 3 {
                        self.addr = (self.addr << 8) | val as u32;
                    } else {
                        self.data[(self.addr as usize) % FIRMWARE_BYTES] = val;
                        self.addr = self.addr.wrapping_add(1);
                    }
                    0x00
                } else {
                    0x00
                }
            },
        }
    }
}

/// Mathematical state of the bus.
pub struct SpiModel {
    pub spicnt: u16,
    pub spidata: u16,
    pub tsc: TscModel,
    pub pmic: PmicState,
    pub firmware: FirmwareModel,
}

impl SpiModel {
    pub open spec fn wf(self) -> bool {
        &&& self.tsc.wf()
        &&& self.firmware.wf()
    }

    pub open spec fn fresh() -> SpiModel {
        SpiModel {
            spicnt: 0,
            spidata: 0,
            tsc: TscModel::fresh(),
            pmic: PmicState::fresh(),
            firmware: FirmwareModel::fresh(),
        }
    }

    /// State with every device deselected.
    pub open spec fn released(self) -> SpiModel {
        SpiModel {
            tsc: self.tsc.released(),
            pmic: PmicState { state: PmicStateEnum::ExpectCommand, ..self.pmic },
            firmware: self.firmware.released(),
            ..self
        }
    }

    /// State after a control write: only the writable bits are kept, and
    /// disabling the bus deselects every device.
    pub open spec fn with_cnt(self, val: u16) -> SpiModel {
        let s = SpiModel { spicnt: val & 0xCF03, ..self };
        if (s.spicnt & 0x8000) == 0 {
            s.released()
        } else {
            s
        }
    }

    /// State after the selected device has exchanged one byte.
    pub open spec fn exchanged(self, b: u8) -> SpiModel {
        let device = (self.spicnt >> 8) & 3;
        if device == 0 {
            SpiModel { pmic: self.pmic.clocked(b), spidata: self.pmic.response() as u16, ..self }
        } else if device == 1 {
            SpiModel {
                firmware: self.firmware.clocked(b),
                spidata: self.firmware.response(b) as u16,
                ..self
            }
        } else if device == 2 {
            SpiModel { tsc: self.tsc.clocked(b), spidata: self.tsc.response() as u16, ..self }
        } else {
            SpiModel { spidata: 0xFF, ..self }
        }
    }

    /// State after a data write: one byte is exchanged, and the devices are
    /// deselected unless chip-select hold is set.
    pub open spec fn with_data(self, val: u16) -> SpiModel {
        if (self.spicnt & 0x8000) == 0 {
            self
        } else {
            let s = self.exchanged((val & 0xFF) as u8);
            if (self.spicnt & 0x0800) == 0 {
                s.released()
            } else {
                s
            }
        }
    }
}

/// Control and data registers with the three devices behind them.
#[derive(Clone, Debug)]
pub struct SpiController {
    pub spicnt: u16,
    pub spidata: u16,
    pub tsc: TouchScreenController,
    pub pmic: PmicState,
    pub firmware: FirmwareState,
}

impl View for SpiController {
    type V = SpiModel;

    open spec fn view(&self) -> SpiModel {
        SpiModel {
            spicnt: self.spicnt,
            spidata: self.spidata,
            tsc: self.tsc@,
            pmic: self.pmic,
            firmware: self.firmware@,
        }
    }
}

impl Default for SpiController {
    fn default() -> (r: Self)
        ensures
            r@ == SpiModel::fresh(),
    {
        SpiController::new()
    }
}

impl SpiController {
    pub fn new() -> (r: Self)
        ensures
            r@ == SpiModel::fresh(),
            r@.wf(),
    {
        SpiController {
            spicnt: 0,
            spidata: 0,
            tsc: TouchScreenController::new(),
            pmic: PmicState::new(),
            firmware: FirmwareState::new(),
        }
    }

    pub fn read_spicnt(&self) -> (v: u16)
        ensures
            v == self@.spicnt,
    {
        self.spicnt
    }

    pub fn write_spicnt(&mut self, val: u16)
        ensures
            final(self)@ == old(self)@.with_cnt(val),
    {
        self.spicnt = val & 0xCF03;
        if (self.spicnt & 0x8000) == 0 {
            self.release();
        }
    }

    fn release(&mut self)
        ensures
            final(self)@ == old(self)@.released(),
    {
        self.tsc.reset_state();
        self.pmic.state = PmicStateEnum::ExpectCommand;
        self.firmware.reset_state();
    }

    pub fn read_spidata(&self) -> (v: u16)
        ensures
            v == self@.spidata,
    {
        self.spidata
    }

    /// Exchanges one byte with the selected device. The transfer is always
    /// eight bits wide.
    pub fn write_spidata(&mut self, val: u16)
        requires
            old(self)@.wf(),
        ensures
            final(self)@ == old(self)@.with_data(val),
            final(self)@.wf(),
    {
        if (self.spicnt & 0x8000) == 0 {
            return;
        }
        let device: u16 = (self.spicnt >> 8) & 3;
        let input: u8 = (val & 0xFF) as u8;
        let output: u8 = match device {
            0 => self.pmic.process_byte(input),
            1 => self.firmware.process_byte(input),
            2 => self.tsc.process_byte(input),
            _ => 0xFF,
        };
        self.spidata = output as u16;
        if (self.spicnt & 0x0800) == 0 {
            self.release();
        }
    }
}

/// Pixel that a driver computes from converter counts `adc` and a published
/// pair of reference points.
pub open spec fn calibrated(adc: int, adc1: int, screen1: int, adc2: int, screen2: int) -> int {
    screen1 + (adc - adc1) * (screen2 - screen1) / (adc2 - adc1)
}

/// Every pixel of the touch panel converts to counts strictly inside the
/// converter's range, and the calibration published in the user settings maps
/// the counts back to exactly that pixel.
pub proof fn law_touch_round_trip(t: TscModel)
    requires
        t.touch_pressed,
    ensures
        t.current_channel == 5 && t.touch_x < 256 ==> {
            &&& 0 < t.conversion() < 4095
            &&& calibrated(
                t.conversion() as int,
                user_settings::ADC_X1 as int,
                user_settings::SCREEN_X1 as int,
                user_settings::ADC_X2 as int,
                user_settings::SCREEN_X2 as int,
            ) == t.touch_x
        },
        t.current_channel == 1 && t.touch_y < 192 ==> {
            &&& 0 < t.conversion() < 4095
            &&& calibrated(
                t.conversion() as int,
                user_settings::ADC_Y1 as int,
                user_settings::SCREEN_Y1 as int,
                user_settings::ADC_Y2 as int,
                user_settings::SCREEN_Y2 as int,
            ) == t.touch_y
        },
{
    let x = t.touch_x as int;
    let y = t.touch_y as int;
    assert((x * 15 + 128 - 608) * 192 == 2880 * (x - 32));
    assert((y * 20 + 128 - 608) * 144 == 2880 * (y - 24));
    assert(2880 * (x - 32) / 2880 == x - 32);
    assert(2880 * (y - 24) / 2880 == y - 24);
}

/// Conversions can be pipelined: a control byte that rides on the low-bits read
/// starts the next conversion, so the next read answers from it.
pub proof fn law_overlapped_conversion(t: TscModel, ctrl: u8)
    requires
        t.wf(),
        t.state == TscState::ExpectData,
        (ctrl & 0x80) != 0,
    ensures
        t.clocked(ctrl).state == TscState::ExpectData,
        t.clocked(ctrl).byte_count == 0,
        t.clocked(ctrl).result == t.clocked(ctrl).conversion(),
        t.clocked(ctrl).current_channel == (ctrl >> 4) & 7,
{
}

/// While the bus is disabled a data write changes nothing.
pub proof fn law_disabled_bus_is_inert(s: SpiModel, val: u16)
    requires
        (s.spicnt & 0x8000) == 0,
    ensures
        s.with_data(val) == s,
{
}

impl TscModel {
    /// Converter that resumes from a saved one; the counters and the log are not
    /// saved.
    pub open spec fn resumed(self, saved: TscModel) -> TscModel {
        TscModel {
            conv_counts: self.conv_counts,
            io_log: self.io_log,
            io_log_on: self.io_log_on,
            ..saved
        }
    }
}

impl TouchScreenController {
    /// Takes the state of a saved converter over.
    pub fn resume_from(&mut self, saved: &TouchScreenController)
        ensures
            final(self)@ == old(self)@.resumed(saved@),
    {
        self.touch_x = saved.touch_x;
        self.touch_y = saved.touch_y;
        self.touch_pressed = saved.touch_pressed;
        self.state = saved.state;
        self.current_channel = saved.current_channel;
        self.mode_8bit = saved.mode_8bit;
        self.result = saved.result;
        self.byte_count = saved.byte_count;
    }
}

impl FirmwareModel {
    /// Chip that resumes from a saved one. The image is saved, since programs
    /// rewrite the settings in it; the log is not.
    pub open spec fn resumed(self, saved: FirmwareModel) -> FirmwareModel {
        FirmwareModel { log_on: self.log_on, read_log: self.read_log, ..saved }
    }
}

impl FirmwareState {
    /// Bytes of the image.
    pub fn image_len(&self) -> (n: usize)
        ensures
            n == self@.data.len(),
    {
        self.data.len()
    }

    /// Takes the state of a saved chip over.
    pub fn resume_from(&mut self, saved: &FirmwareState)
        ensures
            final(self)@ == old(self)@.resumed(saved@),
    {
        self.cmd = saved.cmd;
        self.idx = saved.idx;
        self.addr = saved.addr;
        self.wel = saved.wel;
        self.data = bytes::copied(&saved.data);
        self.wip_reads = saved.wip_reads;
    }
}

impl SpiModel {
    /// Bus that resumes from a saved one.
    pub open spec fn resumed(self, saved: SpiModel) -> SpiModel {
        SpiModel {
            spicnt: saved.spicnt,
            spidata: saved.spidata,
            tsc: self.tsc.resumed(saved.tsc),
            pmic: saved.pmic,
            firmware: self.firmware.resumed(saved.firmware),
        }
    }
}

impl SpiController {
    /// Takes the state of a saved bus and its devices over.
    pub fn resume_from(&mut self, saved: &SpiController)
        ensures
            final(self)@ == old(self)@.resumed(saved@),
    {
        self.spicnt = saved.spicnt;
        self.spidata = saved.spidata;
        self.tsc.resume_from(&saved.tsc);
        self.pmic = saved.pmic;
        self.firmware.resume_from(&saved.firmware);
    }
}

impl FirmwareModel {
    /// Whether no transaction is open.
    pub open spec fn idle(self) -> bool {
        self.cmd is None && self.idx == 0 && self.addr == 0
    }

    /// State after clocking several bytes in order.
    pub open spec fn clocked_all(self, bytes: Seq<u8>) -> FirmwareModel
        decreases bytes.len(),
    {
        if bytes.len() == 0 {
            self
        } else {
            self.clocked_all(bytes.drop_last()).clocked(bytes.last())
        }
    }
}

/// The address that three bytes spell, most significant first.
pub open spec fn flash_address(a2: u8, a1: u8, a0: u8) -> u32 {
    (((((0u32 << 8) | a2 as u32) << 8) | a1 as u32) << 8) | a0 as u32
}

/// Bytes of a transaction with an address.
pub open spec fn flash_frame(op: u8, a2: u8, a1: u8, a0: u8, rest: Seq<u8>) -> Seq<u8> {
    seq![op, a2, a1, a0] + rest
}

/// Contents after the bytes `d` were written from cell `at` on, wrapping at the
/// end of the chip.
pub open spec fn flash_written(data: Seq<u8>, at: int, d: Seq<u8>) -> Seq<u8> {
    Seq::new(
        data.len(),
        |k: int|
            if (k - at) % 0x40000 < d.len() {
                d[(k - at) % 0x40000]
            } else {
                data[k]
            },
    )
}

proof fn lemma_flash_head(f: FirmwareModel, op: u8, a2: u8, a1: u8, a0: u8)
    requires
        f.idle(),
        op == 0x02 || op == 0x0A || op == 0x03,
    ensures
        f.clocked_all(seq![op, a2, a1, a0]) == (FirmwareModel {
            cmd: Some(op),
            idx: 3,
            addr: flash_address(a2, a1, a0),
            ..f
        }),
        flash_address(a2, a1, a0) < 0x100_0000,
{
    let s = seq![op, a2, a1, a0];
    reveal_with_fuel(FirmwareModel::clocked_all, 5);
    assert(s.drop_last() =~= seq![op, a2, a1]);
    assert(seq![op, a2, a1].drop_last() =~= seq![op, a2]);
    assert(seq![op, a2].drop_last() =~= seq![op]);
    assert(seq![op].drop_last() =~= Seq::empty());
    assert(((((((0u32 << 8) | a2 as u32) << 8) | a1 as u32) << 8) | a0 as u32) < 0x100_0000)
        by (bit_vector);
}

proof fn lemma_flash_append(f: FirmwareModel, s: Seq<u8>, t: Seq<u8>)
    ensures
        f.clocked_all(s + t) == f.clocked_all(s).clocked_all(t),
    decreases t.len(),
{
    if t.len() == 0 {
        assert(s + t =~= s);
    } else {
        assert((s + t).drop_last() =~= s + t.drop_last());
        lemma_flash_append(f, s, t.drop_last());
    }
}

proof fn lemma_flash_bytes(f: FirmwareModel, d: Seq<u8>)
    requires
        f.wf(),
        f.cmd == Some(0x02u8) || f.cmd == Some(0x0Au8) || f.cmd == Some(0x03u8),
        f.idx == 3,
        f.addr < 0x100_0000,
        d.len() <= FIRMWARE_BYTES,
    ensures
        ({
            let s = f.clocked_all(d);
            &&& s.wf()
            &&& s.cmd == f.cmd
            &&& s.idx == 3 + d.len()
            &&& s.addr == f.addr + d.len()
            &&& s.data == if f.cmd == Some(0x03u8) {
                f.data
            } else {
                flash_written(f.data, f.cell(f.addr), d)
            }
        }),
    decreases d.len(),
{
    let at = f.cell(f.addr);
    if d.len() == 0 {
        assert(flash_written(f.data, at, d) =~= f.data);
    } else {
        let e = d.drop_last();
        let n = e.len() as int;
        lemma_flash_bytes(f, e);
        let p = f.clocked_all(e);
        let q = p.clocked(d.last());
        if f.cmd != Some(0x03u8) {
            let cell = p.cell(p.addr);
            assert(cell == (at + n) % 0x40000);
            assert forall|k: int| 0 <= k < f.data.len() implies #[trigger] q.data[k]
                == flash_written(f.data, at, d)[k] by {
                if (k - at) % 0x40000 == n {
                    assert(k == cell);
                } else {
                    assert(k != cell);
                }
            }
            assert(q.data =~= flash_written(f.data, at, d));
        }
    }
}

/// A read transaction answers, byte by byte, the contents from its address on.
pub proof fn law_firmware_read_streams_the_image(
    f: FirmwareModel,
    a2: u8,
    a1: u8,
    a0: u8,
    fillers: Seq<u8>,
    filler: u8,
)
    requires
        f.wf(),
        f.idle(),
        fillers.len() <= FIRMWARE_BYTES,
    ensures
        f.clocked_all(flash_frame(0x03, a2, a1, a0, fillers)).response(filler) == f.data[(
        flash_address(a2, a1, a0) + fillers.len()) % 0x40000],
{
    let head = seq![0x03u8, a2, a1, a0];
    lemma_flash_head(f, 0x03, a2, a1, a0);
    lemma_flash_append(f, head, fillers);
    lemma_flash_bytes(f.clocked_all(head), fillers);
}

/// Bytes written in one transaction read back in a later one from the same
/// address on, and every other address reads as before.
pub proof fn law_firmware_transaction_reads_back(
    f: FirmwareModel,
    op: u8,
    a2: u8,
    a1: u8,
    a0: u8,
    d: Seq<u8>,
    b2: u8,
    b1: u8,
    b0: u8,
    fillers: Seq<u8>,
    filler: u8,
)
    requires
        f.wf(),
        f.idle(),
        op == 0x02 || op == 0x0A,
        d.len() <= FIRMWARE_BYTES,
        fillers.len() < FIRMWARE_BYTES,
    ensures
        ({
            let w = f.clocked_all(flash_frame(op, a2, a1, a0, d)).released();
            let at = flash_address(a2, a1, a0) as int;
            let k = flash_address(b2, b1, b0) + fillers.len();
            let answer = w.clocked_all(flash_frame(0x03, b2, b1, b0, fillers)).response(filler);
            let before = f.clocked_all(flash_frame(0x03, b2, b1, b0, fillers)).response(filler);
            &&& w.wf()
            &&& w.idle()
            &&& fillers.len() < d.len() && b2 == a2 && b1 == a1 && b0 == a0 ==> answer
                == d[fillers.len() as int]
            &&& (k - at) % 0x40000 < d.len() ==> answer == d[(k - at) % 0x40000]
            &&& (k - at) % 0x40000 >= d.len() ==> answer == before
        }),
{
    let w = f.clocked_all(flash_frame(op, a2, a1, a0, d)).released();
    let at = flash_address(a2, a1, a0) as int;
    let k = flash_address(b2, b1, b0) + fillers.len();
    lemma_flash_transaction(f, op, a2, a1, a0, d);
    law_firmware_read_streams_the_image(w, b2, b1, b0, fillers, filler);
    law_firmware_read_streams_the_image(f, b2, b1, b0, fillers, filler);
    vstd::arithmetic::div_mod::lemma_sub_mod_noop(k, at, 0x40000);
    if b2 == a2 && b1 == a1 && b0 == a0 {
        vstd::arithmetic::div_mod::lemma_small_mod(fillers.len(), 0x40000);
    }
}

proof fn lemma_flash_transaction(
    f: FirmwareModel,
    op: u8,
    a2: u8,
    a1: u8,
    a0: u8,
    d: Seq<u8>,
)
    requires
        f.wf(),
        f.idle(),
        op == 0x02 || op == 0x0A,
        d.len() <= FIRMWARE_BYTES,
    ensures
        ({
            let w = f.clocked_all(flash_frame(op, a2, a1, a0, d)).released();
            &&& w.wf()
            &&& w.idle()
            &&& w.data == flash_written(f.data, flash_address(a2, a1, a0) as int % 0x40000, d)
        }),
{
    let head = seq![op, a2, a1, a0];
    lemma_flash_head(f, op, a2, a1, a0);
    lemma_flash_append(f, head, d);
    lemma_flash_bytes(f.clocked_all(head), d);
}

/// A chip takes the next byte as a command once it is new or was released,
/// whatever it went through, and neither its contents nor its write latch change
/// by the release.
pub proof fn law_released_firmware_is_idle(f: FirmwareModel)
    ensures
        FirmwareModel::fresh().idle(),
        f.released().idle(),
        f.released().data == f.data,
        f.released().wel == f.wel,
{
}

/// A conversion of 12 bits crosses in two bytes, one bit late and high bits first; one
/// of 8 bits crosses in one byte, without the low four bits.
pub proof fn law_conversion_crosses_the_bus(t: TscModel, val: u8)
    requires
        t.wf(),
        t.state == TscState::ExpectData,
        t.byte_count == 0,
        t.result < 0x1000,
        val & 0x80 == 0,
    ensures
        !t.mode_8bit ==> t.response() * 0x100 + t.clocked(val).response() == 8 * t.result,
        t.mode_8bit ==> t.response() == t.result / 16,
{
    let r = t.result;
    assert(((r >> 5) & 0x7F) as u8 == r / 32 && ((r << 3) & 0xF8) as u8 == r % 32 * 8 && ((r >> 4)
        & 0xFF) as u8 == r / 16) by (bit_vector)
        requires
            r < 0x1000u16,
    ;
}

/// The control byte starts a conversion: bit 7, the channel in bits 4 to 6, and bit 3
/// for 8 bits. A touch gives a value that grows with the coordinate, rows on channel 1
/// and columns on channel 5; without a touch the columns read zero and the rows the
/// largest value.
pub proof fn law_control_byte_starts_a_conversion(t: TscModel, u: TscModel, ch: int, b8: int, c: u8)
    requires
        t.wf(),
        u.wf(),
        0 <= ch < 8,
        0 <= b8 < 2,
        c == 0x80 + 0x10 * ch + 8 * b8,
    ensures
        t.clocked(c).current_channel == ch,
        t.clocked(c).mode_8bit == (b8 == 1),
        t.clocked(c).state == TscState::ExpectData,
        ch == 1 && t.touch_pressed && u.touch_pressed && t.touch_y < u.touch_y < 192 ==> t.clocked(
            c,
        ).result < u.clocked(c).result,
        ch == 5 && t.touch_pressed && u.touch_pressed && t.touch_x < u.touch_x < 256 ==> t.clocked(
            c,
        ).result < u.clocked(c).result,
        ch == 5 && !t.touch_pressed ==> t.clocked(c).result == 0,
        ch == 1 && !t.touch_pressed ==> t.clocked(c).result == 0xFFF,
{
    let h = ch as u8;
    let l = b8 as u8;
    assert(c & 0x80 != 0 && (c >> 4) & 7 == h && ((c & 8) != 0) == (l == 1)) by (bit_vector)
        requires
            h < 8u8,
            l < 2u8,
            c == 0x80 + 0x10 * h + 8 * l,
    ;
}

/// The three address bytes of the flash spell the address, most significant first.
pub proof fn law_flash_address_bytes(a2: u8, a1: u8, a0: u8)
    ensures
        flash_address(a2, a1, a0) == 0x1_0000 * a2 + 0x100 * a1 + a0,
{
    assert((((((0u32 << 8) | a2 as u32) << 8) | a1 as u32) << 8) | a0 as u32 == 0x1_0000 * (
    a2 as u32) + 0x100 * (a1 as u32) + a0 as u32) by (bit_vector);
}

/// Bits 8 and 9 of the control register select the device that a byte goes to: power
/// management, flash, touch screen. The others keep their state.
pub proof fn law_bytes_reach_the_selected_device(s: SpiModel, d: int, b: u8)
    requires
        d == s.spicnt / 0x100 % 4,
    ensures
        d == 0 ==> s.exchanged(b).pmic == s.pmic.clocked(b) && s.exchanged(b).firmware == s.firmware
            && s.exchanged(b).tsc == s.tsc,
        d == 1 ==> s.exchanged(b).firmware == s.firmware.clocked(b) && s.exchanged(b).pmic == s.pmic
            && s.exchanged(b).tsc == s.tsc,
        d == 2 ==> s.exchanged(b).tsc == s.tsc.clocked(b) && s.exchanged(b).pmic == s.pmic
            && s.exchanged(b).firmware == s.firmware,
{
    let v = s.spicnt;
    assert((v >> 8) & 3 == v / 0x100 % 4) by (bit_vector);
}

} // verus!
