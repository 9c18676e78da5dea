//! The cartridge slot: the save chip on the auxiliary serial bus, and block
//! transfers of cartridge data.

use vstd::prelude::*;
use crate::bytes;
use crate::mmu::{GamecardState, MmuModel, NdsMmu};

verus! {

/// Interrupt request: a cartridge block is complete.
pub const IRQ_CARD_DONE: u32 = 0x8_0000;

/// Chip identification for a cartridge of `len` bytes: the maker, and the size
/// in steps of one mebibyte up to 128 of them, in larger steps beyond.
pub open spec fn chip_id(len: int) -> u32 {
    let n = len % 0x1_0000_0000;
    if 0x10_0000 <= n <= 0x800_0000 {
        (0xC2 + (n / 0x10_0000 - 1) * 0x100) as u32
    } else if n > 0x800_0000 {
        (0xC2 + (0x100 - n / 0x1000_0000) * 0x100) as u32
    } else {
        0xC2
    }
}

/// Bytes of a block by its size field.
pub open spec fn block_bytes(field: int) -> u32 {
    if field == 0 {
        0
    } else if field == 1 {
        0x200
    } else if field == 2 {
        0x400
    } else if field == 3 {
        0x800
    } else if field == 4 {
        0x1000
    } else if field == 5 {
        0x2000
    } else if field == 6 {
        0x4000
    } else {
        4
    }
}

/// Cartridge byte; the bus idles high past the end.
pub open spec fn rom_byte(rom: Seq<u8>, a: int) -> u8 {
    if a < rom.len() {
        rom[a]
    } else {
        0xFF
    }
}

impl MmuModel {
    pub open spec fn with_io(self, arm9: bool, io: Seq<u8>) -> MmuModel {
        if arm9 {
            MmuModel { io9: io, ..self }
        } else {
            MmuModel { io7: io, ..self }
        }
    }

    /// Whether the second processor owns the slot.
    pub open spec fn slot_owned_by_arm7(self) -> bool {
        self.io9[0x205] / 8 % 2 == 1
    }

    /// After chip select was dropped.
    pub open spec fn aux_ended(self, arm9: bool) -> MmuModel {
        MmuModel { aux: self.aux.ended(arm9), backup: self.backup.deselected(), ..self }
    }

    /// After a write to the serial bus. A data byte is always clocked while the
    /// slot is enabled and in serial mode, and chip select drops after it unless
    /// hold is set; a control write drops it only by disabling the slot.
    pub open spec fn aux_written(self, arm9: bool, off: u32, val: u8) -> MmuModel {
        if off == 0x1A0 || off == 0x1A1 {
            let m = self.with_io(arm9, self.io(arm9).update(off as int, val));
            if m.io(arm9)[0x1A1] < 0x80 {
                m.aux_ended(arm9)
            } else {
                m
            }
        } else if off == 0x1A2 {
            let lo = self.io(arm9)[0x1A0];
            let hi = self.io(arm9)[0x1A1];
            if hi < 0x80 || hi / 0x20 % 2 == 0 {
                self
            } else {
                let m = MmuModel {
                    aux: self.aux.exchanged(arm9, val, self.backup.response(val)),
                    backup: self.backup.clocked(val),
                    ..self
                };
                if lo / 0x40 % 2 == 0 {
                    m.aux_ended(arm9)
                } else {
                    m
                }
            }
        } else {
            self
        }
    }

    /// The same, observed by the bus log.
    pub open spec fn aux_observed(self, arm9: bool, off: u32, val: u8) -> MmuModel {
        MmuModel {
            aux: self.aux.noted(arm9, self.slot_owned_by_arm7(), off, val),
            ..self
        }.aux_written(arm9, off, val)
    }

    /// A word store to the control register writes its two bytes only: the data
    /// register beside it would clock a byte.
    #[verifier::opaque]
    pub open spec fn aux_word(self, arm9: bool, val: u32) -> MmuModel {
        self.aux_observed(arm9, 0x1A0, bytes::byte_of(val, 0)).aux_observed(
            arm9,
            0x1A1,
            bytes::byte_of(val, 1),
        )
    }

    /// After a block was started. An empty block is complete at once.
    #[verifier::opaque]
    pub open spec fn card_started(self) -> MmuModel {
        let n = block_bytes(self.io9[0x1A7] as int % 8);
        let cmd = self.io9[0x1A8];
        MmuModel {
            gamecard: if cmd == 0xB7 {
                GamecardState {
                    src: bytes::le32(
                        self.io9[0x1AC],
                        self.io9[0x1AB],
                        self.io9[0x1AA],
                        self.io9[0x1A9],
                    ),
                    bytes_left: n,
                    fill: None,
                }
            } else if cmd == 0x90 || cmd == 0xB8 {
                GamecardState {
                    src: 0,
                    bytes_left: n,
                    fill: Some(chip_id(self.rom.len() as int)),
                }
            } else {
                GamecardState { src: 0, bytes_left: n, fill: Some(0xFFFF_FFFFu32) }
            },
            io9: if n == 0 {
                card_idle(self.io9)
            } else {
                self.io9.update(0x1A6, (self.io9[0x1A6] % 0x80 + 0x80) as u8)
            },
            ..self
        }
    }

    /// Word at the data port, zero when no block is open.
    #[verifier::opaque]
    pub open spec fn card_word(self) -> u32 {
        if self.gamecard.bytes_left == 0 {
            0
        } else {
            match self.gamecard.fill {
                Some(w) => w,
                None => {
                    let a = self.gamecard.src as int;
                    bytes::le32(
                        rom_byte(self.rom, a),
                        rom_byte(self.rom, a + 1),
                        rom_byte(self.rom, a + 2),
                        rom_byte(self.rom, a + 3),
                    )
                },
            }
        }
    }

    /// After the data port was read. The last word of a block clears busy and
    /// ready, and raises the interrupt if it is enabled.
    #[verifier::opaque]
    pub open spec fn card_read(self) -> MmuModel {
        if self.gamecard.bytes_left == 0 {
            self
        } else {
            let left = if self.gamecard.bytes_left < 4 {
                0u32
            } else {
                (self.gamecard.bytes_left - 4) as u32
            };
            let m = MmuModel {
                gamecard: GamecardState {
                    src: self.gamecard.src.wrapping_add(4),
                    bytes_left: left,
                    ..self.gamecard
                },
                ..self
            };
            if left == 0 {
                MmuModel {
                    io9: card_idle(self.io9),
                    irq: if self.io9[0x1A1] / 0x40 % 2 == 1 {
                        self.irq.raised9(IRQ_CARD_DONE)
                    } else {
                        self.irq
                    },
                    ..m
                }
            } else {
                m
            }
        }
    }
}

/// Registers with busy and ready clear.
pub open spec fn card_idle(io: Seq<u8>) -> Seq<u8> {
    io.update(0x1A6, io[0x1A6] % 0x80).update(0x1A7, io[0x1A7] % 0x80)
}

impl NdsMmu {
    /// Whether the second processor owns the slot.
    pub fn slot_owned_by_arm7(&self) -> (b: bool)
        requires
            self@.wf(),
        ensures
            b == self@.slot_owned_by_arm7(),
    {
        self.arm9_io[0x205] / 8 % 2 == 1
    }

    fn aux_end_transaction(&mut self, arm9: bool)
        requires
            old(self)@.wf(),
        ensures
            final(self)@ == old(self)@.aux_ended(arm9),
            final(self)@.wf(),
    {
        self.aux.end(arm9);
        self.backup.deselect();
    }

    fn write_auxspi_byte(&mut self, arm9: bool, off: u32, val: u8)
        requires
            old(self)@.wf(),
        ensures
            final(self)@ == old(self)@.aux_written(arm9, off, val),
            final(self)@.wf(),
    {
        if off == 0x1A0 || off == 0x1A1 {
            let hi: u8 = if arm9 {
                self.arm9_io[off as usize] = val;
                self.arm9_io[0x1A1]
            } else {
                self.arm7_io[off as usize] = val;
                self.arm7_io[0x1A1]
            };
            if hi < 0x80 {
                self.aux_end_transaction(arm9);
            }
        } else if off == 0x1A2 {
            let lo: u8 = if arm9 {
                self.arm9_io[0x1A0]
            } else {
                self.arm7_io[0x1A0]
            };
            let hi: u8 = if arm9 {
                self.arm9_io[0x1A1]
            } else {
                self.arm7_io[0x1A1]
            };
            if hi < 0x80 || hi / 0x20 % 2 == 0 {
                return;
            }
            let out: u8 = self.backup.transfer(val);
            self.aux.exchange(arm9, val, out);
            if lo / 0x40 % 2 == 0 {
                self.aux_end_transaction(arm9);
            }
        }
    }

    /// Writes a register of the serial bus, on record.
    pub fn write_aux_observed(&mut self, arm9: bool, off: u32, val: u8)
        requires
            old(self)@.wf(),
        ensures
            final(self)@ == old(self)@.aux_observed(arm9, off, val),
            final(self)@.wf(),
    {
        let slot7: bool = self.slot_owned_by_arm7();
        self.aux.note(arm9, slot7, off, val);
        self.write_auxspi_byte(arm9, off, val);
    }

    /// Word store to the serial bus's control register.
    pub fn write_word_auxspicnt(&mut self, arm9: bool, val: u32)
        requires
            old(self)@.wf(),
        ensures
            final(self)@ == old(self)@.aux_word(arm9, val),
            final(self)@.wf(),
    {
        proof {
            reveal(MmuModel::aux_word);
        }
        self.write_aux_observed(arm9, 0x1A0, bytes::get_byte(val, 0));
        self.write_aux_observed(arm9, 0x1A1, bytes::get_byte(val, 1));
    }

    /// Chip identification for a cartridge of `rom_len` bytes.
    pub fn gamecard_chip_id_for_len(rom_len: usize) -> (id: u32)
        ensures
            id == chip_id(rom_len as int),
    {
        let n: u64 = rom_len as u64 % 0x1_0000_0000;
        let len: u32 = n as u32;
        if len >= 0x10_0000 && len <= 0x800_0000 {
            0xC2 + (len / 0x10_0000 - 1) * 0x100
        } else if len > 0x800_0000 {
            0xC2 + (0x100 - len / 0x1000_0000) * 0x100
        } else {
            0xC2
        }
    }

    /// Opens the block that the command and control registers describe.
    pub fn start_gamecard_block(&mut self)
        requires
            old(self)@.wf(),
        ensures
            final(self)@ == old(self)@.card_started(),
            final(self)@.wf(),
    {
        proof {
            reveal(MmuModel::card_started);
        }
        let field: u8 = self.arm9_io[0x1A7] % 8;
        let n: u32 = match field {
            0 => 0,
            1 => 0x200,
            2 => 0x400,
            3 => 0x800,
            4 => 0x1000,
            5 => 0x2000,
            6 => 0x4000,
            _ => 4,
        };
        let cmd: u8 = self.arm9_io[0x1A8];
        self.gamecard = if cmd == 0xB7 {
            GamecardState {
                src: bytes::word(
                    self.arm9_io[0x1AC],
                    self.arm9_io[0x1AB],
                    self.arm9_io[0x1AA],
                    self.arm9_io[0x1A9],
                ),
                bytes_left: n,
                fill: None,
            }
        } else if cmd == 0x90 || cmd == 0xB8 {
            GamecardState {
                src: 0,
                bytes_left: n,
                fill: Some(NdsMmu::gamecard_chip_id_for_len(self.rom.len())),
            }
        } else {
            GamecardState { src: 0, bytes_left: n, fill: Some(0xFFFF_FFFF) }
        };
        let ready: u8 = self.arm9_io[0x1A6] % 0x80;
        if n == 0 {
            self.arm9_io[0x1A6] = ready;
            self.arm9_io[0x1A7] = self.arm9_io[0x1A7] % 0x80;
        } else {
            self.arm9_io[0x1A6] = ready + 0x80;
        }
    }

    fn rom_at(&self, a: u32, k: u32) -> (b: u8)
        requires
            k < 4,
        ensures
            b == rom_byte(self@.rom, a + k),
    {
        let i: u64 = a as u64 + k as u64;
        if i < self.rom.len() as u64 {
            self.rom[i as usize]
        } else {
            0xFF
        }
    }

    /// Reads the data port: the next word of the open block.
    pub fn gamecard_read_data(&mut self) -> (w: u32)
        requires
            old(self)@.wf(),
        ensures
            w == old(self)@.card_word(),
            final(self)@ == old(self)@.card_read(),
            final(self)@.wf(),
    {
        proof {
            reveal(MmuModel::card_read);
            reveal(MmuModel::card_word);
        }
        if self.gamecard.bytes_left == 0 {
            return 0;
        }
        let a: u32 = self.gamecard.src;
        let w: u32 = match self.gamecard.fill {
            Some(w) => w,
            None => bytes::word(
                self.rom_at(a, 0),
                self.rom_at(a, 1),
                self.rom_at(a, 2),
                self.rom_at(a, 3),
            ),
        };
        self.gamecard.src = a.wrapping_add(4);
        self.gamecard.bytes_left = self.gamecard.bytes_left.saturating_sub(4);
        if self.gamecard.bytes_left == 0 {
            let ready: u8 = self.arm9_io[0x1A6] % 0x80;
            self.arm9_io[0x1A6] = ready;
            self.arm9_io[0x1A7] = self.arm9_io[0x1A7] % 0x80;
            if self.arm9_io[0x1A1] / 0x40 % 2 == 1 {
                self.irq.raise9(IRQ_CARD_DONE);
            }
        }
        w
    }
}

/// State after reading `n` words.
pub open spec fn card_reads(m: MmuModel, n: nat) -> MmuModel
    decreases n,
{
    if n == 0 {
        m
    } else {
        card_reads(m, (n - 1) as nat).card_read()
    }
}

/// A data block delivers consecutive cartridge words from the commanded offset
/// on, and is exactly as long as its size field says: word `k` is the one at
/// offset `4 k`, and after the last the slot is idle.
pub proof fn law_block_streams_the_cartridge(m: MmuModel, k: nat)
    requires
        m.wf(),
        m.gamecard.fill is None,
        m.gamecard.bytes_left % 4 == 0,
        m.gamecard.src + m.gamecard.bytes_left <= u32::MAX,
        4 * k <= m.gamecard.bytes_left,
    ensures
        card_reads(m, k).gamecard.src == m.gamecard.src + 4 * k,
        card_reads(m, k).gamecard.bytes_left == m.gamecard.bytes_left - 4 * k,
        card_reads(m, k).gamecard.fill is None,
        card_reads(m, k).rom == m.rom,
        card_reads(m, k).io9.len() == m.io9.len(),
        4 * k < m.gamecard.bytes_left ==> card_reads(m, k).card_word() == bytes::le32(
            rom_byte(m.rom, m.gamecard.src + 4 * k),
            rom_byte(m.rom, m.gamecard.src + 4 * k + 1),
            rom_byte(m.rom, m.gamecard.src + 4 * k + 2),
            rom_byte(m.rom, m.gamecard.src + 4 * k + 3),
        ),
        4 * k == m.gamecard.bytes_left && k > 0 ==> card_reads(m, k).io9[0x1A7] < 0x80 && card_reads(
            m,
            k,
        ).io9[0x1A6] < 0x80,
    decreases k,
{
    reveal(MmuModel::card_read);
    reveal(MmuModel::card_word);
    if k > 0 {
        law_block_streams_the_cartridge(m, (k - 1) as nat);
    }
}

/// Reading the port with no block open changes nothing and delivers zero.
pub proof fn law_idle_port_is_inert(m: MmuModel)
    requires
        m.gamecard.bytes_left == 0,
    ensures
        m.card_read() == m,
        m.card_word() == 0,
{
    reveal(MmuModel::card_read);
    reveal(MmuModel::card_word);
}

/// A word store to the control register never clocks the save chip.
pub proof fn law_control_word_clocks_nothing(m: MmuModel, arm9: bool, val: u32)
    ensures
        m.aux_word(arm9, val).backup.data == m.backup.data,
        m.aux_word(arm9, val).backup.last_out == m.backup.last_out,
        m.aux_word(arm9, val).aux.io_log == m.aux.io_log,
{
    reveal(MmuModel::aux_word);
}

/// Without a chip the data register reads the floating line, whatever was
/// written.
pub proof fn law_absent_chip_reads_high(m: MmuModel, arm9: bool, val: u8)
    requires
        !m.backup.present(),
    ensures
        m.aux_written(arm9, 0x1A2, val).aux_byte(arm9, 0x1A2) == 0xFF,
{
}

/// A read command names the first byte with the address behind the command byte,
/// most significant byte first, and the size field asks for 0x100 bytes shifted left
/// by it; fields 0 and 7 ask for nothing and for one word. While the block is open
/// the slot says that a word is ready.
pub proof fn law_read_command_opens_the_block(m: MmuModel, addr: int, f: nat)
    requires
        m.wf(),
        m.io9[0x1A8] == 0xB7,
        addr == m.io9[0x1A9] * 0x100_0000 + m.io9[0x1AA] * 0x1_0000 + m.io9[0x1AB] * 0x100
            + m.io9[0x1AC],
        m.io9[0x1A7] % 8 == f,
    ensures
        m.card_started().gamecard.src == addr,
        m.card_started().gamecard.fill is None,
        1 <= f <= 6 ==> m.card_started().gamecard.bytes_left == 0x100
            * vstd::arithmetic::power2::pow2(f),
        f == 7 ==> m.card_started().gamecard.bytes_left == 4,
        f == 0 ==> m.card_started().gamecard.bytes_left == 0 && m.card_started().io9[0x1A7] < 0x80,
        f > 0 ==> m.card_started().io9[0x1A6] >= 0x80 && m.card_started().io9[0x1A7] == m.io9[0x1A7],
{
    reveal(MmuModel::card_started);
    vstd::arithmetic::power2::lemma2_to64();
}

/// The other commands answer one word over and over: the chip's identity for the two
/// that ask for it, and ones for all that are not known.
pub proof fn law_other_commands_repeat_a_word(m: MmuModel)
    requires
        m.wf(),
        m.io9[0x1A8] != 0xB7,
        m.io9[0x1A7] % 8 != 0,
    ensures
        m.card_started().card_word() == (if m.io9[0x1A8] == 0x90 || m.io9[0x1A8] == 0xB8 {
            chip_id(m.rom.len() as int)
        } else {
            0xFFFF_FFFF
        }),
{
    reveal(MmuModel::card_started);
    reveal(MmuModel::card_word);
}

/// The identity names the maker in its lowest byte, and above it, for cartridges of
/// up to 128 MiB, their size in mebibytes less one.
pub proof fn law_chip_identity(len: int, mib: int)
    requires
        1 <= mib <= 128,
        len == mib * 0x10_0000,
    ensures
        chip_id(len) % 0x100 == 0xC2,
        chip_id(len) / 0x100 == mib - 1,
{
}

} // verus!
