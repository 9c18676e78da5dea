//! Register writes that start no transfer.

use vstd::prelude::*;
use crate::bytes;
use crate::gx::{EngineModel, GxModel};
use crate::maths::MathsUnit;
use crate::mmu::census::IrqState;
use crate::mmu::{MmuModel, NdsMmu, IO_BYTES};
use crate::spi::SpiModel;

verus! {

/// Interrupt request: the geometry queue met its condition.
pub const IRQ_GXFIFO: u32 = 0x20_0000;

/// Interrupt request: a serial transfer is complete.
pub const IRQ_SPI: u32 = 0x80_0000;

/// Request bits after byte `k` of the request register was written: ones
/// acknowledge.
pub open spec fn acknowledged(iff: u32, k: int, val: u8) -> u32 {
    iff & !bytes::set_byte(0, k, val)
}

/// Display status after a write: only the interrupt enables and the top bit of
/// the line to match are writable.
pub open spec fn dispstat_low(old: u8, val: u8) -> u8 {
    (old & 0x47) | (val & 0xB8)
}

pub open spec fn is_ipc_reg(off: u32) -> bool {
    off == 0x180 || off == 0x181 || off == 0x184 || off == 0x185
}

pub open spec fn is_irq_reg(off: u32) -> bool {
    0x208 <= off <= 0x20B || 0x210 <= off <= 0x217
}

impl MmuModel {
    pub open spec fn with_irq(self, irq: IrqState) -> MmuModel {
        MmuModel { irq, ..self }
    }

    pub open spec fn with_spi(self, spi: SpiModel) -> MmuModel {
        MmuModel { spi, ..self }
    }

    /// Byte stored in a register block; past its end nothing is.
    pub open spec fn io_stored(self, arm9: bool, off: u32, val: u8) -> MmuModel {
        if off < IO_BYTES {
            self.with_io(arm9, self.io(arm9).update(off as int, val))
        } else {
            self
        }
    }

    /// The geometry queue is always empty, so a selected condition always holds.
    pub open spec fn gxfifo_raised(self) -> MmuModel {
        if self.io9[0x603] >= 0x40 {
            self.with_irq(self.irq.raised9(IRQ_GXFIFO))
        } else {
            self
        }
    }

    /// After a word reached the geometry decoder, whose new state is `g`. A swap
    /// that it committed is handed on at once.
    #[verifier::opaque]
    pub open spec fn gx_fed(self, g: GxModel) -> MmuModel {
        let w = self.gx_watch.noted(
            g.engine.zero_scale_count,
            g.engine.teximage,
            self.stores.pc,
            self.stores.lr,
        );
        let m = if g.engine.swap_pending {
            MmuModel {
                gx_watch: w.swapped(bytes::le16(self.io9[6], self.io9[7])),
                gx: GxModel { engine: g.engine.swapped(w.raster_enabled), ..g },
                has_3d: true,
                ..self
            }
        } else {
            MmuModel { gx_watch: w, gx: g, has_3d: true, ..self }
        };
        m.gxfifo_raised()
    }

    /// With the clear value of the 3D layer set.
    pub open spec fn with_clear_color(self, val: u32) -> MmuModel {
        MmuModel {
            gx: GxModel {
                engine: EngineModel { clear_px: crate::gx::clear_color(val), ..self.gx.engine },
                ..self.gx
            },
            ..self
        }
    }

    /// With the allocation of the shared memory set; a change gives addresses a
    /// new meaning, so compiled code is discarded.
    pub open spec fn with_wram_control(self, val: u8) -> MmuModel {
        MmuModel {
            code: if self.wram_control != val {
                self.code.invalidated()
            } else {
                self.code
            },
            wram_control: val,
            ..self
        }
    }

    /// After a write to a mapping register: the banks' and, between them, the
    /// shared memory's.
    pub open spec fn mapping_written(self, off: u32, val: u8) -> MmuModel {
        if off == 0x247 {
            self.with_wram_control(val)
        } else if off < 0x247 {
            MmuModel { vram: self.vram.with_control(off - 0x240, val), ..self }
        } else {
            MmuModel { vram: self.vram.with_control(off - 0x241, val), ..self }
        }
    }

    /// After a byte write to a register of the channel between the processors.
    /// A control write never carries the error latch along, which a one would
    /// clear.
    pub open spec fn ipc9_written(self, off: u32, val: u8) -> MmuModel {
        if off == 0x180 {
            self.sync9_written(bytes::le16(val, bytes::hi(self.ipc.sync9())))
        } else if off == 0x181 {
            self.sync9_written(bytes::le16(bytes::lo(self.ipc.sync9()), val))
        } else if off == 0x184 {
            self.cnt9_written(bytes::le16(val, bytes::hi(self.ipc.cnt9() & 0xBFFF)))
        } else {
            self.cnt9_written(bytes::le16(bytes::lo(self.ipc.cnt9() & 0xBFFF), val))
        }
    }

    /// After a byte write to an interrupt register.
    pub open spec fn irq9_written(self, off: u32, val: u8) -> MmuModel {
        if off <= 0x20B {
            self.with_irq(
                IrqState { arm9_ime: bytes::set_byte(self.irq.arm9_ime, off - 0x208, val), ..self.irq },
            )
        } else if off <= 0x213 {
            self.with_irq(
                IrqState { arm9_ie: bytes::set_byte(self.irq.arm9_ie, off - 0x210, val), ..self.irq },
            )
        } else {
            let m = self.with_irq(
                IrqState { arm9_if: acknowledged(self.irq.arm9_if, off - 0x214, val), ..self.irq },
            );
            if off == 0x216 { m.gxfifo_raised() } else { m }
        }
    }

    /// After a byte write to a register of the first processor that starts no
    /// transfer.
    #[verifier::opaque]
    pub open spec fn io9_written(self, off: u32, val: u8) -> MmuModel {
        if 0x100 <= off < 0x110 {
            MmuModel { timers9: self.timers9.with_byte((off - 0x100) as u32, val), ..self }
        } else if is_ipc_reg(off) {
            self.ipc9_written(off, val)
        } else if 0x240 <= off <= 0x249 {
            self.mapping_written(off, val)
        } else if is_irq_reg(off) {
            self.irq9_written(off, val)
        } else if off == 4 {
            self.io_stored(true, 4, dispstat_low(self.io9[4], val))
        } else if 0x400 <= off <= 0x5CB {
            MmuModel { has_3d: true, ..self.io_stored(true, off, val) }.gxfifo_raised()
        } else if 0x600 <= off <= 0x602 {
            self
        } else if off == 0x603 {
            self.io_stored(true, 0x603, (val / 64 * 64) as u8).gxfifo_raised()
        } else if MathsUnit::accepts(off) {
            MmuModel { maths: self.maths.with_byte(off, val), ..self }
        } else if 0x1A0 <= off <= 0x1A3 {
            let m = if off == 0x1A2 && self.stores.calib_on {
                MmuModel { aux: self.aux.logged(0, val), ..self }
            } else {
                self
            };
            m.aux_observed(true, off, val)
        } else {
            self.io_stored(true, off, val)
        }
    }

    /// After a byte write to a register of the channel between the processors.
    /// A control write never carries the error latch along, which a one would
    /// clear.
    pub open spec fn ipc7_written(self, off: u32, val: u8) -> MmuModel {
        if off == 0x180 {
            self.sync7_written(bytes::le16(val, bytes::hi(self.ipc.sync7())))
        } else if off == 0x181 {
            self.sync7_written(bytes::le16(bytes::lo(self.ipc.sync7()), val))
        } else if off == 0x184 {
            self.cnt7_written(bytes::le16(val, bytes::hi(self.ipc.cnt7() & 0xBFFF)))
        } else {
            self.cnt7_written(bytes::le16(bytes::lo(self.ipc.cnt7() & 0xBFFF), val))
        }
    }

    /// After a byte write to an interrupt register.
    pub open spec fn irq7_written(self, off: u32, val: u8) -> MmuModel {
        if off <= 0x20B {
            self.with_irq(
                IrqState { arm7_ime: bytes::set_byte(self.irq.arm7_ime, off - 0x208, val), ..self.irq },
            )
        } else if off <= 0x213 {
            self.with_irq(
                IrqState { arm7_ie: bytes::set_byte(self.irq.arm7_ie, off - 0x210, val), ..self.irq },
            )
        } else {
            self.with_irq(
                IrqState { arm7_if: acknowledged(self.irq.arm7_if, off - 0x214, val), ..self.irq },
            )
        }
    }

    /// After a byte was exchanged on the second processor's serial bus: the
    /// interrupt follows if the bus and its interrupt are enabled.
    pub open spec fn spi_exchanged(self, val: u16) -> MmuModel {
        let s = self.spi.with_data(val);
        let m = self.with_spi(s);
        if s.spicnt >= 0xC000 {
            m.with_irq(self.irq.raised7(IRQ_SPI))
        } else {
            m
        }
    }

    /// After a byte write to a register of the second processor that starts no
    /// transfer.
    #[verifier::opaque]
    pub open spec fn io7_written(self, off: u32, val: u8) -> MmuModel {
        if 0x100 <= off < 0x110 {
            MmuModel { timers7: self.timers7.with_byte((off - 0x100) as u32, val), ..self }
        } else if off == 0x138 {
            MmuModel { rtc: self.rtc.written(val), ..self }
        } else if off == 0x1C0 {
            self.with_spi(self.spi.with_cnt(bytes::le16(val, bytes::hi(self.spi.spicnt))))
        } else if off == 0x1C1 {
            self.with_spi(self.spi.with_cnt(bytes::le16(bytes::lo(self.spi.spicnt), val)))
        } else if off == 0x1C2 {
            self.spi_exchanged(val as u16)
        } else if off == 0x1C3 {
            self.spi_exchanged(bytes::le16(bytes::lo(self.spi.spidata), val))
        } else if is_ipc_reg(off) {
            self.ipc7_written(off, val)
        } else if is_irq_reg(off) {
            self.irq7_written(off, val)
        } else if off == 4 {
            self.io_stored(false, 4, dispstat_low(self.io7[4], val))
        } else if 0x400 <= off < 0x520 {
            self.sound_written(off, val)
        } else if 0x1A0 <= off <= 0x1A3 {
            self.aux_observed(false, off, val)
        } else if 0x1A4 <= off <= 0x1AF {
            MmuModel { aux: self.aux.card7(off == 0x1A7 && val >= 0x80), ..self }.io_stored(
                false,
                off,
                val,
            )
        } else {
            self.io_stored(false, off, val)
        }
    }
}

impl NdsMmu {
    /// Raises the geometry queue's interrupt while a condition is selected.
    pub fn maybe_raise_gxfifo_irq(&mut self)
        requires
            old(self)@.wf(),
        ensures
            final(self)@ == old(self)@.gxfifo_raised(),
            final(self)@.wf(),
    {
        if self.arm9_io[0x603] >= 0x40 {
            self.irq.raise9(IRQ_GXFIFO);
        }
    }

    fn note_gx_tex_watch(&mut self)
        requires
            old(self)@.wf(),
        ensures
            final(self)@ == (MmuModel {
                gx_watch: old(self)@.gx_watch.noted(
                    old(self)@.gx.engine.zero_scale_count,
                    old(self)@.gx.engine.teximage,
                    old(self)@.stores.pc,
                    old(self)@.stores.lr,
                ),
                ..old(self)@
            }),
            final(self)@.wf(),
    {
        let zeros: u32 = self.gx.zero_scale_count();
        let tex: u32 = self.gx.teximage();
        let pc: u32 = self.stores.pc();
        let lr: u32 = self.stores.lr();
        self.gx_watch.note(zeros, tex, pc, lr);
    }

    fn flush_gx_swap(&mut self)
        requires
            old(self)@.wf(),
        ensures
            final(self)@ == (if old(self)@.gx.engine.swap_pending {
                MmuModel {
                    gx_watch: old(self)@.gx_watch.swapped(
                        bytes::le16(old(self)@.io9[6], old(self)@.io9[7]),
                    ),
                    gx: GxModel {
                        engine: old(self)@.gx.engine.swapped(old(self)@.gx_watch.raster_enabled),
                        ..old(self)@.gx
                    },
                    ..old(self)@
                }
            } else {
                old(self)@
            }),
            final(self)@.wf(),
    {
        if self.gx.swap_pending() {
            let raster: bool = self.gx_watch.raster_enabled();
            self.gx_watch.swap(bytes::halfword(self.arm9_io[6], self.arm9_io[7]));
            self.gx.swap_buffers(raster);
        }
    }

    /// Feeds a word to the packed geometry window.
    pub fn feed_gx_fifo(&mut self, val: u32)
        requires
            old(self)@.wf(),
        ensures
            final(self)@ == old(self)@.gx_fed(old(self)@.gx.with_fifo_word(val)),
            final(self)@.wf(),
    {
        proof {
            reveal(MmuModel::gx_fed);
        }
        self.gx.push_fifo_word(val);
        self.note_gx_tex_watch();
        self.flush_gx_swap();
        self.has_3d_activity = true;
        self.maybe_raise_gxfifo_irq();
    }

    /// Feeds a word to a geometry command port.
    pub fn feed_gx_port(&mut self, cmd: u8, val: u32)
        requires
            old(self)@.wf(),
        ensures
            final(self)@ == old(self)@.gx_fed(old(self)@.gx.with_port_word(cmd, val)),
            final(self)@.wf(),
    {
        proof {
            reveal(MmuModel::gx_fed);
        }
        self.gx.push_port_word(cmd, val);
        self.note_gx_tex_watch();
        self.flush_gx_swap();
        self.has_3d_activity = true;
        self.maybe_raise_gxfifo_irq();
    }

    pub(crate) fn store_io9(&mut self, off: u32, val: u8)
        requires
            old(self)@.wf(),
        ensures
            final(self)@ == old(self)@.io_stored(true, off, val),
            final(self)@.wf(),
    {
        if (off as usize) < IO_BYTES {
            self.arm9_io[off as usize] = val;
        }
    }

    pub(crate) fn store_io7(&mut self, off: u32, val: u8)
        requires
            old(self)@.wf(),
        ensures
            final(self)@ == old(self)@.io_stored(false, off, val),
            final(self)@.wf(),
    {
        if (off as usize) < IO_BYTES {
            self.arm7_io[off as usize] = val;
        }
    }

    fn write_mapping(&mut self, off: u32, val: u8)
        requires
            old(self)@.wf(),
            0x240 <= off <= 0x249,
        ensures
            final(self)@ == old(self)@.mapping_written(off, val),
            final(self)@.wf(),
    {
        if off == 0x247 {
            if self.wram_control != val {
                self.code.invalidate_all();
            }
            self.wram_control = val;
        } else if off < 0x247 {
            self.vram.set_control((off - 0x240) as usize, val);
        } else {
            self.vram.set_control((off - 0x241) as usize, val);
        }
    }

    fn write_ipc9(&mut self, off: u32, val: u8)
        requires
            old(self)@.wf(),
            is_ipc_reg(off),
        ensures
            final(self)@ == old(self)@.ipc9_written(off, val),
            final(self)@.wf(),
    {
        if off == 0x180 {
            let cur: u16 = self.ipc.sync9();
            self.write_ipcsync_arm9(bytes::halfword(val, bytes::high_byte(cur)));
        } else if off == 0x181 {
            let cur: u16 = self.ipc.sync9();
            self.write_ipcsync_arm9(bytes::halfword(bytes::low_byte(cur), val));
        } else if off == 0x184 {
            let cur: u16 = self.ipc.cnt9() & 0xBFFF;
            self.write_ipc_fifo_cnt_arm9(bytes::halfword(val, bytes::high_byte(cur)));
        } else {
            let cur: u16 = self.ipc.cnt9() & 0xBFFF;
            self.write_ipc_fifo_cnt_arm9(bytes::halfword(bytes::low_byte(cur), val));
        }
    }

    fn write_irq9(&mut self, off: u32, val: u8)
        requires
            old(self)@.wf(),
            is_irq_reg(off),
        ensures
            final(self)@ == old(self)@.irq9_written(off, val),
            final(self)@.wf(),
    {
        if off <= 0x20B {
            self.irq.arm9_ime = bytes::put_byte(self.irq.arm9_ime, off - 0x208, val);
        } else if off <= 0x213 {
            self.irq.arm9_ie = bytes::put_byte(self.irq.arm9_ie, off - 0x210, val);
        } else {
            self.irq.arm9_if = self.irq.arm9_if & !bytes::put_byte(0, off - 0x214, val);
            if off == 0x216 {
                self.maybe_raise_gxfifo_irq();
            }
        }
    }

    /// Byte write to a register of the first processor that starts no transfer.
    pub fn write_io9(&mut self, off: u32, val: u8)
        requires
            old(self)@.wf(),
        ensures
            final(self)@ == old(self)@.io9_written(off, val),
            final(self)@.wf(),
    {
        proof {
            reveal(MmuModel::io9_written);
        }
        if off >= 0x100 && off < 0x110 {
            self.timers9.write_byte(off - 0x100, val);
            proof {
                self.timers9.lemma_wf();
            }
        } else if off == 0x180 || off == 0x181 || off == 0x184 || off == 0x185 {
            self.write_ipc9(off, val);
        } else if off >= 0x240 && off <= 0x249 {
            self.write_mapping(off, val);
        } else if (off >= 0x208 && off <= 0x20B) || (off >= 0x210 && off <= 0x217) {
            self.write_irq9(off, val);
        } else if off == 4 {
            self.arm9_io[4] = (self.arm9_io[4] & 0x47) | (val & 0xB8);
        } else if off >= 0x400 && off <= 0x5CB {
            self.store_io9(off, val);
            self.has_3d_activity = true;
            self.maybe_raise_gxfifo_irq();
        } else if off >= 0x600 && off <= 0x602 {
        } else if off == 0x603 {
            self.store_io9(0x603, val / 64 * 64);
            self.maybe_raise_gxfifo_irq();
        } else if off == 0x280 || off == 0x281 || (off >= 0x290 && off < 0x2A0) || off == 0x2B0
            || off == 0x2B1 || (off >= 0x2B8 && off < 0x2C0) {
            self.maths.write_byte(off, val);
        } else if off >= 0x1A0 && off <= 0x1A3 {
            if off == 0x1A2 && self.stores.calib_on() {
                self.aux.log(0, val);
            }
            self.write_aux_observed(true, off, val);
        } else {
            self.store_io9(off, val);
        }
    }

    fn write_ipc7(&mut self, off: u32, val: u8)
        requires
            old(self)@.wf(),
            is_ipc_reg(off),
        ensures
            final(self)@ == old(self)@.ipc7_written(off, val),
            final(self)@.wf(),
    {
        if off == 0x180 {
            let cur: u16 = self.ipc.sync7();
            self.write_ipcsync_arm7(bytes::halfword(val, bytes::high_byte(cur)));
        } else if off == 0x181 {
            let cur: u16 = self.ipc.sync7();
            self.write_ipcsync_arm7(bytes::halfword(bytes::low_byte(cur), val));
        } else if off == 0x184 {
            let cur: u16 = self.ipc.cnt7() & 0xBFFF;
            self.write_ipc_fifo_cnt_arm7(bytes::halfword(val, bytes::high_byte(cur)));
        } else {
            let cur: u16 = self.ipc.cnt7() & 0xBFFF;
            self.write_ipc_fifo_cnt_arm7(bytes::halfword(bytes::low_byte(cur), val));
        }
    }

    fn write_irq7(&mut self, off: u32, val: u8)
        requires
            old(self)@.wf(),
            is_irq_reg(off),
        ensures
            final(self)@ == old(self)@.irq7_written(off, val),
            final(self)@.wf(),
    {
        if off <= 0x20B {
            self.irq.arm7_ime = bytes::put_byte(self.irq.arm7_ime, off - 0x208, val);
        } else if off <= 0x213 {
            self.irq.arm7_ie = bytes::put_byte(self.irq.arm7_ie, off - 0x210, val);
        } else {
            self.irq.arm7_if = self.irq.arm7_if & !bytes::put_byte(0, off - 0x214, val);
        }
    }

    fn exchange_spi(&mut self, val: u16)
        requires
            old(self)@.wf(),
        ensures
            final(self)@ == old(self)@.spi_exchanged(val),
            final(self)@.wf(),
    {
        self.spi.write_spidata(val);
        if self.spi.read_spicnt() >= 0xC000 {
            self.irq.raise7(IRQ_SPI);
        }
    }

    /// Halfword write to the second processor's serial data register.
    pub fn write_spidata7(&mut self, val: u16)
        requires
            old(self)@.wf(),
        ensures
            final(self)@ == old(self)@.spi_exchanged(val),
            final(self)@.wf(),
    {
        self.exchange_spi(val);
    }

    /// Halfword write to the second processor's serial control register.
    pub fn write_spicnt7(&mut self, val: u16)
        requires
            old(self)@.wf(),
        ensures
            final(self)@ == old(self)@.with_spi(old(self)@.spi.with_cnt(val)),
            final(self)@.wf(),
    {
        self.spi.write_spicnt(val);
    }

    /// Byte write to a register of the second processor that starts no
    /// transfer.
    #[verifier::rlimit(40)]
    #[verifier::spinoff_prover]
    pub fn write_io7(&mut self, off: u32, val: u8)
        requires
            old(self)@.wf(),
        ensures
            final(self)@ == old(self)@.io7_written(off, val),
            final(self)@.wf(),
    {
        proof {
            reveal(MmuModel::io7_written);
        }
        if off >= 0x100 && off < 0x110 {
            self.timers7.write_byte(off - 0x100, val);
            proof {
                self.timers7.lemma_wf();
            }
        } else if off == 0x138 {
            self.rtc.write(val);
        } else if off == 0x1C0 {
            let cur: u16 = self.spi.read_spicnt();
            self.write_spicnt7(bytes::halfword(val, bytes::high_byte(cur)));
        } else if off == 0x1C1 {
            let cur: u16 = self.spi.read_spicnt();
            self.write_spicnt7(bytes::halfword(bytes::low_byte(cur), val));
        } else if off == 0x1C2 {
            self.exchange_spi(val as u16);
        } else if off == 0x1C3 {
            let cur: u16 = self.spi.read_spidata();
            self.exchange_spi(bytes::halfword(bytes::low_byte(cur), val));
        } else if off == 0x180 || off == 0x181 || off == 0x184 || off == 0x185 {
            self.write_ipc7(off, val);
        } else if (off >= 0x208 && off <= 0x20B) || (off >= 0x210 && off <= 0x217) {
            self.write_irq7(off, val);
        } else if off == 4 {
            self.arm7_io[4] = (self.arm7_io[4] & 0x47) | (val & 0xB8);
        } else if off >= 0x400 && off < 0x520 {
            self.apu_write_byte(off, val);
        } else if off >= 0x1A0 && off <= 0x1A3 {
            self.write_aux_observed(false, off, val);
        } else if off >= 0x1A4 && off <= 0x1AF {
            self.aux.card_write7(off == 0x1A7 && val >= 0x80);
            self.store_io7(off, val);
        } else {
            self.store_io7(off, val);
        }
    }
}

/// Writing the display status never touches its read-only bits, and the external
/// memory register is another register altogether.
pub proof fn law_dispstat_keeps_status_bits(m: MmuModel, val: u8, other: u8)
    requires
        m.wf(),
    ensures
        (m.io9_written(4, val).io9[4] & 0x47) == (m.io9[4] & 0x47),
        (m.io7_written(4, val).io7[4] & 0x47) == (m.io7[4] & 0x47),
        m.io9_written(0x204, other).io9[4] == m.io9[4],
        m.io7_written(0x204, other).io7[4] == m.io7[4],
{
    reveal(MmuModel::io9_written);
    reveal(MmuModel::io7_written);
    let a = m.io9[4];
    let b = m.io7[4];
    assert((((a & 0x47) | (val & 0xB8)) & 0x47) == (a & 0x47)) by (bit_vector);
    assert((((b & 0x47) | (val & 0xB8)) & 0x47) == (b & 0x47)) by (bit_vector);
}

} // verus!
