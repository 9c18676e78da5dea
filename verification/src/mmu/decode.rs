//! Address decoding and loads.
//!
//! A load decodes its address to a place in plain memory, or to a register or a
//! byte of video memory. Loads have no side effects here: the ports that do are
//! served by the bus adapters.

use vstd::prelude::*;
use crate::bytes;
use crate::maths::MathsUnit;
use crate::mmu::code;
use crate::mmu::memory::Spot;
use crate::mmu::{MmuModel, NdsMmu, IO_BYTES};
use crate::tcm;
use crate::vram::{VramManager, VramModel};

verus! {

/// Index in the shared memory of an offset in the first processor's window. The
/// allocation modes take memory away from it as they rise: everything, the upper
/// half, the lower half, nothing.
pub open spec fn shared9_index(mode: int, offset: int) -> Option<usize> {
    if mode == 0 {
        Some((offset % 0x4_0000) as usize)
    } else if mode == 1 && 0x4_0000 <= offset < 0x6_0000 {
        Some((offset - 0x2_0000) as usize)
    } else if mode == 2 && offset < 0x2_0000 {
        Some(offset as usize)
    } else {
        None
    }
}

/// Place of an offset in the second processor's window: the part of the shared
/// memory that the mode leaves to it, or, when that is none, its own memory.
pub open spec fn shared7_spot(mode: int, offset: int) -> Spot {
    if mode == 3 {
        Spot::Shared((offset % 0x4_0000) as usize)
    } else if mode == 2 {
        Spot::Shared((0x2_0000 + offset % 0x2_0000) as usize)
    } else if mode == 1 {
        Spot::Shared((offset % 0x2_0000) as usize)
    } else {
        Spot::Wram7((offset % 0x1_0000) as usize)
    }
}

/// Byte of video memory at an offset of the first processor's region.
pub open spec fn vram9_slot(v: VramModel, off: u32) -> Option<(int, int)> {
    if off < 0x20_0000 {
        v.bg_a_slot(off)
    } else if off < 0x40_0000 {
        v.bg_b_slot((off - 0x20_0000) as u32)
    } else if off < 0x60_0000 {
        v.obj_a_slot((off - 0x40_0000) as u32)
    } else if off < 0x80_0000 {
        v.obj_b_slot((off - 0x60_0000) as u32)
    } else if off < 0x8A_4000 {
        v.lcdc_slot((off - 0x80_0000) as u32)
    } else {
        None
    }
}

impl MmuModel {
    pub open spec fn itcm_index(self, addr: u32) -> int {
        addr.wrapping_sub(tcm::region_base(self.cp15.itcm_control)) as int % 0x8000
    }

    pub open spec fn dtcm_index(self, addr: u32) -> int {
        addr.wrapping_sub(tcm::region_base(self.cp15.dtcm_control)) as int % 0x4000
    }

    /// Place in plain memory of an address of the first processor.
    #[verifier::opaque]
    pub open spec fn spot9(self, addr: u32) -> Option<Spot> {
        let region = addr / 0x100_0000;
        let off = addr as int % 0x100_0000;
        if self.cp15.in_itcm(addr) {
            Some(Spot::Itcm(self.itcm_index(addr) as usize))
        } else if self.cp15.in_dtcm(addr) {
            Some(Spot::Dtcm(self.dtcm_index(addr) as usize))
        } else if region == 0x00 || region == 0xFF {
            Some(Spot::Bios9((off % 0x4000) as usize))
        } else if region == 0x02 {
            if 0x40_0000 <= off < 0x48_0000 {
                match shared9_index(self.wram_control as int % 4, off - 0x40_0000) {
                    Some(i) => Some(Spot::Shared(i)),
                    None => None,
                }
            } else {
                Some(Spot::Main((off % 0x40_0000) as usize))
            }
        } else if region == 0x05 {
            Some(Spot::Palette((off % 0x1000) as usize))
        } else if region == 0x07 {
            Some(Spot::Oam((off % 0x800) as usize))
        } else {
            None
        }
    }

    /// Place in plain memory of an address of the second processor.
    #[verifier::opaque]
    pub open spec fn spot7(self, addr: u32) -> Option<Spot> {
        let region = addr / 0x100_0000;
        let off = addr as int % 0x100_0000;
        if region == 0x00 {
            Some(Spot::Bios7((off % 0x4000) as usize))
        } else if region == 0x02 {
            Some(Spot::Main((off % 0x40_0000) as usize))
        } else if region == 0x03 {
            if off < 0x80_0000 {
                Some(shared7_spot(self.wram_control as int % 4, off))
            } else {
                Some(Spot::Wram7((off % 0x1_0000) as usize))
            }
        } else {
            None
        }
    }

    /// Tracked page of an address of the first processor. The window on the
    /// shared memory is not tracked from this side.
    pub open spec fn page9(self, addr: u32) -> Option<int> {
        match self.spot9(addr) {
            Some(s) => if s is Shared {
                None
            } else {
                code::page_of(s)
            },
            None => None,
        }
    }

    /// Tracked page of an address of the second processor.
    pub open spec fn page7(self, addr: u32) -> Option<int> {
        match self.spot7(addr) {
            Some(s) => code::page_of(s),
            None => None,
        }
    }

    /// Register block of a processor.
    pub open spec fn io(self, arm9: bool) -> Seq<u8> {
        if arm9 {
            self.io9
        } else {
            self.io7
        }
    }

    /// Byte read of the auxiliary serial bus. A transfer is never busy; without
    /// a chip the data line floats high.
    pub open spec fn aux_byte(self, arm9: bool, off: u32) -> u8 {
        if off == 0x1A0 {
            self.io(arm9)[0x1A0] % 0x80
        } else if off == 0x1A1 {
            self.io(arm9)[0x1A1]
        } else if off == 0x1A2 {
            if self.backup.present() {
                self.backup.last_out
            } else {
                0xFF
            }
        } else {
            0
        }
    }

    /// Byte read of a register of the first processor.
    #[verifier::opaque]
    pub open spec fn io9_byte(self, off: u32) -> u8 {
        if 0x100 <= off < 0x110 {
            self.timers9.byte((off - 0x100) as u32)
        } else if 0x1A0 <= off <= 0x1A3 {
            self.aux_byte(true, off)
        } else if MathsUnit::answers(off) {
            self.maths.byte(off)
        } else if off == 0x130 {
            bytes::lo(self.buttons.spec_keyinput())
        } else if off == 0x131 {
            bytes::hi(self.buttons.spec_keyinput())
        } else if off == 0x180 {
            bytes::lo(self.ipc.sync9())
        } else if off == 0x181 {
            bytes::hi(self.ipc.sync9())
        } else if off == 0x184 {
            bytes::lo(self.ipc.cnt9())
        } else if off == 0x185 {
            bytes::hi(self.ipc.cnt9())
        } else if 0x240 <= off <= 0x246 {
            self.vram.banks[off - 0x240].control
        } else if off == 0x247 {
            self.wram_control
        } else if 0x248 <= off <= 0x249 {
            self.vram.banks[off - 0x241].control
        } else if 0x208 <= off <= 0x20B {
            bytes::byte_of(self.irq.arm9_ime, off - 0x208)
        } else if 0x210 <= off <= 0x213 {
            bytes::byte_of(self.irq.arm9_ie, off - 0x210)
        } else if 0x214 <= off <= 0x217 {
            bytes::byte_of(self.irq.arm9_if, off - 0x214)
        } else if 0x600 <= off <= 0x603 {
            self.gxstat_byte(off - 0x600)
        } else if 0x640 <= off < 0x680 {
            bytes::byte_of(self.gx.engine.clipmtx[(off - 0x640) / 4], (off - 0x640) % 4)
        } else if 0x680 <= off < 0x6A4 {
            bytes::byte_of(self.gx.engine.vecmtx[(off - 0x680) / 4], (off - 0x680) % 4)
        } else if off < IO_BYTES {
            self.io9[off as int]
        } else {
            0
        }
    }

    /// Geometry status: the box test always answers inside, the queue is always
    /// empty, the engine is never busy and the stack never in error; only the
    /// selected queue-interrupt condition reads back.
    pub open spec fn gxstat_byte(self, k: int) -> u8 {
        if k == 0 {
            0x02
        } else if k == 3 {
            (0x06 + self.io9[0x603] / 64 * 64) as u8
        } else {
            0
        }
    }

    /// Byte read of a register of the second processor.
    #[verifier::opaque]
    pub open spec fn io7_byte(self, off: u32) -> u8 {
        if 0x100 <= off < 0x110 {
            self.timers7.byte((off - 0x100) as u32)
        } else if off == 0x138 {
            self.rtc.pins()
        } else if 0x400 <= off < 0x520 {
            self.apu.reg(off)
        } else if off == 0x130 {
            bytes::lo(self.buttons.spec_keyinput())
        } else if off == 0x131 {
            bytes::hi(self.buttons.spec_keyinput())
        } else if off == 0x136 {
            bytes::lo(self.buttons.spec_extkeyin())
        } else if off == 0x137 {
            bytes::hi(self.buttons.spec_extkeyin())
        } else if off == 0x180 {
            bytes::lo(self.ipc.sync7())
        } else if off == 0x181 {
            bytes::hi(self.ipc.sync7())
        } else if off == 0x184 {
            bytes::lo(self.ipc.cnt7())
        } else if off == 0x185 {
            bytes::hi(self.ipc.cnt7())
        } else if 0x1A0 <= off <= 0x1A3 {
            self.aux_byte(false, off)
        } else if off == 0x1C0 {
            bytes::lo(self.spi.spicnt)
        } else if off == 0x1C1 {
            bytes::hi(self.spi.spicnt)
        } else if off == 0x1C2 {
            bytes::lo(self.spi.spidata)
        } else if off == 0x1C3 {
            bytes::hi(self.spi.spidata)
        } else if 0x208 <= off <= 0x20B {
            bytes::byte_of(self.irq.arm7_ime, off - 0x208)
        } else if 0x210 <= off <= 0x213 {
            bytes::byte_of(self.irq.arm7_ie, off - 0x210)
        } else if 0x214 <= off <= 0x217 {
            bytes::byte_of(self.irq.arm7_if, off - 0x214)
        } else if off == 0x241 {
            self.wram_control
        } else if off < IO_BYTES {
            self.io7[off as int]
        } else {
            0
        }
    }

    /// Byte that the first processor loads.
    #[verifier::opaque]
    pub open spec fn byte9(self, addr: u32) -> u8 {
        match self.spot9(addr) {
            Some(s) => self.ram.byte(s),
            None => if addr / 0x100_0000 == 0x04 {
                self.io9_byte(addr % 0x100_0000)
            } else if addr / 0x100_0000 == 0x06 {
                self.vram.byte_at(vram9_slot(self.vram, addr % 0x100_0000))
            } else {
                0
            },
        }
    }

    /// Byte that the second processor loads.
    #[verifier::opaque]
    pub open spec fn byte7(self, addr: u32) -> u8 {
        match self.spot7(addr) {
            Some(s) => self.ram.byte(s),
            None => if addr / 0x100_0000 == 0x04 {
                self.io7_byte(addr % 0x100_0000)
            } else if addr / 0x100_0000 == 0x06 {
                self.vram.byte_at(self.vram.arm7_slot(addr % 0x100_0000))
            } else {
                0
            },
        }
    }

    /// Start of `n` bytes that lie together in plain memory, as the first
    /// processor sees them: they stay in one window and enter no other.
    #[verifier::opaque]
    pub open spec fn run9(self, addr: u32, n: int) -> Option<Spot> {
        let off = addr as int % 0x100_0000;
        let itcm = self.cp15.itcm_window();
        let dtcm = self.cp15.dtcm_window();
        if self.cp15.in_itcm(addr) {
            if self.itcm_index(addr) + n <= 0x8000 && itcm.spans(addr, n) {
                Some(Spot::Itcm(self.itcm_index(addr) as usize))
            } else {
                None
            }
        } else if self.cp15.in_dtcm(addr) {
            if self.dtcm_index(addr) + n <= 0x4000 && dtcm.spans(addr, n) && !itcm.begins(addr, n) {
                Some(Spot::Dtcm(self.dtcm_index(addr) as usize))
            } else {
                None
            }
        } else if addr / 0x100_0000 == 0x02 && off + n <= 0x40_0000 && !itcm.begins(addr, n)
            && !dtcm.begins(addr, n) {
            Some(Spot::Main(off as usize))
        } else {
            None
        }
    }

    /// Start of `n` bytes that lie together in plain memory, as the second
    /// processor sees them. Shared memory is left to byte accesses.
    #[verifier::opaque]
    pub open spec fn run7(self, addr: u32, n: int) -> Option<Spot> {
        let off = addr as int % 0x100_0000;
        if addr / 0x100_0000 == 0x02 && off % 0x40_0000 + n <= 0x40_0000 {
            Some(Spot::Main((off % 0x40_0000) as usize))
        } else if addr / 0x100_0000 == 0x03 && off >= 0x80_0000 && off % 0x1_0000 + n <= 0x1_0000 {
            Some(Spot::Wram7((off % 0x1_0000) as usize))
        } else {
            None
        }
    }

    #[verifier::opaque]
    pub open spec fn halfword9(self, addr: u32) -> u16 {
        match self.run9(addr, 2) {
            Some(s) => self.ram.halfword(s),
            None => bytes::le16(self.byte9(addr), self.byte9(addr.wrapping_add(1))),
        }
    }

    #[verifier::opaque]
    pub open spec fn word9(self, addr: u32) -> u32 {
        match self.run9(addr, 4) {
            Some(s) => self.ram.word(s),
            None => bytes::le32(
                self.byte9(addr),
                self.byte9(addr.wrapping_add(1)),
                self.byte9(addr.wrapping_add(2)),
                self.byte9(addr.wrapping_add(3)),
            ),
        }
    }

    #[verifier::opaque]
    pub open spec fn halfword7(self, addr: u32) -> u16 {
        bytes::le16(self.byte7(addr), self.byte7(addr.wrapping_add(1)))
    }

    #[verifier::opaque]
    pub open spec fn word7(self, addr: u32) -> u32 {
        bytes::le32(
            self.byte7(addr),
            self.byte7(addr.wrapping_add(1)),
            self.byte7(addr.wrapping_add(2)),
            self.byte7(addr.wrapping_add(3)),
        )
    }
}

fn read_vram9(v: &VramManager, off: u32) -> (b: u8)
    requires
        v@.wf(),
    ensures
        b == v@.byte_at(vram9_slot(v@, off)),
{
    if off < 0x20_0000 {
        v.read_bg_a(off)
    } else if off < 0x40_0000 {
        v.read_bg_b(off - 0x20_0000)
    } else if off < 0x60_0000 {
        v.read_obj_a(off - 0x40_0000)
    } else if off < 0x80_0000 {
        v.read_obj_b(off - 0x60_0000)
    } else if off < 0x8A_4000 {
        v.read_lcdc(off - 0x80_0000)
    } else {
        0
    }
}

impl NdsMmu {
    /// Place in plain memory of an address of the first processor.
    pub fn spot_arm9(&self, addr: u32) -> (r: Option<Spot>)
        ensures
            r == self@.spot9(addr),
            r is Some ==> r->0.index() < r->0.limit(),
    {
        proof {
            reveal(MmuModel::spot9);
        }
        let region: u32 = addr / 0x100_0000;
        let off: u32 = addr % 0x100_0000;
        if self.in_itcm_arm9(addr) {
            return Some(Spot::Itcm((addr.wrapping_sub(self.itcm_base()) % 0x8000) as usize));
        }
        if self.in_dtcm_arm9(addr) {
            return Some(Spot::Dtcm((addr.wrapping_sub(self.dtcm_base()) % 0x4000) as usize));
        }
        if region == 0x00 || region == 0xFF {
            Some(Spot::Bios9((off % 0x4000) as usize))
        } else if region == 0x02 {
            if off >= 0x40_0000 && off < 0x48_0000 {
                let mode: u8 = self.wram_control % 4;
                let o: u32 = off - 0x40_0000;
                if mode == 0 {
                    Some(Spot::Shared((o % 0x4_0000) as usize))
                } else if mode == 1 && o >= 0x4_0000 && o < 0x6_0000 {
                    Some(Spot::Shared((o - 0x2_0000) as usize))
                } else if mode == 2 && o < 0x2_0000 {
                    Some(Spot::Shared(o as usize))
                } else {
                    None
                }
            } else {
                Some(Spot::Main((off % 0x40_0000) as usize))
            }
        } else if region == 0x05 {
            Some(Spot::Palette((off % 0x1000) as usize))
        } else if region == 0x07 {
            Some(Spot::Oam((off % 0x800) as usize))
        } else {
            None
        }
    }

    /// Place in plain memory of an address of the second processor.
    pub fn spot_arm7(&self, addr: u32) -> (r: Option<Spot>)
        ensures
            r == self@.spot7(addr),
            r is Some ==> r->0.index() < r->0.limit(),
    {
        proof {
            reveal(MmuModel::spot7);
        }
        let region: u32 = addr / 0x100_0000;
        let off: u32 = addr % 0x100_0000;
        if region == 0x00 {
            Some(Spot::Bios7((off % 0x4000) as usize))
        } else if region == 0x02 {
            Some(Spot::Main((off % 0x40_0000) as usize))
        } else if region == 0x03 {
            let mode: u8 = self.wram_control % 4;
            if off >= 0x80_0000 || mode == 0 {
                Some(Spot::Wram7((off % 0x1_0000) as usize))
            } else if mode == 3 {
                Some(Spot::Shared((off % 0x4_0000) as usize))
            } else if mode == 2 {
                Some(Spot::Shared((0x2_0000 + off % 0x2_0000) as usize))
            } else {
                Some(Spot::Shared((off % 0x2_0000) as usize))
            }
        } else {
            None
        }
    }

    fn page(s: Spot) -> (p: Option<usize>)
        requires
            s.index() < s.limit(),
        ensures
            match p {
                Some(i) => code::page_of(s) == Some(i as int),
                None => code::page_of(s) is None,
            },
    {
        match s {
            Spot::Main(i) => Some(i / code::CODE_PAGE_BYTES),
            Spot::Itcm(i) => Some(code::CODE_BASE_ITCM + i / code::CODE_PAGE_BYTES),
            Spot::Wram7(i) => Some(code::CODE_BASE_WRAM7 + i / code::CODE_PAGE_BYTES),
            Spot::Bios9(i) => Some(code::CODE_BASE_BIOS9 + i / code::CODE_PAGE_BYTES),
            Spot::Bios7(i) => Some(code::CODE_BASE_BIOS7 + i / code::CODE_PAGE_BYTES),
            Spot::Shared(i) => Some(code::CODE_BASE_SHARED + i / code::CODE_PAGE_BYTES),
            _ => None,
        }
    }

    /// Tracked page that holds an address of the first processor.
    pub fn code_page_arm9(&self, addr: u32) -> (p: Option<usize>)
        ensures
            match p {
                Some(i) => self@.page9(addr) == Some(i as int),
                None => self@.page9(addr) is None,
            },
    {
        match self.spot_arm9(addr) {
            Some(s) => match s {
                Spot::Shared(_i) => None,
                _ => NdsMmu::page(s),
            },
            None => None,
        }
    }

    /// Tracked page that holds an address of the second processor.
    pub fn code_page_arm7(&self, addr: u32) -> (p: Option<usize>)
        ensures
            match p {
                Some(i) => self@.page7(addr) == Some(i as int),
                None => self@.page7(addr) is None,
            },
    {
        match self.spot_arm7(addr) {
            Some(s) => NdsMmu::page(s),
            None => None,
        }
    }

    fn read_auxspi_byte(&self, arm9: bool, off: u32) -> (b: u8)
        requires
            self@.wf(),
        ensures
            b == self@.aux_byte(arm9, off),
    {
        if off == 0x1A0 {
            (if arm9 {
                self.arm9_io[0x1A0]
            } else {
                self.arm7_io[0x1A0]
            }) % 0x80
        } else if off == 0x1A1 {
            if arm9 {
                self.arm9_io[0x1A1]
            } else {
                self.arm7_io[0x1A1]
            }
        } else if off == 0x1A2 {
            if self.backup.is_present() {
                self.backup.last_output()
            } else {
                0xFF
            }
        } else {
            0
        }
    }

    fn read_io9(&self, off: u32) -> (b: u8)
        requires
            self@.wf(),
        ensures
            b == self@.io9_byte(off),
    {
        proof {
            reveal(MmuModel::io9_byte);
        }
        if off >= 0x100 && off < 0x110 {
            self.timers9.read_byte(off - 0x100)
        } else if off >= 0x1A0 && off <= 0x1A3 {
            self.read_auxspi_byte(true, off)
        } else if off == 0x280 || off == 0x281 || (off >= 0x290 && off < 0x2B2) || (off >= 0x2B4
            && off < 0x2C0) {
            self.maths.read_byte(off)
        } else if off == 0x130 {
            bytes::low_byte(self.get_keyinput())
        } else if off == 0x131 {
            bytes::high_byte(self.get_keyinput())
        } else if off == 0x180 {
            bytes::low_byte(self.ipc.sync9())
        } else if off == 0x181 {
            bytes::high_byte(self.ipc.sync9())
        } else if off == 0x184 {
            bytes::low_byte(self.ipc.cnt9())
        } else if off == 0x185 {
            bytes::high_byte(self.ipc.cnt9())
        } else if off >= 0x240 && off <= 0x246 {
            self.vram.banks[(off - 0x240) as usize].control
        } else if off == 0x247 {
            self.wram_control
        } else if off >= 0x248 && off <= 0x249 {
            self.vram.banks[(off - 0x241) as usize].control
        } else if off >= 0x208 && off <= 0x20B {
            bytes::get_byte(self.irq.arm9_ime, off - 0x208)
        } else if off >= 0x210 && off <= 0x213 {
            bytes::get_byte(self.irq.arm9_ie, off - 0x210)
        } else if off >= 0x214 && off <= 0x217 {
            bytes::get_byte(self.irq.arm9_if, off - 0x214)
        } else if off == 0x600 {
            0x02
        } else if off == 0x603 {
            0x06 + self.arm9_io[0x603] / 64 * 64
        } else if off == 0x601 || off == 0x602 {
            0
        } else if off >= 0x640 && off < 0x680 {
            bytes::get_byte(self.gx.clipmtx_word(((off - 0x640) / 4) as usize), (off - 0x640) % 4)
        } else if off >= 0x680 && off < 0x6A4 {
            bytes::get_byte(self.gx.vecmtx_word(((off - 0x680) / 4) as usize), (off - 0x680) % 4)
        } else if (off as usize) < IO_BYTES {
            self.arm9_io[off as usize]
        } else {
            0
        }
    }

    fn read_io7(&self, off: u32) -> (b: u8)
        requires
            self@.wf(),
        ensures
            b == self@.io7_byte(off),
    {
        proof {
            reveal(MmuModel::io7_byte);
        }
        if off >= 0x100 && off < 0x110 {
            self.timers7.read_byte(off - 0x100)
        } else if off == 0x138 {
            self.rtc.read()
        } else if off >= 0x400 && off < 0x520 {
            self.apu.read_reg(off)
        } else if off == 0x130 {
            bytes::low_byte(self.get_keyinput())
        } else if off == 0x131 {
            bytes::high_byte(self.get_keyinput())
        } else if off == 0x136 {
            bytes::low_byte(self.get_extkeyin())
        } else if off == 0x137 {
            bytes::high_byte(self.get_extkeyin())
        } else if off == 0x180 {
            bytes::low_byte(self.ipc.sync7())
        } else if off == 0x181 {
            bytes::high_byte(self.ipc.sync7())
        } else if off == 0x184 {
            bytes::low_byte(self.ipc.cnt7())
        } else if off == 0x185 {
            bytes::high_byte(self.ipc.cnt7())
        } else if off >= 0x1A0 && off <= 0x1A3 {
            self.read_auxspi_byte(false, off)
        } else if off == 0x1C0 {
            bytes::low_byte(self.spi.read_spicnt())
        } else if off == 0x1C1 {
            bytes::high_byte(self.spi.read_spicnt())
        } else if off == 0x1C2 {
            bytes::low_byte(self.spi.read_spidata())
        } else if off == 0x1C3 {
            bytes::high_byte(self.spi.read_spidata())
        } else if off >= 0x208 && off <= 0x20B {
            bytes::get_byte(self.irq.arm7_ime, off - 0x208)
        } else if off >= 0x210 && off <= 0x213 {
            bytes::get_byte(self.irq.arm7_ie, off - 0x210)
        } else if off >= 0x214 && off <= 0x217 {
            bytes::get_byte(self.irq.arm7_if, off - 0x214)
        } else if off == 0x241 {
            self.wram_control
        } else if (off as usize) < IO_BYTES {
            self.arm7_io[off as usize]
        } else {
            0
        }
    }

    /// Byte load of the first processor.
    pub fn read_byte_arm9(&self, addr: u32) -> (b: u8)
        requires
            self@.wf(),
        ensures
            b == self@.byte9(addr),
    {
        proof {
            reveal(MmuModel::byte9);
        }
        match self.spot_arm9(addr) {
            Some(s) => self.ram.get(s),
            None => {
                if addr / 0x100_0000 == 0x04 {
                    self.read_io9(addr % 0x100_0000)
                } else if addr / 0x100_0000 == 0x06 {
                    read_vram9(&self.vram, addr % 0x100_0000)
                } else {
                    0
                }
            },
        }
    }

    /// Byte load of the second processor.
    pub fn read_byte_arm7(&self, addr: u32) -> (b: u8)
        requires
            self@.wf(),
        ensures
            b == self@.byte7(addr),
    {
        proof {
            reveal(MmuModel::byte7);
        }
        match self.spot_arm7(addr) {
            Some(s) => self.ram.get(s),
            None => {
                if addr / 0x100_0000 == 0x04 {
                    self.read_io7(addr % 0x100_0000)
                } else if addr / 0x100_0000 == 0x06 {
                    self.vram.read_arm7(addr % 0x100_0000)
                } else {
                    0
                }
            },
        }
    }

    /// Start of `n` bytes that lie together in plain memory, for the first
    /// processor.
    pub fn contiguous_arm9(&self, addr: u32, n: u32) -> (r: Option<Spot>)
        ensures
            r == self@.run9(addr, n as int),
            r is Some ==> r->0.index() + n <= r->0.limit(),
    {
        proof {
            reveal(MmuModel::run9);
        }
        let off: u32 = addr % 0x100_0000;
        let (itcm, dtcm) = self.tcm.windows();
        if self.in_itcm_arm9(addr) {
            let i: u32 = addr.wrapping_sub(self.itcm_base()) % 0x8000;
            if n <= 0x8000 && i <= 0x8000 - n && itcm.spans_run(addr, n) {
                Some(Spot::Itcm(i as usize))
            } else {
                None
            }
        } else if self.in_dtcm_arm9(addr) {
            let i: u32 = addr.wrapping_sub(self.dtcm_base()) % 0x4000;
            if n <= 0x4000 && i <= 0x4000 - n && dtcm.spans_run(addr, n) && !itcm.begins_run(
                addr,
                n,
            ) {
                Some(Spot::Dtcm(i as usize))
            } else {
                None
            }
        } else if addr / 0x100_0000 == 0x02 && n <= 0x40_0000 && off <= 0x40_0000 - n
            && !itcm.begins_run(addr, n) && !dtcm.begins_run(addr, n) {
            Some(Spot::Main(off as usize))
        } else {
            None
        }
    }

    /// Start of `n` bytes that lie together in plain memory, for the second
    /// processor.
    pub fn contiguous_arm7(&self, addr: u32, n: u32) -> (r: Option<Spot>)
        ensures
            r == self@.run7(addr, n as int),
            r is Some ==> r->0.index() + n <= r->0.limit(),
    {
        proof {
            reveal(MmuModel::run7);
        }
        let off: u32 = addr % 0x100_0000;
        if addr / 0x100_0000 == 0x02 && n <= 0x40_0000 && off % 0x40_0000 <= 0x40_0000 - n {
            Some(Spot::Main((off % 0x40_0000) as usize))
        } else if addr / 0x100_0000 == 0x03 && off >= 0x80_0000 && n <= 0x1_0000 && off % 0x1_0000
            <= 0x1_0000 - n {
            Some(Spot::Wram7((off % 0x1_0000) as usize))
        } else {
            None
        }
    }

    /// Halfword load of the first processor.
    pub fn read_halfword_arm9(&self, addr: u32) -> (v: u16)
        requires
            self@.wf(),
        ensures
            v == self@.halfword9(addr),
    {
        proof {
            reveal(MmuModel::halfword9);
        }
        match self.contiguous_arm9(addr, 2) {
            Some(s) => self.ram.get_halfword(s),
            None => bytes::halfword(
                self.read_byte_arm9(addr),
                self.read_byte_arm9(addr.wrapping_add(1)),
            ),
        }
    }

    /// Word load of the first processor.
    pub fn read_word_arm9(&self, addr: u32) -> (v: u32)
        requires
            self@.wf(),
        ensures
            v == self@.word9(addr),
    {
        proof {
            reveal(MmuModel::word9);
        }
        match self.contiguous_arm9(addr, 4) {
            Some(s) => self.ram.get_word(s),
            None => bytes::word(
                self.read_byte_arm9(addr),
                self.read_byte_arm9(addr.wrapping_add(1)),
                self.read_byte_arm9(addr.wrapping_add(2)),
                self.read_byte_arm9(addr.wrapping_add(3)),
            ),
        }
    }

    /// Halfword load of the second processor.
    pub fn read_halfword_arm7(&self, addr: u32) -> (v: u16)
        requires
            self@.wf(),
        ensures
            v == self@.halfword7(addr),
    {
        proof {
            reveal(MmuModel::halfword7);
        }
        match self.contiguous_arm7(addr, 2) {
            Some(s) => {
                proof {
                    assert(addr.wrapping_add(0) == addr);
                    lemma_run7(self@, addr, 2, 0);
                    lemma_run7(self@, addr, 2, 1);
                }
                self.ram.get_halfword(s)
            },
            None => bytes::halfword(
                self.read_byte_arm7(addr),
                self.read_byte_arm7(addr.wrapping_add(1)),
            ),
        }
    }

    /// Word load of the second processor.
    pub fn read_word_arm7(&self, addr: u32) -> (v: u32)
        requires
            self@.wf(),
        ensures
            v == self@.word7(addr),
    {
        proof {
            reveal(MmuModel::word7);
        }
        match self.contiguous_arm7(addr, 4) {
            Some(s) => {
                proof {
                    assert(addr.wrapping_add(0) == addr);
                    lemma_run7(self@, addr, 4, 0);
                    lemma_run7(self@, addr, 4, 1);
                    lemma_run7(self@, addr, 4, 2);
                    lemma_run7(self@, addr, 4, 3);
                }
                self.ram.get_word(s)
            },
            None => bytes::word(
                self.read_byte_arm7(addr),
                self.read_byte_arm7(addr.wrapping_add(1)),
                self.read_byte_arm7(addr.wrapping_add(2)),
                self.read_byte_arm7(addr.wrapping_add(3)),
            ),
        }
    }
}

/// Bytes that lie together are the bytes at consecutive addresses.
pub proof fn lemma_run7(m: MmuModel, addr: u32, n: int, k: int)
    requires
        0 <= k < n,
        m.run7(addr, n) is Some,
    ensures
        m.spot7(addr.wrapping_add(k as u32)) == Some(m.run7(addr, n)->0.plus(k)),
        m.byte7(addr.wrapping_add(k as u32)) == m.ram.byte(m.run7(addr, n)->0.plus(k)),
{
    reveal(MmuModel::run7);
    reveal(MmuModel::spot7);
    reveal(MmuModel::byte7);
    let a = addr.wrapping_add(k as u32);
    assert(a == addr + k);
}

/// Distances in a window go up byte by byte, as long as they do not fold.
proof fn lemma_fold(addr: u32, base: u32, k: int, n: int, size: int)
    requires
        0 <= k < n,
        size == 0x8000 || size == 0x4000,
        addr.wrapping_sub(base) as int % size + n <= size,
    ensures
        addr.wrapping_add(k as u32).wrapping_sub(base) == addr.wrapping_sub(base) + k,
        (addr.wrapping_sub(base) + k) % size == addr.wrapping_sub(base) as int % size + k,
{
    let d = addr.wrapping_sub(base) as int;
    assert(d + k < 0x1_0000_0000) by {
        assert(0x1_0000_0000int % size == 0);
        assert(d / size * size + d % size == d);
        assert(d / size < 0x1_0000_0000int / size);
    }
    assert(k as u32 == k);
}

/// A run decodes to consecutive places: byte `k` of it stands `k` places behind
/// the first.
pub proof fn law_run_is_consecutive_9(m: MmuModel, addr: u32, n: int, k: int)
    requires
        0 <= k < n,
        m.run9(addr, n) is Some,
    ensures
        m.spot9(addr.wrapping_add(k as u32)) == Some(m.run9(addr, n)->0.plus(k)),
        m.byte9(addr.wrapping_add(k as u32)) == m.ram.byte(m.run9(addr, n)->0.plus(k)),
        m.run9(addr, n)->0.index() + n <= m.run9(addr, n)->0.limit(),
        m.run9(addr, n)->0.writable(),
{
    reveal(MmuModel::run9);
    reveal(MmuModel::spot9);
    reveal(MmuModel::byte9);
    let a = addr.wrapping_add(k as u32);
    let itcm = m.cp15.itcm_window();
    let dtcm = m.cp15.dtcm_window();
    assert(k as u32 == k);
    tcm::law_window_is_enable_and_range(m.cp15, addr);
    tcm::law_window_is_enable_and_range(m.cp15, a);
    if m.cp15.in_itcm(addr) {
        lemma_fold(addr, itcm.base, k, n, 0x8000);
        assert(itcm.holds(a));
    } else if m.cp15.in_dtcm(addr) {
        tcm::law_window_is_entered_at_its_base(itcm, addr, n, k);
        lemma_fold(addr, dtcm.base, k, n, 0x4000);
        assert(dtcm.holds(a));
    } else {
        tcm::law_window_is_entered_at_its_base(itcm, addr, n, k);
        tcm::law_window_is_entered_at_its_base(dtcm, addr, n, k);
        assert(a == addr + k);
        assert(a / 0x100_0000 == 2);
        assert(a as int % 0x100_0000 == addr as int % 0x100_0000 + k);
    }
}

/// A halfword or word load of the first processor delivers the bytes that byte
/// loads of its addresses deliver, at every address.
pub proof fn law_wide_loads_compose_bytes_9(m: MmuModel, addr: u32)
    ensures
        m.word9(addr) == bytes::le32(
            m.byte9(addr),
            m.byte9(addr.wrapping_add(1)),
            m.byte9(addr.wrapping_add(2)),
            m.byte9(addr.wrapping_add(3)),
        ),
        m.halfword9(addr) == bytes::le16(m.byte9(addr), m.byte9(addr.wrapping_add(1))),
{
    reveal(MmuModel::word9);
    reveal(MmuModel::halfword9);
    assert(addr.wrapping_add(0) == addr);
    if m.run9(addr, 4) is Some {
        let s = m.run9(addr, 4)->0;
        law_run_is_consecutive_9(m, addr, 4, 0);
        law_run_is_consecutive_9(m, addr, 4, 1);
        law_run_is_consecutive_9(m, addr, 4, 2);
        law_run_is_consecutive_9(m, addr, 4, 3);
        assert(s.plus(0) == s);
    }
    if m.run9(addr, 2) is Some {
        let s = m.run9(addr, 2)->0;
        law_run_is_consecutive_9(m, addr, 2, 0);
        law_run_is_consecutive_9(m, addr, 2, 1);
        assert(s.plus(0) == s);
    }
}

/// The same of the second processor.
pub proof fn law_wide_loads_compose_bytes_7(m: MmuModel, addr: u32)
    ensures
        m.word7(addr) == bytes::le32(
            m.byte7(addr),
            m.byte7(addr.wrapping_add(1)),
            m.byte7(addr.wrapping_add(2)),
            m.byte7(addr.wrapping_add(3)),
        ),
        m.halfword7(addr) == bytes::le16(m.byte7(addr), m.byte7(addr.wrapping_add(1))),
{
    reveal(MmuModel::word7);
    reveal(MmuModel::halfword7);
}

/// Allocation of the shared memory: in no mode do both processors reach the same
/// byte of it, and in every mode each byte is reached by one of them.
pub proof fn law_shared_memory_has_one_owner(mode: int, i: int)
    requires
        0 <= mode < 4,
        0 <= i < 0x4_0000,
    ensures
        ({
            let by9 = exists|o: int|
                0 <= o < 0x8_0000 && #[trigger] shared9_index(mode, o) == Some(i as usize);
            let by7 = exists|o: int|
                0 <= o < 0x80_0000 && #[trigger] shared7_spot(mode, o) == Spot::Shared(i as usize);
            by9 != by7
        }),
{
    if mode == 0 {
        assert(shared9_index(mode, i) == Some(i as usize));
    } else if mode == 1 {
        if i >= 0x2_0000 {
            assert(shared9_index(mode, i + 0x2_0000) == Some(i as usize));
        } else {
            assert(shared7_spot(mode, i) == Spot::Shared(i as usize));
        }
    } else if mode == 2 {
        if i < 0x2_0000 {
            assert(shared9_index(mode, i) == Some(i as usize));
        } else {
            assert(shared7_spot(mode, i - 0x2_0000) == Spot::Shared(i as usize));
        }
    } else {
        assert(shared7_spot(mode, i) == Spot::Shared(i as usize));
    }
}

/// Status of the geometry engine: never busy, never in error, always empty.
pub proof fn law_geometry_status_never_blocks(m: MmuModel)
    ensures
        m.gxstat_byte(0) == 0x02,
        m.gxstat_byte(1) == 0,
        m.gxstat_byte(3) % 64 == 0x06,
{
}

} // verus!
