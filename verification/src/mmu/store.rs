//! Stores and the transfers they start.
//!
//! A store to a channel's control register runs a whole DMA transfer, whose own
//! stores may start further transfers, to any depth.

use vstd::prelude::*;
use crate::bytes;
use crate::mmu::decode;
use crate::mmu::memory::Spot;
use crate::mmu::watch;
use crate::mmu::watch::Census;
use crate::mmu::{MmuModel, NdsMmu};
use crate::vram::{VramManager, VramModel};

verus! {

/// Levels of transfers started by transfers. Every level takes room on the stack,
/// so no machine has that many: wherever a nest of transfers ends at all, it ends
/// above this.
pub const DMA_NESTING: u64 = 0xFFFF_FFFF_FFFF_FFFF;

/// Words moved at most in one pump of the cartridge port; more than a block
/// holds.
pub const CARD_PUMP_WORDS: u32 = 0x4000;

/// Address of the cartridge's data port.
pub const CARD_PORT: u32 = 0x0410_0010;

/// The word that starts at byte `i` of a register block.
pub open spec fn io_word(io: Seq<u8>, i: int) -> u32 {
    bytes::le32(io[i], io[i + 1], io[i + 2], io[i + 3])
}

/// First register of DMA channel `ch`: source, destination and control words.
pub open spec fn dma_base(ch: int) -> int {
    0xB0 + ch * 12
}

/// Channel whose control word ends at a register offset.
pub open spec fn dma_channel(off: u32) -> Option<int> {
    if off == 0xBB {
        Some(0int)
    } else if off == 0xC7 {
        Some(1int)
    } else if off == 0xD3 {
        Some(2int)
    } else if off == 0xDF {
        Some(3int)
    } else {
        None
    }
}

/// Largest unit count of a channel; a count of zero stands for it.
pub open spec fn dma_limit(arm9: bool, ch: int) -> u32 {
    if arm9 {
        0x20_0000
    } else if ch == 3 {
        0x1_0000
    } else {
        0x4000
    }
}

/// Units that a control word asks for.
pub open spec fn dma_count(cnt: u32, limit: u32) -> u32 {
    if cnt % limit == 0 {
        limit
    } else {
        cnt % limit
    }
}

/// Address after one unit: control 1 counts down, 2 stays, the others count up.
pub open spec fn dma_next(addr: u32, ctl: int, step: u32) -> u32 {
    if ctl == 1 {
        addr.wrapping_sub(step)
    } else if ctl == 2 {
        addr
    } else {
        addr.wrapping_add(step)
    }
}

/// Start timing in a control word.
pub open spec fn dma_timing(cnt: u32) -> int {
    cnt as int / 0x800_0000 % 8
}

/// Whether a control word moves words rather than halfwords.
pub open spec fn dma_wide(cnt: u32) -> bool {
    cnt / 0x400_0000 % 2 == 1
}

pub open spec fn dma_dst_ctl(cnt: u32) -> int {
    cnt as int / 0x20_0000 % 4
}

pub open spec fn dma_src_ctl(cnt: u32) -> int {
    cnt as int / 0x80_0000 % 4
}

/// Interrupt request of DMA channel `ch`.
pub open spec fn dma_irq(ch: int) -> u32 {
    if ch == 0 {
        0x100
    } else if ch == 1 {
        0x200
    } else if ch == 2 {
        0x400
    } else {
        0x800
    }
}

/// Whether a transfer with this timing runs when it is armed: immediate ones do,
/// and the first processor's geometry-queue ones, since that queue is never
/// full. The others stay armed.
pub open spec fn dma_runs_now(arm9: bool, timing: int) -> bool {
    timing == 0 || (arm9 && timing == 7)
}

/// First channel armed for cartridge transfers, from `ch` on.
pub open spec fn card_channel(io: Seq<u8>, ch: int) -> Option<int>
    decreases 4 - ch,
{
    if ch >= 4 {
        None
    } else {
        let cnt = io_word(io, dma_base(ch) + 8);
        if cnt >= 0x8000_0000 && dma_timing(cnt) == 5 {
            Some(ch)
        } else {
            card_channel(io, ch + 1)
        }
    }
}

/// Video memory after a store of the first processor.
pub open spec fn vram9_put(v: VramModel, off: u32, val: u8) -> VramModel {
    v.put(decode::vram9_slot(v, off), val)
}

/// A transfer that a store starts.
pub enum Start {
    Dma { arm9: bool, ch: int },
    Card,
}

/// How started transfers are performed.
pub type Runner = spec_fn(MmuModel, Start) -> MmuModel;

impl MmuModel {
    /// After a byte store to plain memory; the start-up images ignore it.
    #[verifier::opaque]
    pub open spec fn spot_stored(self, s: Spot, val: u8) -> MmuModel {
        if s.writable() {
            MmuModel {
                ram: self.ram.with_byte(s, val),
                code: self.code.touched(s, 1),
                census: if s is Oam {
                    Census { oam_writes: self.census.oam_writes.wrapping_add(1), ..self.census }
                } else {
                    self.census
                },
                ..self
            }
        } else {
            self
        }
    }

    /// Control word of a channel.
    pub open spec fn dma_cnt(self, arm9: bool, ch: int) -> u32 {
        io_word(self.io(arm9), dma_base(ch) + 8)
    }

    /// After a transfer with control word `cnt` completed: the channel reads
    /// disabled, and its interrupt follows if the word asked for one.
    #[verifier::opaque]
    pub open spec fn dma_done(self, arm9: bool, ch: int, cnt: u32) -> MmuModel {
        let b = dma_base(ch) + 8;
        let done = cnt % 0x8000_0000;
        let io = self.io(arm9).update(b, bytes::byte_of(done, 0)).update(
            b + 1,
            bytes::byte_of(done, 1),
        ).update(b + 2, bytes::byte_of(done, 2)).update(b + 3, bytes::byte_of(done, 3));
        let m = self.with_io(arm9, io);
        if cnt / 0x4000_0000 % 2 == 1 {
            m.with_irq(
                if arm9 {
                    self.irq.raised9(dma_irq(ch))
                } else {
                    self.irq.raised7(dma_irq(ch))
                },
            )
        } else {
            m
        }
    }

    /// Run of plain memory that a wide store may fill at once: none while a
    /// watch has to see every byte.
    #[verifier::opaque]
    pub open spec fn store_run9(self, addr: u32, n: int) -> Option<Spot> {
        if self.stores.armed() {
            None
        } else {
            self.run9(addr, n)
        }
    }

    /// Code tracking ahead of such a store. A store that then turns out not to
    /// fit has marked its pages all the same.
    #[verifier::opaque]
    pub open spec fn marked9(self, addr: u32, n: int) -> MmuModel {
        if self.stores.armed() {
            self
        } else if self.cp15.in_itcm(addr) {
            MmuModel {
                code: self.code.touched(Spot::Itcm(self.itcm_index(addr) as usize), n),
                ..self
            }
        } else {
            match self.run9(addr, n) {
                Some(s) => MmuModel { code: self.code.touched(s, n), ..self },
                None => self,
            }
        }
    }

    #[verifier::opaque]
    pub open spec fn store_run7(self, addr: u32, n: int) -> Option<Spot> {
        if self.stores.armed() {
            None
        } else {
            self.run7(addr, n)
        }
    }

    #[verifier::opaque]
    pub open spec fn marked7(self, addr: u32, n: int) -> MmuModel {
        let off = addr as int % 0x100_0000;
        if self.stores.armed() {
            self
        } else if addr / 0x100_0000 == 0x02 {
            MmuModel {
                code: self.code.touched(Spot::Main((off % 0x40_0000) as usize), n),
                ..self
            }
        } else if addr / 0x100_0000 == 0x03 && off >= 0x80_0000 {
            MmuModel {
                code: self.code.touched(Spot::Wram7((off % 0x1_0000) as usize), n),
                ..self
            }
        } else {
            self
        }
    }

    /// After a byte store to a DMA register of the first processor. A channel
    /// starts only when its enable bit rises; its destination cursor is latched
    /// then. A raised top bit also lets an armed channel take an open block.
    #[verifier::opaque]
    pub open spec fn dma_byte9_with(self, off: u32, val: u8, run: Runner) -> MmuModel {
        let old_byte = self.io9[off as int];
        let s = self.io_stored(true, off, val);
        if val < 0x80 {
            s
        } else {
            let t = match dma_channel(off) {
                Some(ch) => if old_byte < 0x80 {
                    let l = MmuModel {
                        dma: s.dma.with_dst(
                            ch,
                            io_word(s.io9, dma_base(ch) + 4) % 0x1000_0000,
                        ),
                        ..s
                    };
                    run(l, Start::Dma { arm9: true, ch })
                } else {
                    s
                },
                None => s,
            };
            run(t, Start::Card)
        }
    }

    /// After a byte store of the first processor; `run` performs the
    /// transfers that it starts.
    #[verifier::opaque]
    pub open spec fn byte9_with(self, addr: u32, val: u8, run: Runner) -> MmuModel
    {
        let m = MmuModel { stores: self.stores.byte_stored(true, addr, val), ..self };
        let off = addr % 0x100_0000;
        match m.spot9(addr) {
            Some(s) => m.spot_stored(s, val),
            None => if addr / 0x100_0000 == 0x06 {
                MmuModel {
                    vram: vram9_put(m.vram, off, val),
                    census: Census {
                        vram_writes: m.census.vram_writes.wrapping_add(1),
                        ..m.census
                    },
                    ..m
                }
            } else if addr / 0x100_0000 != 0x04 {
                m
            } else if 0xB0 <= off <= 0xDF {
                m.dma_byte9_with(off, val, run)
            } else if off == 0x1A7 && val >= 0x80 {
                run(m.io_stored(true, off, val).card_started(), Start::Card)
            } else {
                m.io9_written(off, val)
            },
        }
    }

    /// After a halfword store of the first processor.
    #[verifier::opaque]
    pub open spec fn halfword9_with(self, addr: u32, val: u16, run: Runner) -> MmuModel
    {
        let m = MmuModel { stores: self.stores.wide_stored9(addr, val as u32), ..self };
        let k = m.marked9(addr, 2);
        match m.store_run9(addr, 2) {
            Some(s) => MmuModel { ram: k.ram.with_halfword(s, val), ..k },
            None => k.byte9_with(addr, bytes::lo(val), run).byte9_with(
                addr.wrapping_add(1),
                bytes::hi(val),
                run,
            ),
        }
    }

    /// After a word store of the first processor outside the geometry engine.
    /// One to the serial bus's control register is taken whole.
    #[verifier::opaque]
    pub open spec fn plain_word9_with(self, addr: u32, val: u32, run: Runner) -> MmuModel {
        if addr == 0x0400_01A0 {
            self.aux_word(true, val)
        } else {
            let k = self.marked9(addr, 4);
            match self.store_run9(addr, 4) {
                Some(s) => MmuModel { ram: k.ram.with_word(s, val), ..k },
                None => k.byte9_with(addr, bytes::byte_of(val, 0), run).byte9_with(
                    addr.wrapping_add(1),
                    bytes::byte_of(val, 1),
                    run,
                ).byte9_with(addr.wrapping_add(2), bytes::byte_of(val, 2), run).byte9_with(
                    addr.wrapping_add(3),
                    bytes::byte_of(val, 3),
                    run,
                ),
            }
        }
    }

    /// After a word store of the first processor. Words to the geometry engine
    /// are taken whole.
    #[verifier::opaque]
    pub open spec fn word9_with(self, addr: u32, val: u32, run: Runner) -> MmuModel
    {
        let m = MmuModel { stores: self.stores.wide_stored9(addr, val), ..self };
        if 0x0400_0400 <= addr < 0x0400_0440 {
            m.gx_fed(m.gx.with_fifo_word(val))
        } else if 0x0400_0440 <= addr <= 0x0400_05C8 {
            m.gx_fed(m.gx.with_port_word(((addr - 0x0400_0400) / 4) as u8, val))
        } else {
            let c = if addr == 0x0400_0350 {
                m.with_clear_color(val)
            } else {
                m
            };
            c.plain_word9_with(addr, val, run)
        }
    }

    /// After a byte store of the second processor.
    #[verifier::opaque]
    pub open spec fn byte7_with(self, addr: u32, val: u8, run: Runner) -> MmuModel
    {
        let m = MmuModel { stores: self.stores.byte_stored(false, addr, val), ..self };
        let off = addr % 0x100_0000;
        match m.spot7(addr) {
            Some(s) => m.spot_stored(s, val),
            None => if addr / 0x100_0000 == 0x06 {
                MmuModel { vram: m.vram.put(m.vram.arm7_slot(off), val), ..m }
            } else if addr / 0x100_0000 != 0x04 {
                m
            } else if 0xB0 <= off <= 0xDF {
                let s = m.io_stored(false, off, val);
                match dma_channel(off) {
                    Some(ch) => if val >= 0x80 && m.io7[off as int] < 0x80 {
                        run(s, Start::Dma { arm9: false, ch })
                    } else {
                        s
                    },
                    None => s,
                }
            } else {
                m.io7_written(off, val)
            },
        }
    }

    /// After a halfword store of the second processor.
    #[verifier::opaque]
    pub open spec fn halfword7_with(self, addr: u32, val: u16, run: Runner) -> MmuModel
    {
        let m = MmuModel {
            stores: self.stores.wide_stored7(addr, val as u32, watch::touch_sample(val)),
            ..self
        };
        if addr == 0x0400_01C0 {
            m.with_spi(m.spi.with_cnt(val))
        } else if addr == 0x0400_01C2 {
            m.spi_exchanged(val)
        } else {
            let k = m.marked7(addr, 2);
            match m.store_run7(addr, 2) {
                Some(s) => MmuModel { ram: k.ram.with_halfword(s, val), ..k },
                None => k.byte7_with(addr, bytes::lo(val), run).byte7_with(
                    addr.wrapping_add(1),
                    bytes::hi(val),
                    run,
                ),
            }
        }
    }

    /// After a word store of the second processor.
    #[verifier::opaque]
    pub open spec fn word7_with(self, addr: u32, val: u32, run: Runner) -> MmuModel
    {
        let hit = watch::touch_sample((val % 0x1_0000) as u16) || watch::touch_sample(
            (val / 0x1_0000) as u16,
        );
        let m = MmuModel { stores: self.stores.wide_stored7(addr, val, hit), ..self };
        if addr == 0x0400_01A0 {
            m.aux_word(false, val)
        } else {
            let k = m.marked7(addr, 4);
            match m.store_run7(addr, 4) {
                Some(s) => MmuModel { ram: k.ram.with_word(s, val), ..k },
                None => k.byte7_with(addr, bytes::byte_of(val, 0), run).byte7_with(
                    addr.wrapping_add(1),
                    bytes::byte_of(val, 1),
                    run,
                ).byte7_with(addr.wrapping_add(2), bytes::byte_of(val, 2), run).byte7_with(
                    addr.wrapping_add(3),
                    bytes::byte_of(val, 3),
                    run,
                ),
            }
        }
    }

    /// After one unit was moved.
    #[verifier::opaque]
    pub open spec fn unit_with(self, arm9: bool, wide: bool, src: u32, dst: u32, run: Runner) -> MmuModel
    {
        if arm9 {
            if wide {
                self.word9_with(dst, self.word9(src), run)
            } else {
                self.halfword9_with(dst, self.halfword9(src), run)
            }
        } else {
            if wide {
                self.word7_with(dst, self.word7(src), run)
            } else {
                self.halfword7_with(dst, self.halfword7(src), run)
            }
        }
    }

    /// After `n` units were moved under control word `cnt`.
    pub open spec fn units_with(
        self,
        arm9: bool,
        cnt: u32,
        src: u32,
        dst: u32,
        n: nat,
        run: Runner,
    ) -> MmuModel
        decreases n,
    {
        if n == 0 {
            self
        } else {
            let step = if dma_wide(cnt) {
                4u32
            } else {
                2u32
            };
            self.unit_with(arm9, dma_wide(cnt), src, dst, run).units_with(
                arm9,
                cnt,
                dma_next(src, dma_src_ctl(cnt), step),
                dma_next(dst, dma_dst_ctl(cnt), step),
                (n - 1) as nat,
                run,
            )
        }
    }

    /// After channel `ch` has moved all its units, from `sad` to `dad`.
    #[verifier::opaque]
    pub open spec fn transferred_with(
        self,
        arm9: bool,
        ch: int,
        cnt: u32,
        sad: u32,
        dad: u32,
        run: Runner,
    ) -> MmuModel {
        let n = dma_count(cnt, dma_limit(arm9, ch));
        let m = self.units_with(arm9, cnt, sad, dad, n as nat, run);
        let gx = 0x0400_0400 <= dad < 0x0400_0440;
        MmuModel { dma: m.dma.fired(arm9, dma_timing(cnt), n, gx), ..m }.dma_done(arm9, ch, cnt)
    }

    /// After channel `ch` was enabled: the transfer is counted, and runs to its
    /// end if its timing says so.
    #[verifier::opaque]
    pub open spec fn dma_with(self, arm9: bool, ch: int, run: Runner) -> MmuModel
    {
        let b = dma_base(ch);
        let sad = io_word(self.io(arm9), b) % 0x1000_0000;
        let dad = io_word(self.io(arm9), b + 4) % 0x1000_0000;
        let cnt = self.dma_cnt(arm9, ch);
        let limit = dma_limit(arm9, ch);
        if cnt < 0x8000_0000 {
            self
        } else {
            let timing = dma_timing(cnt);
            let a = MmuModel { dma: self.dma.armed(arm9, timing, cnt % limit), ..self };
            if dma_runs_now(arm9, timing) {
                a.transferred_with(arm9, ch, cnt, sad, dad, run)
            } else {
                a
            }
        }
    }

    /// After pumping the open cartridge block: the state, the destination
    /// cursor, and how many of `guard` words were left.
    pub open spec fn pumped_with(self, sad: u32, ctl: int, dst: u32, guard: nat, run: Runner) -> (
        MmuModel,
        u32,
        nat,
    )
        decreases guard,
    {
        if self.gamecard.bytes_left == 0 || guard == 0 {
            (self, dst, guard)
        } else {
            let v = if sad == CARD_PORT {
                self.card_word()
            } else {
                self.word9(sad)
            };
            let m = if sad == CARD_PORT {
                self.card_read()
            } else {
                self
            };
            m.word9_with(dst, v, run).pumped_with(
                sad,
                ctl,
                dma_next(dst, ctl, 4),
                (guard - 1) as nat,
                run,
            )
        }
    }

    /// After the first channel armed for cartridge transfers has taken the open
    /// data block. Blocks of other commands are left to the processor.
    #[verifier::opaque]
    pub open spec fn card_with(self, run: Runner) -> MmuModel
    {
        if self.gamecard.bytes_left == 0 || self.gamecard.fill is Some {
            self
        } else {
            match card_channel(self.io9, 0) {
                Some(ch) => {
                    let cnt = self.dma_cnt(true, ch);
                    if !dma_wide(cnt) {
                        self
                    } else {
                        let sad = io_word(self.io9, dma_base(ch)) % 0x1000_0000;
                        let p = self.pumped_with(
                            sad,
                            dma_dst_ctl(cnt),
                            self.dma.dst[ch],
                            CARD_PUMP_WORDS as nat,
                            run,
                        );
                        let n = (CARD_PUMP_WORDS - p.2) as u32;
                        let m = MmuModel {
                            dma: p.0.dma.with_dst(ch, p.1).fired(true, 5, n, false),
                            ..p.0
                        };
                        if cnt / 0x200_0000 % 2 == 0 {
                            m.dma_done(true, ch, cnt)
                        } else {
                            m
                        }
                    }
                },
                None => self,
            }
        }
    }

    /// After a transfer was started, with `d` levels for it and what it starts.
    pub open spec fn started(self, s: Start, d: nat) -> MmuModel
        decreases d, 0nat,
    {
        if d == 0 {
            self
        } else {
            match s {
                Start::Dma { arm9, ch } => self.dma_with(arm9, ch, runner((d - 1) as nat)),
                Start::Card => self.card_with(runner((d - 1) as nat)),
            }
        }
    }

    /// Stores as the processors perform them.
    pub open spec fn wrote_byte9(self, addr: u32, val: u8) -> MmuModel {
        self.byte9_with(addr, val, runner(DMA_NESTING as nat))
    }

    pub open spec fn wrote_halfword9(self, addr: u32, val: u16) -> MmuModel {
        self.halfword9_with(addr, val, runner(DMA_NESTING as nat))
    }

    pub open spec fn wrote_word9(self, addr: u32, val: u32) -> MmuModel {
        self.word9_with(addr, val, runner(DMA_NESTING as nat))
    }

    pub open spec fn wrote_byte7(self, addr: u32, val: u8) -> MmuModel {
        self.byte7_with(addr, val, runner(DMA_NESTING as nat))
    }

    pub open spec fn wrote_halfword7(self, addr: u32, val: u16) -> MmuModel {
        self.halfword7_with(addr, val, runner(DMA_NESTING as nat))
    }

    pub open spec fn wrote_word7(self, addr: u32, val: u32) -> MmuModel {
        self.word7_with(addr, val, runner(DMA_NESTING as nat))
    }
}

/// How transfers are performed with `d` levels.
pub open spec fn runner(d: nat) -> Runner
    decreases d, 1nat,
{
    |m: MmuModel, s: Start| m.started(s, d)
}

fn write_vram9(v: &mut VramManager, off: u32, val: u8)
    requires
        old(v)@.wf(),
    ensures
        final(v)@ == vram9_put(old(v)@, off, val),
        final(v)@.wf(),
{
    if off < 0x20_0000 {
        v.write_bg_a(off, val);
    } else if off < 0x40_0000 {
        v.write_bg_b(off - 0x20_0000, val);
    } else if off < 0x60_0000 {
        v.write_obj_a(off - 0x40_0000, val);
    } else if off < 0x80_0000 {
        v.write_obj_b(off - 0x60_0000, val);
    } else if off < 0x8A_4000 {
        v.write_lcdc(off - 0x80_0000, val);
    }
}

fn word_at(io: &Vec<u8>, i: usize) -> (w: u32)
    requires
        i + 4 <= io@.len(),
        i <= 0x1000,
    ensures
        w == io_word(io@, i as int),
{
    bytes::word(io[i], io[i + 1], io[i + 2], io[i + 3])
}

fn channel_of(off: u32) -> (r: Option<usize>)
    ensures
        match r {
            Some(ch) => dma_channel(off) == Some(ch as int) && ch < 4,
            None => dma_channel(off) is None,
        },
{
    if off == 0xBB {
        Some(0)
    } else if off == 0xC7 {
        Some(1)
    } else if off == 0xD3 {
        Some(2)
    } else if off == 0xDF {
        Some(3)
    } else {
        None
    }
}

fn next_addr(addr: u32, ctl: u32, step: u32) -> (r: u32)
    ensures
        r == dma_next(addr, ctl as int, step),
{
    if ctl == 1 {
        addr.wrapping_sub(step)
    } else if ctl == 2 {
        addr
    } else {
        addr.wrapping_add(step)
    }
}

fn dma_limit_of(arm9: bool, ch: usize) -> (n: u32)
    ensures
        n == dma_limit(arm9, ch as int),
        n > 0,
{
    if arm9 {
        0x20_0000
    } else if ch == 3 {
        0x1_0000
    } else {
        0x4000
    }
}

fn irq_of(ch: usize) -> (m: u32)
    ensures
        m == dma_irq(ch as int),
{
    if ch == 0 {
        0x100
    } else if ch == 1 {
        0x200
    } else if ch == 2 {
        0x400
    } else {
        0x800
    }
}

impl NdsMmu {
    fn store_spot(&mut self, s: Spot, val: u8)
        requires
            old(self)@.wf(),
            s.index() < s.limit(),
        ensures
            final(self)@ == old(self)@.spot_stored(s, val),
            final(self)@.wf(),
    {
        proof {
            reveal(MmuModel::spot_stored);
        }
        match s {
            Spot::Bios9(_i) => {},
            Spot::Bios7(_i) => {},
            Spot::Oam(_i) => {
                self.census.oam_writes = self.census.oam_writes.wrapping_add(1);
                self.ram.put(s, val);
            },
            _ => {
                self.ram.put(s, val);
                self.code.touch(s, 1);
            },
        }
    }

    fn finish_dma(&mut self, arm9: bool, ch: usize, cnt: u32)
        requires
            old(self)@.wf(),
            ch < 4,
        ensures
            final(self)@ == old(self)@.dma_done(arm9, ch as int, cnt),
            final(self)@.wf(),
    {
        proof {
            reveal(MmuModel::dma_done);
        }
        let b: usize = 0xB8 + ch * 12;
        let done: u32 = cnt % 0x8000_0000;
        if arm9 {
            self.arm9_io[b] = bytes::get_byte(done, 0);
            self.arm9_io[b + 1] = bytes::get_byte(done, 1);
            self.arm9_io[b + 2] = bytes::get_byte(done, 2);
            self.arm9_io[b + 3] = bytes::get_byte(done, 3);
            if cnt / 0x4000_0000 % 2 == 1 {
                self.irq.raise9(irq_of(ch));
            }
        } else {
            self.arm7_io[b] = bytes::get_byte(done, 0);
            self.arm7_io[b + 1] = bytes::get_byte(done, 1);
            self.arm7_io[b + 2] = bytes::get_byte(done, 2);
            self.arm7_io[b + 3] = bytes::get_byte(done, 3);
            if cnt / 0x4000_0000 % 2 == 1 {
                self.irq.raise7(irq_of(ch));
            }
        }
    }

    /// Start of `n` bytes that a wide store of the first processor may fill at
    /// once, with their pages marked as stored to. None while a watch has to
    /// see every byte.
    pub fn contiguous_arm9_mut(&mut self, addr: u32, n: u32) -> (r: Option<Spot>)
        requires
            old(self)@.wf(),
        ensures
            r == old(self)@.store_run9(addr, n as int),
            r is Some ==> r->0.index() + n <= r->0.limit(),
            final(self)@ == old(self)@.marked9(addr, n as int),
            final(self)@.wf(),
    {
        proof {
            reveal(MmuModel::marked9);
            reveal(MmuModel::store_run9);
        }
        if self.stores.armed() {
            return None;
        }
        let r: Option<Spot> = self.contiguous_arm9(addr, n);
        if self.in_itcm_arm9(addr) {
            let i: usize = (addr.wrapping_sub(self.itcm_base()) % 0x8000) as usize;
            self.code.touch(Spot::Itcm(i), n);
        } else {
            match r {
                Some(s) => {
                    self.code.touch(s, n);
                },
                None => {},
            }
        }
        r
    }

    /// The same of the second processor.
    pub fn contiguous_arm7_mut(&mut self, addr: u32, n: u32) -> (r: Option<Spot>)
        requires
            old(self)@.wf(),
        ensures
            r == old(self)@.store_run7(addr, n as int),
            r is Some ==> r->0.index() + n <= r->0.limit(),
            final(self)@ == old(self)@.marked7(addr, n as int),
            final(self)@.wf(),
    {
        proof {
            reveal(MmuModel::marked7);
            reveal(MmuModel::store_run7);
        }
        if self.stores.armed() {
            return None;
        }
        let off: u32 = addr % 0x100_0000;
        let r: Option<Spot> = self.contiguous_arm7(addr, n);
        if addr / 0x100_0000 == 0x02 {
            self.code.touch(Spot::Main((off % 0x40_0000) as usize), n);
        } else if addr / 0x100_0000 == 0x03 && off >= 0x80_0000 {
            self.code.touch(Spot::Wram7((off % 0x1_0000) as usize), n);
        }
        r
    }

    fn start_transfer(&mut self, dma: Option<(bool, usize)>, depth: u64)
        requires
            old(self)@.wf(),
            dma is Some ==> (dma->0).1 < 4,
        ensures
            final(self)@ == runner(depth as nat)(
                old(self)@,
                match dma {
                    Some(c) => Start::Dma { arm9: c.0, ch: c.1 as int },
                    None => Start::Card,
                },
            ),
            final(self)@.wf(),
        decreases depth, 0nat, 0nat,
    {
        if depth == 0 {
            return;
        }
        match dma {
            Some(c) => self.run_dma(c.0, c.1, depth - 1),
            None => self.service_gamecard_dma(depth - 1),
        }
    }

    fn store_dma_byte9(&mut self, off: u32, val: u8, depth: u64)
        requires
            old(self)@.wf(),
            0xB0 <= off <= 0xDF,
        ensures
            final(self)@ == old(self)@.dma_byte9_with(off, val, runner(depth as nat)),
            final(self)@.wf(),
        decreases depth, 0nat, 1nat,
    {
        proof {
            reveal(MmuModel::dma_byte9_with);
        }
        let old_byte: u8 = self.arm9_io[off as usize];
        self.store_io9(off, val);
        if val < 0x80 {
            return;
        }
        match channel_of(off) {
            Some(ch) => {
                if old_byte < 0x80 {
                    let dad: u32 = word_at(&self.arm9_io, 0xB4 + ch * 12) % 0x1000_0000;
                    self.dma.set_dst(ch, dad);
                    self.start_transfer(Some((true, ch)), depth);
                }
            },
            None => {},
        }
        self.start_transfer(None, depth);
    }

    #[verifier::rlimit(40)]
    #[verifier::spinoff_prover]
    fn store_byte9(&mut self, addr: u32, val: u8, depth: u64)
        requires
            old(self)@.wf(),
        ensures
            final(self)@ == old(self)@.byte9_with(addr, val, runner(depth as nat)),
            final(self)@.wf(),
        decreases depth, 0nat, 2nat,
    {
        proof {
            reveal(MmuModel::byte9_with);
        }
        self.stores.byte_store(true, addr, val);
        let off: u32 = addr % 0x100_0000;
        match self.spot_arm9(addr) {
            Some(s) => self.store_spot(s, val),
            None => {
                if addr / 0x100_0000 == 0x06 {
                    self.census.vram_writes = self.census.vram_writes.wrapping_add(1);
                    write_vram9(&mut self.vram, off, val);
                } else if addr / 0x100_0000 != 0x04 {
                } else if off >= 0xB0 && off <= 0xDF {
                    self.store_dma_byte9(off, val, depth);
                } else if off == 0x1A7 && val >= 0x80 {
                    self.store_io9(off, val);
                    self.start_gamecard_block();
                    self.start_transfer(None, depth);
                } else {
                    self.write_io9(off, val);
                }
            },
        }
    }

    fn store_halfword9(&mut self, addr: u32, val: u16, depth: u64)
        requires
            old(self)@.wf(),
        ensures
            final(self)@ == old(self)@.halfword9_with(addr, val, runner(depth as nat)),
            final(self)@.wf(),
        decreases depth, 1nat, 0nat,
    {
        proof {
            reveal(MmuModel::halfword9_with);
        }
        self.stores.wide_store9(addr, val as u32);
        match self.contiguous_arm9_mut(addr, 2) {
            Some(s) => {
                self.ram.put_halfword(s, val);
            },
            None => {
                self.store_byte9(addr, bytes::low_byte(val), depth);
                self.store_byte9(addr.wrapping_add(1), bytes::high_byte(val), depth);
            },
        }
    }

    fn store_word9(&mut self, addr: u32, val: u32, depth: u64)
        requires
            old(self)@.wf(),
        ensures
            final(self)@ == old(self)@.word9_with(addr, val, runner(depth as nat)),
            final(self)@.wf(),
        decreases depth, 1nat, 0nat,
    {
        proof {
            reveal(MmuModel::word9_with);
        }
        self.stores.wide_store9(addr, val);
        if addr >= 0x0400_0400 && addr < 0x0400_0440 {
            self.feed_gx_fifo(val);
            return;
        }
        if addr >= 0x0400_0440 && addr <= 0x0400_05C8 {
            self.feed_gx_port(((addr - 0x0400_0400) / 4) as u8, val);
            return;
        }
        if addr == 0x0400_0350 {
            self.gx.set_clear_color(val);
        }
        self.store_plain_word9(addr, val, depth);
    }

    fn store_plain_word9(&mut self, addr: u32, val: u32, depth: u64)
        requires
            old(self)@.wf(),
        ensures
            final(self)@ == old(self)@.plain_word9_with(addr, val, runner(depth as nat)),
            final(self)@.wf(),
        decreases depth, 0nat, 3nat,
    {
        proof {
            reveal(MmuModel::plain_word9_with);
        }
        if addr == 0x0400_01A0 {
            self.write_word_auxspicnt(true, val);
            return;
        }
        match self.contiguous_arm9_mut(addr, 4) {
            Some(s) => {
                self.ram.put_word(s, val);
            },
            None => {
                self.store_byte9(addr, bytes::get_byte(val, 0), depth);
                self.store_byte9(addr.wrapping_add(1), bytes::get_byte(val, 1), depth);
                self.store_byte9(addr.wrapping_add(2), bytes::get_byte(val, 2), depth);
                self.store_byte9(addr.wrapping_add(3), bytes::get_byte(val, 3), depth);
            },
        }
    }

    fn store_byte7(&mut self, addr: u32, val: u8, depth: u64)
        requires
            old(self)@.wf(),
        ensures
            final(self)@ == old(self)@.byte7_with(addr, val, runner(depth as nat)),
            final(self)@.wf(),
        decreases depth, 0nat, 2nat,
    {
        proof {
            reveal(MmuModel::byte7_with);
        }
        self.stores.byte_store(false, addr, val);
        let off: u32 = addr % 0x100_0000;
        match self.spot_arm7(addr) {
            Some(s) => self.store_spot(s, val),
            None => {
                if addr / 0x100_0000 == 0x06 {
                    self.vram.write_arm7(off, val);
                } else if addr / 0x100_0000 != 0x04 {
                } else if off >= 0xB0 && off <= 0xDF {
                    let old_byte: u8 = self.arm7_io[off as usize];
                    self.store_io7(off, val);
                    match channel_of(off) {
                        Some(ch) => {
                            if val >= 0x80 && old_byte < 0x80 {
                                self.start_transfer(Some((false, ch)), depth);
                            }
                        },
                        None => {},
                    }
                } else {
                    self.write_io7(off, val);
                }
            },
        }
    }

    #[verifier::rlimit(40)]
    #[verifier::spinoff_prover]
    fn store_halfword7(&mut self, addr: u32, val: u16, depth: u64)
        requires
            old(self)@.wf(),
        ensures
            final(self)@ == old(self)@.halfword7_with(addr, val, runner(depth as nat)),
            final(self)@.wf(),
        decreases depth, 1nat, 0nat,
    {
        proof {
            reveal(MmuModel::halfword7_with);
        }
        self.stores.halfword_store7(addr, val);
        if addr == 0x0400_01C0 {
            self.write_spicnt7(val);
            return;
        }
        if addr == 0x0400_01C2 {
            self.write_spidata7(val);
            return;
        }
        match self.contiguous_arm7_mut(addr, 2) {
            Some(s) => {
                self.ram.put_halfword(s, val);
            },
            None => {
                self.store_byte7(addr, bytes::low_byte(val), depth);
                self.store_byte7(addr.wrapping_add(1), bytes::high_byte(val), depth);
            },
        }
    }

    #[verifier::rlimit(40)]
    #[verifier::spinoff_prover]
    fn store_word7(&mut self, addr: u32, val: u32, depth: u64)
        requires
            old(self)@.wf(),
        ensures
            final(self)@ == old(self)@.word7_with(addr, val, runner(depth as nat)),
            final(self)@.wf(),
        decreases depth, 1nat, 0nat,
    {
        proof {
            reveal(MmuModel::word7_with);
        }
        self.stores.word_store7(addr, val);
        if addr == 0x0400_01A0 {
            self.write_word_auxspicnt(false, val);
            return;
        }
        match self.contiguous_arm7_mut(addr, 4) {
            Some(s) => {
                self.ram.put_word(s, val);
            },
            None => {
                self.store_byte7(addr, bytes::get_byte(val, 0), depth);
                self.store_byte7(addr.wrapping_add(1), bytes::get_byte(val, 1), depth);
                self.store_byte7(addr.wrapping_add(2), bytes::get_byte(val, 2), depth);
                self.store_byte7(addr.wrapping_add(3), bytes::get_byte(val, 3), depth);
            },
        }
    }

    fn move_unit(&mut self, arm9: bool, wide: bool, src: u32, dst: u32, depth: u64)
        requires
            old(self)@.wf(),
        ensures
            final(self)@ == old(self)@.unit_with(arm9, wide, src, dst, runner(depth as nat)),
            final(self)@.wf(),
        decreases depth, 2nat, 0nat,
    {
        proof {
            reveal(MmuModel::unit_with);
        }
        if arm9 {
            if wide {
                let v: u32 = self.read_word_arm9(src);
                self.store_word9(dst, v, depth);
            } else {
                let v: u16 = self.read_halfword_arm9(src);
                self.store_halfword9(dst, v, depth);
            }
        } else {
            if wide {
                let v: u32 = self.read_word_arm7(src);
                self.store_word7(dst, v, depth);
            } else {
                let v: u16 = self.read_halfword_arm7(src);
                self.store_halfword7(dst, v, depth);
            }
        }
    }

    fn move_units(&mut self, arm9: bool, cnt: u32, sad: u32, dad: u32, n: u32, depth: u64)
        requires
            old(self)@.wf(),
        ensures
            final(self)@ == old(self)@.units_with(arm9, cnt, sad, dad, n as nat, runner(depth as nat)),
            final(self)@.wf(),
        decreases depth, 3nat, 0nat,
    {
        let wide: bool = cnt / 0x400_0000 % 2 == 1;
        let src_ctl: u32 = cnt / 0x80_0000 % 4;
        let dst_ctl: u32 = cnt / 0x20_0000 % 4;
        let step: u32 = if wide {
            4
        } else {
            2
        };
        let mut src: u32 = sad;
        let mut dst: u32 = dad;
        let mut left: u32 = n;
        while left > 0
            invariant
                self@.wf(),
                wide == dma_wide(cnt),
                src_ctl == dma_src_ctl(cnt),
                dst_ctl == dma_dst_ctl(cnt),
                step == (if wide {
                    4u32
                } else {
                    2u32
                }),
                self@.units_with(arm9, cnt, src, dst, left as nat, runner(depth as nat))
                    == old(self)@.units_with(arm9, cnt, sad, dad, n as nat, runner(depth as nat)),
            decreases left,
        {
            self.move_unit(arm9, wide, src, dst, depth);
            src = next_addr(src, src_ctl, step);
            dst = next_addr(dst, dst_ctl, step);
            left = left - 1;
        }
    }

    fn run_dma(&mut self, arm9: bool, ch: usize, depth: u64)
        requires
            old(self)@.wf(),
            ch < 4,
        ensures
            final(self)@ == old(self)@.dma_with(arm9, ch as int, runner(depth as nat)),
            final(self)@.wf(),
        decreases depth, 4nat, 0nat,
    {
        proof {
            reveal(MmuModel::dma_with);
        }
        let b: usize = 0xB0 + ch * 12;
        let (sad, dad, cnt): (u32, u32, u32) = if arm9 {
            (
                word_at(&self.arm9_io, b),
                word_at(&self.arm9_io, b + 4),
                word_at(&self.arm9_io, b + 8),
            )
        } else {
            (
                word_at(&self.arm7_io, b),
                word_at(&self.arm7_io, b + 4),
                word_at(&self.arm7_io, b + 8),
            )
        };
        if cnt < 0x8000_0000 {
            return;
        }
        let limit: u32 = dma_limit_of(arm9, ch);
        let timing: usize = (cnt / 0x800_0000 % 8) as usize;
        self.dma.arm(arm9, timing, cnt % limit);
        if !(timing == 0 || (arm9 && timing == 7)) {
            return;
        }
        self.transfer(arm9, ch, cnt, sad % 0x1000_0000, dad % 0x1000_0000, depth);
    }

    fn transfer(&mut self, arm9: bool, ch: usize, cnt: u32, src: u32, dst: u32, depth: u64)
        requires
            old(self)@.wf(),
            ch < 4,
        ensures
            final(self)@ == old(self)@.transferred_with(
                arm9,
                ch as int,
                cnt,
                src,
                dst,
                runner(depth as nat),
            ),
            final(self)@.wf(),
        decreases depth, 3nat, 1nat,
    {
        proof {
            reveal(MmuModel::transferred_with);
        }
        let limit: u32 = dma_limit_of(arm9, ch);
        let timing: usize = (cnt / 0x800_0000 % 8) as usize;
        let n: u32 = if cnt % limit == 0 {
            limit
        } else {
            cnt % limit
        };
        self.move_units(arm9, cnt, src, dst, n, depth);
        self.dma.fire(arm9, timing, n, dst >= 0x0400_0400 && dst < 0x0400_0440);
        self.finish_dma(arm9, ch, cnt);
    }

    fn pump_card(&mut self, sad: u32, ctl: u32, start: u32, depth: u64) -> (r: (u32, u32))
        requires
            old(self)@.wf(),
        ensures
            ({
                let p = old(self)@.pumped_with(
                    sad,
                    ctl as int,
                    start,
                    CARD_PUMP_WORDS as nat,
                    runner(depth as nat),
                );
                final(self)@ == p.0 && r.0 == p.1 && r.1 == p.2
            }),
            r.1 <= CARD_PUMP_WORDS,
            final(self)@.wf(),
        decreases depth, 3nat, 0nat,
    {
        let mut dst: u32 = start;
        let mut guard: u32 = CARD_PUMP_WORDS;
        while self.gamecard.bytes_left > 0 && guard > 0
            invariant
                self@.wf(),
                guard <= CARD_PUMP_WORDS,
                self@.pumped_with(sad, ctl as int, dst, guard as nat, runner(depth as nat))
                    == old(self)@.pumped_with(
                    sad,
                    ctl as int,
                    start,
                    CARD_PUMP_WORDS as nat,
                    runner(depth as nat),
                ),
            decreases guard,
        {
            let v: u32 = if sad == CARD_PORT {
                self.gamecard_read_data()
            } else {
                self.read_word_arm9(sad)
            };
            self.store_word9(dst, v, depth);
            dst = next_addr(dst, ctl, 4);
            guard = guard - 1;
        }
        (dst, guard)
    }

    fn armed_card_channel(&self) -> (r: Option<usize>)
        requires
            self@.wf(),
        ensures
            match r {
                Some(ch) => card_channel(self@.io9, 0) == Some(ch as int) && ch < 4,
                None => card_channel(self@.io9, 0) is None,
            },
    {
        let mut ch: usize = 0;
        while ch < 4
            invariant
                0 <= ch <= 4,
                self@.wf(),
                card_channel(self@.io9, 0) == card_channel(self@.io9, ch as int),
            decreases 4 - ch,
        {
            let cnt: u32 = word_at(&self.arm9_io, 0xB8 + ch * 12);
            if cnt >= 0x8000_0000 && cnt / 0x800_0000 % 8 == 5 {
                return Some(ch);
            }
            ch = ch + 1;
        }
        None
    }

    fn service_gamecard_dma(&mut self, depth: u64)
        requires
            old(self)@.wf(),
        ensures
            final(self)@ == old(self)@.card_with(runner(depth as nat)),
            final(self)@.wf(),
        decreases depth, 4nat, 0nat,
    {
        proof {
            reveal(MmuModel::card_with);
        }
        if self.gamecard.bytes_left == 0 || self.gamecard.fill.is_some() {
            return;
        }
        let ch: usize = match self.armed_card_channel() {
            Some(ch) => ch,
            None => {
                return;
            },
        };
        let cnt: u32 = word_at(&self.arm9_io, 0xB8 + ch * 12);
        if cnt / 0x400_0000 % 2 == 0 {
            return;
        }
        let sad: u32 = word_at(&self.arm9_io, 0xB0 + ch * 12) % 0x1000_0000;
        let start: u32 = self.dma.dst(ch);
        let (dst, guard): (u32, u32) = self.pump_card(sad, cnt / 0x20_0000 % 4, start, depth);
        self.dma.set_dst(ch, dst);
        self.dma.fire(true, 5, CARD_PUMP_WORDS - guard, false);
        if cnt / 0x200_0000 % 2 == 0 {
            self.finish_dma(true, ch, cnt);
        }
    }

    /// Byte store of the first processor.
    pub fn write_byte_arm9(&mut self, addr: u32, val: u8)
        requires
            old(self)@.wf(),
        ensures
            final(self)@ == old(self)@.wrote_byte9(addr, val),
            final(self)@.wf(),
    {
        self.store_byte9(addr, val, DMA_NESTING);
    }

    /// Halfword store of the first processor.
    pub fn write_halfword_arm9(&mut self, addr: u32, val: u16)
        requires
            old(self)@.wf(),
        ensures
            final(self)@ == old(self)@.wrote_halfword9(addr, val),
            final(self)@.wf(),
    {
        self.store_halfword9(addr, val, DMA_NESTING);
    }

    /// Word store of the first processor.
    pub fn write_word_arm9(&mut self, addr: u32, val: u32)
        requires
            old(self)@.wf(),
        ensures
            final(self)@ == old(self)@.wrote_word9(addr, val),
            final(self)@.wf(),
    {
        self.store_word9(addr, val, DMA_NESTING);
    }

    /// Byte store of the second processor.
    pub fn write_byte_arm7(&mut self, addr: u32, val: u8)
        requires
            old(self)@.wf(),
        ensures
            final(self)@ == old(self)@.wrote_byte7(addr, val),
            final(self)@.wf(),
    {
        self.store_byte7(addr, val, DMA_NESTING);
    }

    /// Halfword store of the second processor.
    pub fn write_halfword_arm7(&mut self, addr: u32, val: u16)
        requires
            old(self)@.wf(),
        ensures
            final(self)@ == old(self)@.wrote_halfword7(addr, val),
            final(self)@.wf(),
    {
        self.store_halfword7(addr, val, DMA_NESTING);
    }

    /// Word store of the second processor.
    pub fn write_word_arm7(&mut self, addr: u32, val: u32)
        requires
            old(self)@.wf(),
        ensures
            final(self)@ == old(self)@.wrote_word7(addr, val),
            final(self)@.wf(),
    {
        self.store_word7(addr, val, DMA_NESTING);
    }
}

} // verus!
