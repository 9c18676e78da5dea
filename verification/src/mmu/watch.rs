//! Diagnostics of the memory system: bounded logs, watches and counters. None of
//! them changes what the machine does.

use vstd::prelude::*;

verus! {

/// Most entries kept of the geometry and store watches.
pub const WATCH_CAP: usize = 64;

/// Most entries kept of the calibration log.
pub const CALIB_CAP: usize = 256;

/// Most entries kept of the touch and queue logs.
pub const LOG_CAP: usize = 512;

/// Event counters.
#[derive(Clone, Copy, Debug, PartialEq, Eq, Structural)]
pub struct Census {
    /// Stores of the first processor that reached video memory and sprite
    /// memory.
    pub vram_writes: u64,
    pub oam_writes: u64,
    /// Interrupts taken.
    pub arm9_irqs_taken: u64,
    pub arm7_irqs_taken: u64,
    /// Cycles spent halted.
    pub arm9_halt_cycles: u64,
    pub arm7_halt_cycles: u64,
    /// Bus cycles given to the second processor.
    pub arm7_cycles_run: u64,
}

impl Census {
    pub open spec fn zero() -> Census {
        Census {
            vram_writes: 0,
            oam_writes: 0,
            arm9_irqs_taken: 0,
            arm7_irqs_taken: 0,
            arm9_halt_cycles: 0,
            arm7_halt_cycles: 0,
            arm7_cycles_run: 0,
        }
    }

    pub fn new() -> (r: Self)
        ensures
            r == Census::zero(),
    {
        Census {
            vram_writes: 0,
            oam_writes: 0,
            arm9_irqs_taken: 0,
            arm7_irqs_taken: 0,
            arm9_halt_cycles: 0,
            arm7_halt_cycles: 0,
            arm7_cycles_run: 0,
        }
    }
}

/// Watches on loads and stores.
pub struct StoreModel {
    pub tp_watch_on: bool,
    pub tp_log: Seq<(u32, u32)>,
    pub tp_read_watch_on: bool,
    pub slot_reads: Seq<u32>,
    pub calib_on: bool,
    pub calib_log: Seq<(u32, u32)>,
    pub settings_log: Seq<u32>,
    pub ram_watch: Option<(u32, u32)>,
    pub ram_log: Seq<(u32, u8, u32, u32)>,
    pub pc: u32,
    pub lr: u32,
}

/// Whether a halfword is one of the touch samples that the watch looks for: the
/// two injected coordinates and the pen-up rail.
pub open spec fn touch_sample(v: u16) -> bool {
    v == 2032 || v == 3322 || v == 0x0FFF
}

fn is_touch_sample(v: u16) -> (b: bool)
    ensures
        b == touch_sample(v),
{
    v == 2032 || v == 3322 || v == 0x0FFF
}

/// Slot of the load watch that counts an address.
pub open spec fn watched_slot(addr: u32) -> Option<int> {
    let a = addr - addr % 4;
    if a == 0x021E_36B8 {
        Some(0int)
    } else if a == 0x021E_36BC {
        Some(1int)
    } else if a == 0x027F_FFA8 {
        Some(2int)
    } else if a == 0x027F_FFAC {
        Some(3int)
    } else if a == 0x021D_D460 {
        Some(4int)
    } else if a == 0x021D_E640 {
        Some(5int)
    } else {
        None
    }
}

/// `log` with an entry, unless it is full.
pub open spec fn capped<T>(log: Seq<T>, entry: T, cap: int) -> Seq<T> {
    if log.len() < cap {
        log.push(entry)
    } else {
        log
    }
}

fn push_capped<T>(log: &mut Vec<T>, entry: T, cap: usize)
    ensures
        final(log)@ == capped(old(log)@, entry, cap as int),
{
    if log.len() < cap {
        log.push(entry);
    }
}

impl StoreModel {
    pub open spec fn wf(self) -> bool {
        self.slot_reads.len() == 6
    }

    pub open spec fn fresh() -> StoreModel {
        StoreModel {
            tp_watch_on: false,
            tp_log: Seq::empty(),
            tp_read_watch_on: false,
            slot_reads: Seq::new(6, |i: int| 0u32),
            calib_on: false,
            calib_log: Seq::empty(),
            settings_log: Seq::empty(),
            ram_watch: None,
            ram_log: Seq::empty(),
            pc: 0,
            lr: 0,
        }
    }

    /// Whether any watch needs to see every stored byte.
    pub open spec fn armed(self) -> bool {
        self.calib_on || self.tp_watch_on || self.ram_watch is Some
    }

    /// After a byte store; entries of the second processor carry bit 31.
    pub open spec fn byte_stored(self, arm9: bool, addr: u32, val: u8) -> StoreModel {
        let s = if self.calib_on && 0x027F_FCD8 <= addr < 0x027F_FCE4 {
            let tag = if arm9 {
                addr
            } else {
                (addr + 0x8000_0000) as u32
            };
            StoreModel {
                calib_log: capped(self.calib_log, (tag, val as u32), CALIB_CAP as int),
                ..self
            }
        } else {
            self
        };
        match s.ram_watch {
            Some(r) => if arm9 && r.0 <= addr < r.1 {
                StoreModel {
                    ram_log: capped(s.ram_log, (addr, val, s.pc, s.lr), WATCH_CAP as int),
                    ..s
                }
            } else {
                s
            },
            None => s,
        }
    }

    /// After a halfword or word store of the first processor.
    pub open spec fn wide_stored9(self, addr: u32, val: u32) -> StoreModel {
        if self.calib_on && 0x021E_36CC <= addr < 0x021E_36E8 {
            StoreModel { calib_log: capped(self.calib_log, (addr, val), CALIB_CAP as int), ..self }
        } else {
            self
        }
    }

    /// After a halfword or word store of the second processor, `hit` telling
    /// whether it holds a touch sample.
    pub open spec fn wide_stored7(self, addr: u32, val: u32, hit: bool) -> StoreModel {
        if self.tp_watch_on && hit && 0x0200_0000 <= addr < 0x0400_0000 {
            StoreModel { tp_log: capped(self.tp_log, (addr, val), LOG_CAP as int), ..self }
        } else {
            self
        }
    }

    /// After a watched load of the first processor.
    pub open spec fn loaded(self, addr: u32) -> StoreModel {
        let s = if 0x027F_FC80 <= addr < 0x027F_FCE8 {
            StoreModel { settings_log: capped(self.settings_log, addr, 16), ..self }
        } else {
            self
        };
        match watched_slot(addr) {
            Some(i) => StoreModel {
                slot_reads: s.slot_reads.update(i, s.slot_reads[i].wrapping_add(1)),
                ..s
            },
            None => s,
        }
    }

    /// With the executing instruction's address and link register noted.
    pub open spec fn stamped(self, pc: u32, lr: u32) -> StoreModel {
        StoreModel { pc, lr, ..self }
    }
}

/// Watches on loads and stores.
pub struct StoreWatch {
    /// Log stores of the second processor that hold a touch sample.
    pub tp_watch_on: bool,
    pub tp_watch_log: Vec<(u32, u32)>,
    /// Count loads of the touch state.
    pub tp_read_watch_on: bool,
    pub tp_slot_reads: [u32; 6],
    /// Log stores to the touch calibration.
    pub calib_watch_on: bool,
    pub calib_write_log: Vec<(u32, u32)>,
    pub settings_read_log: Vec<u32>,
    /// Half-open address range in which stores are logged.
    pub ram_write_watch: Option<(u32, u32)>,
    /// Address, value, instruction address, link register.
    pub ram_write_pcs: Vec<(u32, u8, u32, u32)>,
    pub arm9_exec_pc: u32,
    pub arm9_exec_lr: u32,
}

impl View for StoreWatch {
    type V = StoreModel;

    open spec fn view(&self) -> StoreModel {
        StoreModel {
            tp_watch_on: self.tp_watch_on,
            tp_log: self.tp_watch_log@,
            tp_read_watch_on: self.tp_read_watch_on,
            slot_reads: self.tp_slot_reads@,
            calib_on: self.calib_watch_on,
            calib_log: self.calib_write_log@,
            settings_log: self.settings_read_log@,
            ram_watch: self.ram_write_watch,
            ram_log: self.ram_write_pcs@,
            pc: self.arm9_exec_pc,
            lr: self.arm9_exec_lr,
        }
    }
}

impl StoreWatch {
    pub fn new() -> (r: Self)
        ensures
            r@ == StoreModel::fresh(),
            r@.wf(),
    {
        let r = StoreWatch {
            tp_watch_on: false,
            tp_watch_log: Vec::new(),
            tp_read_watch_on: false,
            tp_slot_reads: [0u32; 6],
            calib_watch_on: false,
            calib_write_log: Vec::new(),
            settings_read_log: Vec::new(),
            ram_write_watch: None,
            ram_write_pcs: Vec::new(),
            arm9_exec_pc: 0,
            arm9_exec_lr: 0,
        };
        assert(r@.slot_reads =~= StoreModel::fresh().slot_reads);
        r
    }

    pub fn armed(&self) -> (b: bool)
        ensures
            b == self@.armed(),
    {
        self.calib_watch_on || self.tp_watch_on || self.ram_write_watch.is_some()
    }

    pub fn calib_on(&self) -> (b: bool)
        ensures
            b == self@.calib_on,
    {
        self.calib_watch_on
    }

    pub fn read_watch_on(&self) -> (b: bool)
        ensures
            b == self@.tp_read_watch_on,
    {
        self.tp_read_watch_on
    }

    pub fn pc(&self) -> (v: u32)
        ensures
            v == self@.pc,
    {
        self.arm9_exec_pc
    }

    pub fn lr(&self) -> (v: u32)
        ensures
            v == self@.lr,
    {
        self.arm9_exec_lr
    }

    pub fn stamp(&mut self, pc: u32, lr: u32)
        ensures
            final(self)@ == old(self)@.stamped(pc, lr),
    {
        self.arm9_exec_pc = pc;
        self.arm9_exec_lr = lr;
    }

    pub fn byte_store(&mut self, arm9: bool, addr: u32, val: u8)
        ensures
            final(self)@ == old(self)@.byte_stored(arm9, addr, val),
    {
        if self.calib_watch_on && 0x027F_FCD8 <= addr && addr < 0x027F_FCE4 {
            let tag: u32 = if arm9 {
                addr
            } else {
                addr + 0x8000_0000
            };
            push_capped(&mut self.calib_write_log, (tag, val as u32), CALIB_CAP);
        }
        match self.ram_write_watch {
            Some(r) => {
                if arm9 && r.0 <= addr && addr < r.1 {
                    let entry: (u32, u8, u32, u32) = (
                        addr,
                        val,
                        self.arm9_exec_pc,
                        self.arm9_exec_lr,
                    );
                    push_capped(&mut self.ram_write_pcs, entry, WATCH_CAP);
                }
            },
            None => {},
        }
    }

    pub fn wide_store9(&mut self, addr: u32, val: u32)
        ensures
            final(self)@ == old(self)@.wide_stored9(addr, val),
    {
        if self.calib_watch_on && 0x021E_36CC <= addr && addr < 0x021E_36E8 {
            push_capped(&mut self.calib_write_log, (addr, val), CALIB_CAP);
        }
    }

    pub fn halfword_store7(&mut self, addr: u32, val: u16)
        ensures
            final(self)@ == old(self)@.wide_stored7(addr, val as u32, touch_sample(val)),
    {
        if self.tp_watch_on && is_touch_sample(val) && 0x0200_0000 <= addr && addr < 0x0400_0000 {
            push_capped(&mut self.tp_watch_log, (addr, val as u32), LOG_CAP);
        }
    }

    pub fn word_store7(&mut self, addr: u32, val: u32)
        ensures
            final(self)@ == old(self)@.wide_stored7(
                addr,
                val,
                touch_sample((val % 0x1_0000) as u16) || touch_sample((val / 0x1_0000) as u16),
            ),
    {
        let hit: bool = is_touch_sample((val % 0x1_0000) as u16) || is_touch_sample(
            (val / 0x1_0000) as u16,
        );
        if self.tp_watch_on && hit && 0x0200_0000 <= addr && addr < 0x0400_0000 {
            push_capped(&mut self.tp_watch_log, (addr, val), LOG_CAP);
        }
    }

    pub fn load(&mut self, addr: u32)
        requires
            old(self)@.wf(),
        ensures
            final(self)@ == old(self)@.loaded(addr),
            final(self)@.wf(),
    {
        if 0x027F_FC80 <= addr && addr < 0x027F_FCE8 {
            push_capped(&mut self.settings_read_log, addr, 16);
        }
        let a: u32 = addr - addr % 4;
        let slot: usize = if a == 0x021E_36B8 {
            0
        } else if a == 0x021E_36BC {
            1
        } else if a == 0x027F_FFA8 {
            2
        } else if a == 0x027F_FFAC {
            3
        } else if a == 0x021D_D460 {
            4
        } else if a == 0x021D_E640 {
            5
        } else {
            return;
        };
        self.tp_slot_reads[slot] = self.tp_slot_reads[slot].wrapping_add(1);
    }
}

/// Watches on the queues between the processors.
pub struct PxiModel {
    pub log_on: bool,
    pub log: Seq<(u8, u32)>,
    pub tag7_sent: u32,
    pub tag7_rx7: u32,
    pub tag7_dropped_full: u32,
    pub last_tag7_data: u32,
    pub tag11_9to7: Seq<u32>,
    pub tag11_9to7_wide: u32,
    pub tag11_7to9: u32,
    pub tag11_head: Seq<(u8, u32)>,
    pub tag11_argptr: u32,
    pub tag11_expect_ptr: bool,
    pub tag11_args: Seq<(u32, Seq<u8>)>,
}

/// Bytes of the shared argument block that the backup command channel names.
pub const ARG_BLOCK_BYTES: usize = 96;

/// Contents of the argument log.
pub open spec fn args_view(a: Seq<(u32, [u8; 96])>) -> Seq<(u32, Seq<u8>)> {
    Seq::new(a.len(), |i: int| (a[i].0, a[i].1@))
}

impl PxiModel {
    pub open spec fn wf(self) -> bool {
        self.tag11_9to7.len() == 16
    }

    pub open spec fn fresh() -> PxiModel {
        PxiModel {
            log_on: false,
            log: Seq::empty(),
            tag7_sent: 0,
            tag7_rx7: 0,
            tag7_dropped_full: 0,
            last_tag7_data: 0,
            tag11_9to7: Seq::new(16, |i: int| 0u32),
            tag11_9to7_wide: 0,
            tag11_7to9: 0,
            tag11_head: Seq::empty(),
            tag11_argptr: 0,
            tag11_expect_ptr: false,
            tag11_args: Seq::empty(),
        }
    }

    pub open spec fn logged(self, dir: u8, val: u32) -> PxiModel {
        if self.log_on {
            PxiModel { log: capped(self.log, (dir, val), LOG_CAP as int), ..self }
        } else {
            self
        }
    }

    /// Whether a word sent by the first processor makes the argument block
    /// worth recording: a command other than the first, once its pointer is
    /// known.
    pub open spec fn wants_args(self, val: u32) -> bool {
        val % 32 == 11 && 1 <= val / 64 < 16 && self.tag11_argptr != 0 && self.tag11_args.len()
            < 12
    }

    /// After a word on the backup command channel; `args` is the argument
    /// block.
    pub open spec fn commanded(self, dir: u8, val: u32, args: Seq<u8>) -> PxiModel {
        if val % 32 != 11 {
            self
        } else {
            let data = val / 64;
            let s = if dir != 9 {
                PxiModel {
                    tag11_7to9: if self.tag11_7to9 == u32::MAX {
                        u32::MAX
                    } else {
                        (self.tag11_7to9 + 1) as u32
                    },
                    ..self
                }
            } else if data < 16 {
                let n = self.tag11_9to7.update(
                    data as int,
                    self.tag11_9to7[data as int].wrapping_add(1),
                );
                if data == 0 {
                    PxiModel { tag11_9to7: n, tag11_expect_ptr: true, ..self }
                } else if self.wants_args(val) {
                    PxiModel {
                        tag11_9to7: n,
                        tag11_args: self.tag11_args.push((data, args)),
                        ..self
                    }
                } else {
                    PxiModel { tag11_9to7: n, ..self }
                }
            } else {
                PxiModel {
                    tag11_9to7_wide: self.tag11_9to7_wide.wrapping_add(1),
                    tag11_argptr: if self.tag11_expect_ptr {
                        data
                    } else {
                        self.tag11_argptr
                    },
                    tag11_expect_ptr: false,
                    ..self
                }
            };
            PxiModel { tag11_head: capped(s.tag11_head, (dir, val), 64), ..s }
        }
    }

    /// After the first processor asked to send a word.
    pub open spec fn sent9(self, val: u32, args: Seq<u8>) -> PxiModel {
        let s = self.logged(9, val);
        let t = if val % 32 == 7 {
            PxiModel {
                tag7_sent: s.tag7_sent.wrapping_add(1),
                last_tag7_data: val / 64,
                ..s
            }
        } else {
            s
        };
        t.commanded(9, val, args)
    }

    /// After a word of the first processor was dropped on a full queue.
    pub open spec fn dropped9(self, val: u32) -> PxiModel {
        let s = if val % 32 == 7 {
            PxiModel { tag7_dropped_full: self.tag7_dropped_full.wrapping_add(1), ..self }
        } else {
            self
        };
        s.logged(0xF, val)
    }

    /// After the second processor asked to send a word.
    pub open spec fn sent7(self, val: u32) -> PxiModel {
        self.commanded(7, val, Seq::empty()).logged(7, val)
    }

    /// After the second processor took a word.
    pub open spec fn taken7(self, val: u32) -> PxiModel {
        let s = if val % 32 == 7 {
            PxiModel { tag7_rx7: self.tag7_rx7.wrapping_add(1), ..self }
        } else {
            self
        };
        s.logged(1, val)
    }
}

/// Watches on the queues between the processors.
pub struct PxiWatch {
    pub fifo_log_on: bool,
    /// Who did what: 9 and 7 sent, 3 and 1 took, 15 was dropped.
    pub fifo_log: Vec<(u8, u32)>,
    pub tag7_sent: u32,
    pub tag7_rx7: u32,
    pub tag7_dropped_full: u32,
    pub last_tag7_data: u32,
    pub tag11_9to7: [u32; 16],
    pub tag11_9to7_wide: u32,
    pub tag11_7to9: u32,
    pub tag11_head: Vec<(u8, u32)>,
    pub tag11_argptr: u32,
    pub tag11_expect_ptr: bool,
    pub tag11_args: Vec<(u32, [u8; 96])>,
}

impl View for PxiWatch {
    type V = PxiModel;

    open spec fn view(&self) -> PxiModel {
        PxiModel {
            log_on: self.fifo_log_on,
            log: self.fifo_log@,
            tag7_sent: self.tag7_sent,
            tag7_rx7: self.tag7_rx7,
            tag7_dropped_full: self.tag7_dropped_full,
            last_tag7_data: self.last_tag7_data,
            tag11_9to7: self.tag11_9to7@,
            tag11_9to7_wide: self.tag11_9to7_wide,
            tag11_7to9: self.tag11_7to9,
            tag11_head: self.tag11_head@,
            tag11_argptr: self.tag11_argptr,
            tag11_expect_ptr: self.tag11_expect_ptr,
            tag11_args: args_view(self.tag11_args@),
        }
    }
}

impl PxiWatch {
    pub fn new() -> (r: Self)
        ensures
            r@ == PxiModel::fresh(),
            r@.wf(),
    {
        let r = PxiWatch {
            fifo_log_on: false,
            fifo_log: Vec::new(),
            tag7_sent: 0,
            tag7_rx7: 0,
            tag7_dropped_full: 0,
            last_tag7_data: 0,
            tag11_9to7: [0u32; 16],
            tag11_9to7_wide: 0,
            tag11_7to9: 0,
            tag11_head: Vec::new(),
            tag11_argptr: 0,
            tag11_expect_ptr: false,
            tag11_args: Vec::new(),
        };
        assert(r@.tag11_9to7 =~= PxiModel::fresh().tag11_9to7);
        assert(r@.tag11_args =~= PxiModel::fresh().tag11_args);
        r
    }

    pub fn log(&mut self, dir: u8, val: u32)
        requires
            old(self)@.wf(),
        ensures
            final(self)@ == old(self)@.logged(dir, val),
            final(self)@.wf(),
    {
        if self.fifo_log_on {
            push_capped(&mut self.fifo_log, (dir, val), LOG_CAP);
        }
    }

    pub fn wants_args(&self, val: u32) -> (b: bool)
        ensures
            b == self@.wants_args(val),
    {
        val % 32 == 11 && 1 <= val / 64 && val / 64 < 16 && self.tag11_argptr != 0
            && self.tag11_args.len() < 12
    }

    pub fn argptr(&self) -> (a: u32)
        ensures
            a == self@.tag11_argptr,
    {
        self.tag11_argptr
    }

    fn command(&mut self, dir: u8, val: u32, args: [u8; 96])
        requires
            old(self)@.wf(),
        ensures
            final(self)@ == old(self)@.commanded(dir, val, args@),
            final(self)@.wf(),
    {
        if val % 32 != 11 {
            return;
        }
        let data: u32 = val / 64;
        if dir != 9 {
            self.tag11_7to9 = self.tag11_7to9.saturating_add(1);
        } else if data < 16 {
            let wants: bool = self.wants_args(val);
            let i: usize = data as usize;
            self.tag11_9to7[i] = self.tag11_9to7[i].wrapping_add(1);
            if data == 0 {
                self.tag11_expect_ptr = true;
            } else if wants {
                self.tag11_args.push((data, args));
                assert(args_view(self.tag11_args@) =~= old(self)@.tag11_args.push((data, args@)));
            }
        } else {
            self.tag11_9to7_wide = self.tag11_9to7_wide.wrapping_add(1);
            if self.tag11_expect_ptr {
                self.tag11_argptr = data;
                self.tag11_expect_ptr = false;
            }
        }
        push_capped(&mut self.tag11_head, (dir, val), 64);
    }

    pub fn sent9(&mut self, val: u32, args: [u8; 96])
        requires
            old(self)@.wf(),
        ensures
            final(self)@ == old(self)@.sent9(val, args@),
            final(self)@.wf(),
    {
        self.log(9, val);
        if val % 32 == 7 {
            self.tag7_sent = self.tag7_sent.wrapping_add(1);
            self.last_tag7_data = val / 64;
        }
        self.command(9, val, args);
    }

    pub fn dropped9(&mut self, val: u32)
        requires
            old(self)@.wf(),
        ensures
            final(self)@ == old(self)@.dropped9(val),
            final(self)@.wf(),
    {
        if val % 32 == 7 {
            self.tag7_dropped_full = self.tag7_dropped_full.wrapping_add(1);
        }
        self.log(0xF, val);
    }

    pub fn sent7(&mut self, val: u32)
        requires
            old(self)@.wf(),
        ensures
            final(self)@ == old(self)@.sent7(val),
            final(self)@.wf(),
    {
        self.command(7, val, [0u8; 96]);
        self.log(7, val);
    }

    pub fn taken7(&mut self, val: u32)
        requires
            old(self)@.wf(),
        ensures
            final(self)@ == old(self)@.taken7(val),
            final(self)@.wf(),
    {
        if val % 32 == 7 {
            self.tag7_rx7 = self.tag7_rx7.wrapping_add(1);
        }
        self.log(1, val);
    }
}

/// Watches on the geometry engine.
pub struct GxWatchModel {
    pub raster_enabled: bool,
    pub swap_vcount: u16,
    pub swaps_total: u32,
    pub swaps_in_visible: u32,
    pub tex_watch: Option<u32>,
    pub tex_watch_all: bool,
    pub tex_log: Seq<(u32, u32, u32)>,
    pub zero_scale_log: Seq<(u32, u32)>,
    pub zero_scale_seen: u32,
}

/// Whether a texture selection is on record for a caller.
pub open spec fn tex_on_record(log: Seq<(u32, u32, u32)>, lr: u32, tex: u32) -> bool {
    exists|i: int| 0 <= i < log.len() && (#[trigger] log[i]).1 == lr && log[i].2 == tex
}

/// Whether a caller is on record.
pub open spec fn scale_on_record(log: Seq<(u32, u32)>, pc: u32, lr: u32) -> bool {
    exists|i: int| 0 <= i < log.len() && (#[trigger] log[i]).0 == pc && log[i].1 == lr
}

impl GxWatchModel {
    pub open spec fn fresh() -> GxWatchModel {
        GxWatchModel {
            raster_enabled: true,
            swap_vcount: 0,
            swaps_total: 0,
            swaps_in_visible: 0,
            tex_watch: None,
            tex_watch_all: false,
            tex_log: Seq::empty(),
            zero_scale_log: Seq::empty(),
            zero_scale_seen: 0,
        }
    }

    /// Records the caller of a zero scale, once per caller, when a new one was
    /// committed.
    pub open spec fn scale_noted(self, zeros: u32, pc: u32, lr: u32) -> GxWatchModel {
        if zeros == self.zero_scale_seen {
            self
        } else {
            GxWatchModel {
                zero_scale_seen: zeros,
                zero_scale_log: if scale_on_record(self.zero_scale_log, pc, lr) {
                    self.zero_scale_log
                } else {
                    capped(self.zero_scale_log, (pc, lr), WATCH_CAP as int)
                },
                ..self
            }
        }
    }

    /// Records the caller of a watched texture selection.
    pub open spec fn tex_noted(self, tex: u32, pc: u32, lr: u32) -> GxWatchModel {
        let wanted = match self.tex_watch {
            Some(want) => tex % 0x1_0000 == want % 0x1_0000,
            None => self.tex_watch_all,
        };
        if !wanted || (self.tex_watch_all && tex_on_record(self.tex_log, lr, tex)) {
            self
        } else {
            GxWatchModel { tex_log: capped(self.tex_log, (pc, lr, tex), WATCH_CAP as int), ..self }
        }
    }

    /// After a geometry word was taken.
    pub open spec fn noted(self, zeros: u32, tex: u32, pc: u32, lr: u32) -> GxWatchModel {
        self.scale_noted(zeros, pc, lr).tex_noted(tex, pc, lr)
    }

    /// After a buffer swap on a scan line.
    pub open spec fn swapped(self, vcount: u16) -> GxWatchModel {
        GxWatchModel {
            swap_vcount: vcount,
            swaps_total: self.swaps_total.wrapping_add(1),
            swaps_in_visible: if vcount < 192 {
                self.swaps_in_visible.wrapping_add(1)
            } else {
                self.swaps_in_visible
            },
            ..self
        }
    }
}

/// Watches on the geometry engine.
pub struct GxWatch {
    /// Whether the next swap produces pixels.
    pub gx_raster_enabled: bool,
    /// Scan line of the last swap.
    pub gx_swap_vcount: u16,
    pub gx_swaps_total: u32,
    /// Swaps on a visible scan line.
    pub gx_swaps_in_visible: u32,
    /// Texture whose selections are recorded, by its image address.
    pub gx_tex_watch: Option<u32>,
    /// Record every selection, once per caller and texture.
    pub gx_tex_watch_all: bool,
    /// Instruction address, link register, texture.
    pub gx_tex_watch_pcs: Vec<(u32, u32, u32)>,
    /// Callers that committed a zero scale.
    pub gx_zero_scale_pcs: Vec<(u32, u32)>,
    pub gx_zero_scale_seen: u32,
}

impl View for GxWatch {
    type V = GxWatchModel;

    open spec fn view(&self) -> GxWatchModel {
        GxWatchModel {
            raster_enabled: self.gx_raster_enabled,
            swap_vcount: self.gx_swap_vcount,
            swaps_total: self.gx_swaps_total,
            swaps_in_visible: self.gx_swaps_in_visible,
            tex_watch: self.gx_tex_watch,
            tex_watch_all: self.gx_tex_watch_all,
            tex_log: self.gx_tex_watch_pcs@,
            zero_scale_log: self.gx_zero_scale_pcs@,
            zero_scale_seen: self.gx_zero_scale_seen,
        }
    }
}

impl GxWatch {
    pub fn new() -> (r: Self)
        ensures
            r@ == GxWatchModel::fresh(),
    {
        GxWatch {
            gx_raster_enabled: true,
            gx_swap_vcount: 0,
            gx_swaps_total: 0,
            gx_swaps_in_visible: 0,
            gx_tex_watch: None,
            gx_tex_watch_all: false,
            gx_tex_watch_pcs: Vec::new(),
            gx_zero_scale_pcs: Vec::new(),
            gx_zero_scale_seen: 0,
        }
    }

    pub fn raster_enabled(&self) -> (b: bool)
        ensures
            b == self@.raster_enabled,
    {
        self.gx_raster_enabled
    }

    fn scale_known(&self, pc: u32, lr: u32) -> (b: bool)
        ensures
            b == scale_on_record(self@.zero_scale_log, pc, lr),
    {
        let mut i: usize = 0;
        while i < self.gx_zero_scale_pcs.len()
            invariant
                0 <= i <= self.gx_zero_scale_pcs@.len(),
                forall|k: int|
                    0 <= k < i ==> !((#[trigger] self.gx_zero_scale_pcs@[k]).0 == pc
                        && self.gx_zero_scale_pcs@[k].1 == lr),
            decreases self.gx_zero_scale_pcs@.len() - i,
        {
            let e: (u32, u32) = self.gx_zero_scale_pcs[i];
            if e.0 == pc && e.1 == lr {
                assert(self@.zero_scale_log[i as int].0 == pc);
                return true;
            }
            i = i + 1;
        }
        false
    }

    fn tex_known(&self, lr: u32, tex: u32) -> (b: bool)
        ensures
            b == tex_on_record(self@.tex_log, lr, tex),
    {
        let mut i: usize = 0;
        while i < self.gx_tex_watch_pcs.len()
            invariant
                0 <= i <= self.gx_tex_watch_pcs@.len(),
                forall|k: int|
                    0 <= k < i ==> !((#[trigger] self.gx_tex_watch_pcs@[k]).1 == lr
                        && self.gx_tex_watch_pcs@[k].2 == tex),
            decreases self.gx_tex_watch_pcs@.len() - i,
        {
            let e: (u32, u32, u32) = self.gx_tex_watch_pcs[i];
            if e.1 == lr && e.2 == tex {
                assert(self@.tex_log[i as int].1 == lr);
                return true;
            }
            i = i + 1;
        }
        false
    }

    pub fn note(&mut self, zeros: u32, tex: u32, pc: u32, lr: u32)
        ensures
            final(self)@ == old(self)@.noted(zeros, tex, pc, lr),
    {
        if zeros != self.gx_zero_scale_seen {
            self.gx_zero_scale_seen = zeros;
            if !self.scale_known(pc, lr) {
                push_capped(&mut self.gx_zero_scale_pcs, (pc, lr), WATCH_CAP);
            }
        }
        assert(self@ == old(self)@.scale_noted(zeros, pc, lr));
        let wanted: bool = match self.gx_tex_watch {
            Some(want) => tex % 0x1_0000 == want % 0x1_0000,
            None => self.gx_tex_watch_all,
        };
        if !wanted {
            return;
        }
        if self.gx_tex_watch_all && self.tex_known(lr, tex) {
            return;
        }
        push_capped(&mut self.gx_tex_watch_pcs, (pc, lr, tex), WATCH_CAP);
    }

    pub fn swap(&mut self, vcount: u16)
        ensures
            final(self)@ == old(self)@.swapped(vcount),
    {
        self.gx_swap_vcount = vcount;
        self.gx_swaps_total = self.gx_swaps_total.wrapping_add(1);
        if vcount < 192 {
            self.gx_swaps_in_visible = self.gx_swaps_in_visible.wrapping_add(1);
        }
    }
}

/// The bounded logs never outgrow their bounds.
pub proof fn law_logs_are_bounded(
    s: StoreModel,
    p: PxiModel,
    g: GxWatchModel,
    arm9: bool,
    addr: u32,
    val: u32,
)
    requires
        s.calib_log.len() <= CALIB_CAP,
        s.ram_log.len() <= WATCH_CAP,
        p.log.len() <= LOG_CAP,
        p.tag11_head.len() <= 64,
        g.tex_log.len() <= WATCH_CAP,
    ensures
        s.byte_stored(arm9, addr, (val % 256) as u8).calib_log.len() <= CALIB_CAP,
        s.byte_stored(arm9, addr, (val % 256) as u8).ram_log.len() <= WATCH_CAP,
        p.sent9(val, Seq::empty()).log.len() <= LOG_CAP,
        p.sent9(val, Seq::empty()).tag11_head.len() <= 64,
        g.tex_noted(val, addr, addr).tex_log.len() <= WATCH_CAP,
{
}

} // verus!
