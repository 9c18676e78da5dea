//! The memory system: memories, registers and devices of both processors.
//!
//! `NdsMmu` holds the state and `MmuModel` is its mathematical image, over which
//! the contracts of the submodules are stated.

use vstd::prelude::*;
use crate::apu::{ApuModel, NdsApu};
use crate::backup::{BackupKind, BackupModel, NdsBackup};
use crate::gx::{GxDecoder, GxModel};
use crate::ipc::{IpcModel, IpcState};
use crate::keys::ButtonState;
use crate::maths::MathsUnit;
use crate::mmu::aux::{AuxBus, AuxModel};
use crate::mmu::census::{DmaModel, DmaState, IrqState};
use crate::mmu::code::{CodeModel, CodeTracker};
use crate::mmu::memory::{Memories, RamModel};
use crate::mmu::watch::{
    Census, GxWatch, GxWatchModel, PxiModel, PxiWatch, StoreModel, StoreWatch,
};
use crate::rtc::{NdsRtc, RtcModel};
use crate::spi::{SpiController, SpiModel};
use crate::tcm;
use crate::tcm::{Cp15Registers, TcmMap};
use crate::timers;
use crate::timers::{NdsTimers, TimersModel};
use crate::vram::{VramManager, VramModel};

pub mod aux;
pub mod bytewise;
pub mod card;
pub mod census;
pub mod code;
pub mod decode;
pub mod frame;
pub mod laws;
pub mod map;
pub mod memory;
pub mod pxi;
pub mod registers;
pub mod regs;
pub mod snapshot;
pub mod sound;
pub mod store;
pub mod transfers;
pub mod watch;

verus! {

/// Bytes of each processor's register block.
pub const IO_BYTES: usize = 0x10_0000;

/// Cartridge block transfer.
#[derive(Clone, Copy, Debug, PartialEq, Eq, Structural)]
pub struct GamecardState {
    /// Offset in the cartridge of the next word.
    pub src: u32,
    /// Bytes left in the block; zero when idle.
    pub bytes_left: u32,
    /// A constant delivered in place of cartridge data.
    pub fill: Option<u32>,
}

impl GamecardState {
    pub open spec fn idle() -> GamecardState {
        GamecardState { src: 0, bytes_left: 0, fill: None }
    }

    pub fn new() -> (r: Self)
        ensures
            r == GamecardState::idle(),
    {
        GamecardState { src: 0, bytes_left: 0, fill: None }
    }
}

/// Sound state between renderings.
#[derive(Clone, Copy, Debug, PartialEq, Eq, Structural)]
pub struct SoundClock {
    /// Cycles accepted but not rendered yet.
    pub pending: u32,
    /// A register write makes the pending cycles due.
    pub dirty: bool,
}

impl SoundClock {
    pub open spec fn settled() -> SoundClock {
        SoundClock { pending: 0, dirty: false }
    }
}

/// Mathematical state of the memory system.
pub struct MmuModel {
    pub ram: RamModel,
    pub code: CodeModel,
    pub irq: IrqState,
    pub aux: AuxModel,
    pub dma: DmaModel,
    pub stores: StoreModel,
    pub pxi: PxiModel,
    pub gx_watch: GxWatchModel,
    pub census: Census,
    pub vram: VramModel,
    pub wram_control: u8,
    pub ipc: IpcModel,
    pub cp15: Cp15Registers,
    pub spi: SpiModel,
    pub backup: BackupModel,
    pub buttons: ButtonState,
    pub io9: Seq<u8>,
    pub io7: Seq<u8>,
    pub rom: Seq<u8>,
    pub gamecard: GamecardState,
    pub has_3d: bool,
    pub timers9: TimersModel,
    pub timers7: TimersModel,
    pub rtc: RtcModel,
    pub apu: ApuModel,
    pub sound: SoundClock,
    pub ipc_yield: bool,
    pub gx: GxModel,
    pub maths: MathsUnit,
}

impl MmuModel {
    pub open spec fn wf(self) -> bool {
        &&& self.ram.wf()
        &&& self.code.wf()
        &&& self.dma.wf()
        &&& self.stores.wf()
        &&& self.pxi.wf()
        &&& self.vram.wf()
        &&& self.spi.wf()
        &&& self.backup.wf()
        &&& self.io9.len() == IO_BYTES
        &&& self.io7.len() == IO_BYTES
        &&& self.timers9.wf()
        &&& self.timers7.wf()
        &&& self.rtc.wf()
        &&& self.apu.wf()
        &&& self.gx.wf()
    }

    /// State at power-on, without a cartridge.
    pub open spec fn fresh() -> MmuModel {
        MmuModel {
            ram: RamModel::fresh(),
            code: CodeModel::fresh(),
            irq: IrqState::clear(),
            aux: AuxModel::fresh(),
            dma: DmaModel::fresh(),
            stores: StoreModel::fresh(),
            pxi: PxiModel::fresh(),
            gx_watch: GxWatchModel::fresh(),
            census: Census::zero(),
            vram: VramModel::fresh(),
            wram_control: 0,
            ipc: IpcModel::fresh(),
            cp15: Cp15Registers::cleared(),
            spi: SpiModel::fresh(),
            backup: BackupModel::fresh(BackupKind::Absent),
            buttons: ButtonState::spec_released(),
            io9: memory::zeros(IO_BYTES as nat),
            io7: memory::zeros(IO_BYTES as nat),
            rom: Seq::empty(),
            gamecard: GamecardState::idle(),
            has_3d: false,
            timers9: TimersModel::fresh(),
            timers7: TimersModel::fresh(),
            rtc: RtcModel::fresh(),
            apu: ApuModel::fresh(),
            sound: SoundClock::settled(),
            ipc_yield: false,
            gx: GxModel::fresh(),
            maths: MathsUnit::cleared(),
        }
    }

    /// State with new coprocessor registers: compiled code is discarded because
    /// addresses changed their meaning.
    pub open spec fn with_cp15(self, regs: Cp15Registers) -> MmuModel {
        MmuModel { cp15: regs, code: self.code.invalidated(), ..self }
    }

    /// State with the start-up image pointing at the game's interrupt handler,
    /// whose address stands 0x3FFC past the base of the data memory.
    pub open spec fn with_handler_ptr(self) -> MmuModel {
        MmuModel {
            ram: self.ram.with_handler_ptr(
                tcm::region_base(self.cp15.dtcm_control).wrapping_add(0x3FFC),
            ),
            ..self
        }
    }

    /// State after a reset. The cartridge and its block transfer, the contents
    /// of the save chip, the start-up images, the arithmetic unit and the
    /// diagnostics survive; of the save chip only the transaction is dropped.
    pub open spec fn after_reset(self) -> MmuModel {
        MmuModel {
            ram: self.ram.cleared(),
            code: self.code.invalidated(),
            irq: IrqState::clear(),
            dma: self.dma.rewound(),
            vram: VramModel::fresh(),
            wram_control: 0,
            ipc: IpcModel::fresh(),
            cp15: Cp15Registers::cleared(),
            spi: SpiModel::fresh(),
            backup: self.backup.deselected(),
            buttons: ButtonState::spec_released(),
            io9: memory::zeros(IO_BYTES as nat),
            io7: memory::zeros(IO_BYTES as nat),
            has_3d: false,
            timers9: TimersModel::fresh(),
            timers7: TimersModel::fresh(),
            rtc: RtcModel::fresh(),
            apu: ApuModel::fresh(),
            gx: GxModel::fresh(),
            ..self
        }
    }

    /// State after both timer blocks were fed bus cycles.
    pub open spec fn timers_ticked(self, cycles: u32) -> MmuModel {
        let a = self.timers9.ticked(cycles, self.irq.arm9_if);
        let b = self.timers7.ticked(cycles, self.irq.arm7_if);
        MmuModel {
            timers9: a.0,
            timers7: b.0,
            irq: IrqState { arm9_if: a.1, arm7_if: b.1, ..self.irq },
            ..self
        }
    }

    /// State after the load watch saw a load of the first processor.
    pub open spec fn read_noted(self, addr: u32) -> MmuModel {
        MmuModel {
            stores: self.stores.loaded(addr),
            aux: if addr == 0x0400_01A2 {
                self.aux.logged(1, 0xFF)
            } else {
                self.aux
            },
            ..self
        }
    }

    /// State with the scan-line counter of both processors set.
    pub open spec fn with_vcount(self, val: u16) -> MmuModel {
        let lo = (val % 0x100) as u8;
        let hi = (val / 0x100) as u8;
        MmuModel {
            io9: self.io9.update(6, lo).update(7, hi),
            io7: self.io7.update(6, lo).update(7, hi),
            ..self
        }
    }
}

/// The memory system.
pub struct NdsMmu {
    pub ram: Memories,
    pub code: CodeTracker,
    pub irq: IrqState,
    pub aux: AuxBus,
    pub dma: DmaState,
    pub stores: StoreWatch,
    pub pxi: PxiWatch,
    pub gx_watch: GxWatch,
    pub census: Census,
    pub vram: VramManager,
    /// Allocation of the shared memory.
    pub wram_control: u8,
    pub ipc: IpcState,
    pub tcm: TcmMap,
    pub spi: SpiController,
    /// The cartridge's save chip; it survives a reset.
    pub backup: NdsBackup,
    pub buttons: ButtonState,
    pub arm9_io: Vec<u8>,
    pub arm7_io: Vec<u8>,
    pub rom: Vec<u8>,
    pub gamecard: GamecardState,
    pub has_3d_activity: bool,
    pub timers9: NdsTimers,
    pub timers7: NdsTimers,
    pub rtc: NdsRtc,
    pub apu: NdsApu,
    pub sound: SoundClock,
    /// A processor signalled the other, which should run next.
    pub ipc_yield: bool,
    pub gx: GxDecoder,
    pub maths: MathsUnit,
}

impl View for NdsMmu {
    type V = MmuModel;

    open spec fn view(&self) -> MmuModel {
        MmuModel {
            ram: self.ram@,
            code: self.code@,
            irq: self.irq,
            aux: self.aux@,
            dma: self.dma@,
            stores: self.stores@,
            pxi: self.pxi@,
            gx_watch: self.gx_watch@,
            census: self.census,
            vram: self.vram@,
            wram_control: self.wram_control,
            ipc: self.ipc@,
            cp15: self.tcm@,
            spi: self.spi@,
            backup: self.backup@,
            buttons: self.buttons,
            io9: self.arm9_io@,
            io7: self.arm7_io@,
            rom: self.rom@,
            gamecard: self.gamecard,
            has_3d: self.has_3d_activity,
            timers9: self.timers9@,
            timers7: self.timers7@,
            rtc: self.rtc@,
            apu: self.apu@,
            sound: self.sound,
            ipc_yield: self.ipc_yield,
            gx: self.gx@,
            maths: self.maths,
        }
    }
}

impl NdsMmu {
    /// Powers the memory system on, without a cartridge.
    pub fn new() -> (r: Self)
        ensures
            r@ == MmuModel::fresh(),
            r@.wf(),
    {
        let r = NdsMmu {
            ram: Memories::new(),
            code: CodeTracker::new(),
            irq: IrqState::new(),
            aux: AuxBus::new(),
            dma: DmaState::new(),
            stores: StoreWatch::new(),
            pxi: PxiWatch::new(),
            gx_watch: GxWatch::new(),
            census: Census::new(),
            vram: VramManager::new(),
            wram_control: 0,
            ipc: IpcState::new(),
            tcm: TcmMap::new(Cp15Registers::default()),
            spi: SpiController::new(),
            backup: NdsBackup::new(BackupKind::Absent),
            buttons: ButtonState::released(),
            arm9_io: vec![0u8; IO_BYTES],
            arm7_io: vec![0u8; IO_BYTES],
            rom: Vec::new(),
            gamecard: GamecardState::new(),
            has_3d_activity: false,
            timers9: NdsTimers::default(),
            timers7: NdsTimers::default(),
            rtc: NdsRtc::default(),
            apu: NdsApu::new(),
            sound: SoundClock { pending: 0, dirty: false },
            ipc_yield: false,
            gx: GxDecoder::new(),
            maths: MathsUnit::new(),
        };
        assert(r@.io9 =~= memory::zeros(IO_BYTES as nat));
        assert(r@.io7 =~= memory::zeros(IO_BYTES as nat));
        r
    }

    /// Resets everything but the cartridge, the contents of the save chip, the
    /// start-up images and the diagnostics.
    pub fn reset(&mut self)
        requires
            old(self)@.wf(),
        ensures
            final(self)@ == old(self)@.after_reset(),
            final(self)@.wf(),
    {
        self.ram.clear();
        self.arm9_io = vec![0u8; IO_BYTES];
        self.arm7_io = vec![0u8; IO_BYTES];
        assert(self@.io9 =~= memory::zeros(IO_BYTES as nat));
        assert(self@.io7 =~= memory::zeros(IO_BYTES as nat));
        self.vram = VramManager::new();
        self.wram_control = 0;
        self.ipc = IpcState::new();
        self.timers9 = NdsTimers::default();
        self.timers7 = NdsTimers::default();
        self.rtc = NdsRtc::default();
        self.apu = NdsApu::new();
        self.dma.rewind();
        self.set_cp15(Cp15Registers::default());
        self.spi = SpiController::new();
        self.gx = GxDecoder::new();
        self.backup.deselect();
        self.buttons = ButtonState::released();
        self.irq = IrqState::new();
        self.has_3d_activity = false;
    }

    /// Coprocessor registers that address decoding reads.
    pub fn cp15(&self) -> (r: Cp15Registers)
        ensures
            r == self@.cp15,
    {
        self.tcm.registers()
    }

    /// Installs coprocessor registers.
    pub fn set_cp15(&mut self, regs: Cp15Registers)
        ensures
            final(self)@ == old(self)@.with_cp15(regs),
    {
        self.tcm.set(regs);
        self.code.invalidate_all();
    }

    /// Version of a tracked page, zero for one that is not tracked.
    pub fn code_version(&self, page: usize) -> (v: u32)
        ensures
            v == self@.code.version(page as int),
    {
        self.code.version(page)
    }

    /// Discards everything compiled.
    pub fn invalidate_all_code(&mut self)
        ensures
            final(self)@ == (MmuModel { code: old(self)@.code.invalidated(), ..old(self)@ }),
    {
        self.code.invalidate_all();
    }

    /// Records that a page holds compiled code of the processors in `mask`.
    pub fn mark_code_page(&mut self, page: usize, mask: u8)
        ensures
            final(self)@ == (MmuModel {
                code: old(self)@.code.marked(page as int, mask),
                ..old(self)@
            }),
    {
        self.code.mark(page, mask);
    }

    /// Whether an address falls in the enabled instruction memory.
    pub fn in_itcm_arm9(&self, addr: u32) -> (b: bool)
        ensures
            b == self@.cp15.in_itcm(addr),
    {
        self.tcm.in_itcm(addr)
    }

    /// Whether an address falls in the enabled data memory.
    pub fn in_dtcm_arm9(&self, addr: u32) -> (b: bool)
        ensures
            b == self@.cp15.in_dtcm(addr),
    {
        self.tcm.in_dtcm(addr)
    }

    pub fn itcm_enabled(&self) -> (b: bool)
        ensures
            b == self@.cp15.itcm_on(),
    {
        (self.tcm.registers().control & 0x4_0000) != 0
    }

    pub fn dtcm_enabled(&self) -> (b: bool)
        ensures
            b == self@.cp15.dtcm_on(),
    {
        (self.tcm.registers().control & 0x1_0000) != 0
    }

    pub fn itcm_base(&self) -> (a: u32)
        ensures
            a == tcm::region_base(self@.cp15.itcm_control),
    {
        tcm::base_of(self.tcm.registers().itcm_control)
    }

    pub fn dtcm_base(&self) -> (a: u32)
        ensures
            a == tcm::region_base(self@.cp15.dtcm_control),
    {
        tcm::base_of(self.tcm.registers().dtcm_control)
    }

    /// Whether an address falls in the instruction region, enabled or not.
    pub fn in_itcm_range_arm9(&self, addr: u32) -> (b: bool)
        ensures
            b == tcm::in_region(self@.cp15.itcm_control, addr),
    {
        proof {
            tcm::lemma_size_fits(self@.cp15.itcm_control);
        }
        tcm::TcmWindow::derive(true, self.tcm.registers().itcm_control).contains(addr)
    }

    /// Whether an address falls in the data region, enabled or not.
    pub fn in_dtcm_range_arm9(&self, addr: u32) -> (b: bool)
        ensures
            b == tcm::in_region(self@.cp15.dtcm_control, addr),
    {
        proof {
            tcm::lemma_size_fits(self@.cp15.dtcm_control);
        }
        tcm::TcmWindow::derive(true, self.tcm.registers().dtcm_control).contains(addr)
    }

    /// Points the start-up image's interrupt handler at the game's handler
    /// pointer, which moves with the data memory.
    pub fn update_arm9_irq_handler_ptr(&mut self)
        requires
            old(self)@.wf(),
        ensures
            final(self)@ == old(self)@.with_handler_ptr(),
            final(self)@.wf(),
    {
        let ptr: u32 = self.dtcm_base().wrapping_add(0x3FFC);
        self.ram.put_word(memory::Spot::Bios9(0x30), ptr);
    }

    /// Records a load of the first processor for the load watch.
    pub fn tp_note_read(&mut self, addr: u32)
        requires
            old(self)@.wf(),
        ensures
            final(self)@ == old(self)@.read_noted(addr),
            final(self)@.wf(),
    {
        self.stores.load(addr);
        if addr == 0x0400_01A2 {
            self.aux.log(1, 0xFF);
        }
    }

    /// Feeds bus cycles to both timer blocks; overflows raise their interrupts.
    pub fn tick_nds_timers(&mut self, cycles: u32)
        requires
            old(self)@.wf(),
        ensures
            final(self)@ == old(self)@.timers_ticked(cycles),
            final(self)@.wf(),
    {
        let if9: u32 = self.timers9.tick(cycles, self.irq.arm9_if);
        let if7: u32 = self.timers7.tick(cycles, self.irq.arm7_if);
        self.irq.arm9_if = if9;
        self.irq.arm7_if = if7;
        proof {
            self.timers9.lemma_wf();
            self.timers7.lemma_wf();
        }
    }

    pub fn trigger_interrupt_arm9(&mut self, mask: u32)
        ensures
            final(self)@ == (MmuModel { irq: old(self)@.irq.raised9(mask), ..old(self)@ }),
    {
        self.irq.raise9(mask);
    }

    pub fn trigger_interrupt_arm7(&mut self, mask: u32)
        ensures
            final(self)@ == (MmuModel { irq: old(self)@.irq.raised7(mask), ..old(self)@ }),
    {
        self.irq.raise7(mask);
    }

    pub fn set_vcount(&mut self, val: u16)
        requires
            old(self)@.wf(),
        ensures
            final(self)@ == old(self)@.with_vcount(val),
            final(self)@.wf(),
    {
        let lo: u8 = (val % 0x100) as u8;
        let hi: u8 = (val / 0x100) as u8;
        self.arm9_io[6] = lo;
        self.arm9_io[7] = hi;
        self.arm7_io[6] = lo;
        self.arm7_io[7] = hi;
    }

    /// Key register, active low.
    pub fn get_keyinput(&self) -> (k: u16)
        ensures
            k == self@.buttons.spec_keyinput(),
    {
        self.buttons.keyinput()
    }

    /// Second key register, active low; the hinge reads open.
    pub fn get_extkeyin(&self) -> (k: u16)
        ensures
            k == self@.buttons.spec_extkeyin(),
    {
        self.buttons.extkeyin()
    }
}

/// A reset does not touch the player's save, the cartridge or the start-up
/// images, and ends the save chip's transaction.
pub proof fn law_reset_keeps_the_save(m: MmuModel)
    ensures
        m.after_reset().backup.data == m.backup.data,
        m.after_reset().backup.kind == m.backup.kind,
        m.after_reset().backup.dirty == m.backup.dirty,
        m.after_reset().backup.cmd is None,
        m.after_reset().rom == m.rom,
        m.after_reset().ram.bios9 == m.ram.bios9,
        m.after_reset().ram.bios7 == m.ram.bios7,
{
}

/// Reconfiguring the memories discards everything compiled.
pub proof fn law_remapping_discards_compiled_code(m: MmuModel, regs: Cp15Registers, page: int)
    requires
        m.wf(),
        0 <= page < code::CODE_PAGES,
    ensures
        m.with_cp15(regs).code.version(page) == m.code.version(page).wrapping_add(1),
        m.with_cp15(regs).code.epoch9 == m.code.epoch9.wrapping_add(1),
        m.with_cp15(regs).code.epoch7 == m.code.epoch7.wrapping_add(1),
{
}

/// Feeding both processors' timers in two slices is feeding them at once.
pub proof fn law_timers_are_independent_of_slicing(m: MmuModel, a: u32, b: u32)
    requires
        m.wf(),
        a + b <= u32::MAX,
    ensures
        m.timers_ticked(a).timers_ticked(b) == m.timers_ticked((a + b) as u32),
{
    timers::law_timers_are_independent_of_slicing(m.timers9, a, b, m.irq.arm9_if);
    timers::law_timers_are_independent_of_slicing(m.timers7, a, b, m.irq.arm7_if);
}

} // verus!
