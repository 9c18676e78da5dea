//! Register file and pipeline of one processor.

use vstd::prelude::*;

verus! {

/// Interrupts are masked.
pub const FLAG_I: u32 = 0x80;

/// The short instruction encoding is selected.
pub const FLAG_T: u32 = 0x20;

/// Processor modes.
#[derive(Clone, Copy, Debug, PartialEq, Eq, Structural)]
pub enum CpuMode {
    User,
    Fiq,
    Irq,
    Supervisor,
    Abort,
    Undefined,
    System,
}

/// Which set of software-interrupt services the interpreter provides.
#[derive(Clone, Copy, Debug, PartialEq, Eq, Structural)]
pub enum SwiMode {
    Gba,
    Nds,
}

impl CpuMode {
    /// Bank of the registers that a mode has to itself.
    pub open spec fn bank(self) -> int {
        match self {
            CpuMode::Fiq => 1,
            CpuMode::Irq => 2,
            CpuMode::Supervisor => 3,
            CpuMode::Abort => 4,
            CpuMode::Undefined => 5,
            _ => 0,
        }
    }

    /// Mode field of the status register.
    pub open spec fn bits(self) -> u32 {
        match self {
            CpuMode::User => 0x10,
            CpuMode::Fiq => 0x11,
            CpuMode::Irq => 0x12,
            CpuMode::Supervisor => 0x13,
            CpuMode::Abort => 0x17,
            CpuMode::Undefined => 0x1B,
            CpuMode::System => 0x1F,
        }
    }

    /// Mode that a status register selects; a reserved field selects System.
    pub open spec fn of(cpsr: u32) -> CpuMode {
        let b = cpsr % 32;
        if b == 0x10 {
            CpuMode::User
        } else if b == 0x11 {
            CpuMode::Fiq
        } else if b == 0x12 {
            CpuMode::Irq
        } else if b == 0x13 {
            CpuMode::Supervisor
        } else if b == 0x17 {
            CpuMode::Abort
        } else if b == 0x1B {
            CpuMode::Undefined
        } else {
            CpuMode::System
        }
    }

    fn bank_index(self) -> (b: usize)
        ensures
            b == self.bank(),
            b < 6,
    {
        match self {
            CpuMode::Fiq => 1,
            CpuMode::Irq => 2,
            CpuMode::Supervisor => 3,
            CpuMode::Abort => 4,
            CpuMode::Undefined => 5,
            _ => 0,
        }
    }

    fn field(self) -> (b: u32)
        ensures
            b == self.bits(),
            b < 32,
    {
        match self {
            CpuMode::User => 0x10,
            CpuMode::Fiq => 0x11,
            CpuMode::Irq => 0x12,
            CpuMode::Supervisor => 0x13,
            CpuMode::Abort => 0x17,
            CpuMode::Undefined => 0x1B,
            CpuMode::System => 0x1F,
        }
    }
}

/// Mathematical state of a register file.
pub struct RegsModel {
    pub gpr: Seq<u32>,
    pub cpsr: u32,
    pub spsr: u32,
    pub bank_sp: Seq<u32>,
    pub bank_lr: Seq<u32>,
    pub bank_spsr: Seq<u32>,
    pub user_high: Seq<u32>,
    pub fiq_high: Seq<u32>,
}

pub open spec fn zero_words(n: nat) -> Seq<u32> {
    Seq::new(n, |i: int| 0u32)
}

impl RegsModel {
    pub open spec fn wf(self) -> bool {
        &&& self.gpr.len() == 16
        &&& self.bank_sp.len() == 6
        &&& self.bank_lr.len() == 6
        &&& self.bank_spsr.len() == 6
        &&& self.user_high.len() == 5
        &&& self.fiq_high.len() == 5
    }

    /// Everything zero, in Supervisor mode with interrupts masked.
    pub open spec fn fresh() -> RegsModel {
        RegsModel {
            gpr: zero_words(16),
            cpsr: 0xD3,
            spsr: 0,
            bank_sp: zero_words(6),
            bank_lr: zero_words(6),
            bank_spsr: zero_words(6),
            user_high: zero_words(5),
            fiq_high: zero_words(5),
        }
    }

    pub open spec fn flag(self, mask: u32) -> bool {
        (self.cpsr & mask) != 0
    }

    pub open spec fn with_flag(self, mask: u32, on: bool) -> RegsModel {
        RegsModel {
            cpsr: if on {
                self.cpsr | mask
            } else {
                self.cpsr & !mask
            },
            ..self
        }
    }

    pub open spec fn with_gpr(self, i: int, v: u32) -> RegsModel {
        RegsModel { gpr: self.gpr.update(i, v), ..self }
    }

    /// The banks after the registers of a mode that is left went into them.
    pub open spec fn saved(self, old: CpuMode, new: CpuMode) -> RegsModel {
        let b = old.bank();
        RegsModel {
            bank_sp: self.bank_sp.update(b, self.gpr[13]),
            bank_lr: self.bank_lr.update(b, self.gpr[14]),
            bank_spsr: self.bank_spsr.update(b, self.spsr),
            fiq_high: if old is Fiq {
                self.gpr.subrange(8, 13)
            } else {
                self.fiq_high
            },
            user_high: if new is Fiq {
                self.gpr.subrange(8, 13)
            } else {
                self.user_high
            },
            ..self
        }
    }

    /// The registers of a mode that is entered, out of their banks.
    pub open spec fn loaded(self, old: CpuMode, new: CpuMode) -> RegsModel {
        let c = new.bank();
        RegsModel {
            gpr: Seq::new(
                16,
                |i: int|
                    if i == 13 {
                        self.bank_sp[c]
                    } else if i == 14 {
                        self.bank_lr[c]
                    } else if 8 <= i < 13 && old is Fiq {
                        self.user_high[i - 8]
                    } else if 8 <= i < 13 && new is Fiq {
                        self.fiq_high[i - 8]
                    } else {
                        self.gpr[i]
                    },
            ),
            spsr: self.bank_spsr[c],
            ..self
        }
    }

    /// After a change of mode. Modes of one bank share all registers.
    pub open spec fn swapped(self, old: CpuMode, new: CpuMode) -> RegsModel {
        let r = if old.bank() == new.bank() {
            self
        } else {
            self.saved(old, new).loaded(old, new)
        };
        RegsModel { cpsr: (self.cpsr - self.cpsr % 32 + new.bits()) as u32, ..r }
    }

    /// After an interrupt was taken: the old status is saved, the link register
    /// names the return, the long encoding is selected, interrupts are masked
    /// and execution goes on at the vector.
    pub open spec fn interrupted(self, vector: u32) -> RegsModel {
        let link = if self.flag(FLAG_T) {
            self.gpr[15]
        } else {
            self.gpr[15].wrapping_sub(4)
        };
        let r = self.swapped(CpuMode::of(self.cpsr), CpuMode::Irq);
        let s = RegsModel { spsr: self.cpsr, ..r };
        s.with_gpr(14, link).with_flag(FLAG_T, false).with_flag(FLAG_I, true).with_gpr(15, vector)
    }
}

/// Registers of one processor. Modes have a stack pointer, a link register and
/// a saved status of their own; the fast-interrupt mode has five more registers.
pub struct Registers {
    pub gpr: [u32; 16],
    pub cpsr: u32,
    pub spsr: u32,
    pub bank_sp: [u32; 6],
    pub bank_lr: [u32; 6],
    pub bank_spsr: [u32; 6],
    pub user_high: [u32; 5],
    pub fiq_high: [u32; 5],
}

impl View for Registers {
    type V = RegsModel;

    open spec fn view(&self) -> RegsModel {
        RegsModel {
            gpr: self.gpr@,
            cpsr: self.cpsr,
            spsr: self.spsr,
            bank_sp: self.bank_sp@,
            bank_lr: self.bank_lr@,
            bank_spsr: self.bank_spsr@,
            user_high: self.user_high@,
            fiq_high: self.fiq_high@,
        }
    }
}

impl Registers {
    pub fn new() -> (r: Self)
        ensures
            r@ == RegsModel::fresh(),
            r@.wf(),
    {
        let r = Registers {
            gpr: [0u32; 16],
            cpsr: 0xD3,
            spsr: 0,
            bank_sp: [0u32; 6],
            bank_lr: [0u32; 6],
            bank_spsr: [0u32; 6],
            user_high: [0u32; 5],
            fiq_high: [0u32; 5],
        };
        proof {
            let f = RegsModel::fresh();
            assert(r@.gpr =~= f.gpr);
            assert(r@.bank_sp =~= f.bank_sp);
            assert(r@.bank_lr =~= f.bank_lr);
            assert(r@.bank_spsr =~= f.bank_spsr);
            assert(r@.user_high =~= f.user_high);
            assert(r@.fiq_high =~= f.fiq_high);
        }
        r
    }

    pub fn get_flag(&self, mask: u32) -> (b: bool)
        ensures
            b == self@.flag(mask),
    {
        (self.cpsr & mask) != 0
    }

    pub fn set_flag(&mut self, mask: u32, on: bool)
        ensures
            final(self)@ == old(self)@.with_flag(mask, on),
    {
        if on {
            self.cpsr = self.cpsr | mask;
        } else {
            self.cpsr = self.cpsr & !mask;
        }
    }

    pub fn get_mode(&self) -> (m: CpuMode)
        ensures
            m == CpuMode::of(self@.cpsr),
    {
        let b: u32 = self.cpsr % 32;
        if b == 0x10 {
            CpuMode::User
        } else if b == 0x11 {
            CpuMode::Fiq
        } else if b == 0x12 {
            CpuMode::Irq
        } else if b == 0x13 {
            CpuMode::Supervisor
        } else if b == 0x17 {
            CpuMode::Abort
        } else if b == 0x1B {
            CpuMode::Undefined
        } else {
            CpuMode::System
        }
    }

    /// Changes the mode: banked registers are exchanged.
    pub fn swap_mode(&mut self, old_mode: CpuMode, new_mode: CpuMode)
        requires
            old(self)@.wf(),
        ensures
            final(self)@ == old(self)@.swapped(old_mode, new_mode),
            final(self)@.wf(),
    {
        let b: usize = old_mode.bank_index();
        let c: usize = new_mode.bank_index();
        let ghost before = self@;
        if b != c {
            self.bank_sp[b] = self.gpr[13];
            self.bank_lr[b] = self.gpr[14];
            self.bank_spsr[b] = self.spsr;
            let high: [u32; 5] = [
                self.gpr[8],
                self.gpr[9],
                self.gpr[10],
                self.gpr[11],
                self.gpr[12],
            ];
            assert(high@ =~= before.gpr.subrange(8, 13));
            if matches!(old_mode, CpuMode::Fiq) {
                self.fiq_high = high;
                self.set_high(self.user_high);
            }
            if matches!(new_mode, CpuMode::Fiq) {
                self.user_high = high;
                self.set_high(self.fiq_high);
            }
            self.gpr[13] = self.bank_sp[c];
            self.gpr[14] = self.bank_lr[c];
            self.spsr = self.bank_spsr[c];
            assert(self@.gpr =~= before.saved(old_mode, new_mode).loaded(old_mode, new_mode).gpr);
        }
        self.cpsr = self.cpsr - self.cpsr % 32 + new_mode.field();
    }

    fn set_high(&mut self, high: [u32; 5])
        requires
            old(self)@.wf(),
        ensures
            final(self)@ == (RegsModel { gpr: final(self)@.gpr, ..old(self)@ }),
            final(self)@.wf(),
            forall|i: int|
                0 <= i < 16 ==> #[trigger] final(self)@.gpr[i] == if 8 <= i < 13 {
                    high@[i - 8]
                } else {
                    old(self)@.gpr[i]
                },
    {
        self.gpr[8] = high[0];
        self.gpr[9] = high[1];
        self.gpr[10] = high[2];
        self.gpr[11] = high[3];
        self.gpr[12] = high[4];
    }

    /// Takes an interrupt.
    pub fn interrupt(&mut self, vector: u32)
        requires
            old(self)@.wf(),
        ensures
            final(self)@ == old(self)@.interrupted(vector),
            final(self)@.wf(),
    {
        let old_cpsr: u32 = self.cpsr;
        let mode: CpuMode = self.get_mode();
        let link: u32 = if self.get_flag(FLAG_T) {
            self.gpr[15]
        } else {
            self.gpr[15].wrapping_sub(4)
        };
        self.swap_mode(mode, CpuMode::Irq);
        self.spsr = old_cpsr;
        self.gpr[14] = link;
        self.set_flag(FLAG_T, false);
        self.set_flag(FLAG_I, true);
        self.gpr[15] = vector;
    }
}

/// Mathematical state of one processor's core.
pub struct CoreModel {
    pub regs: RegsModel,
    pub pipeline: Seq<u32>,
    pub halted: bool,
    pub pc_modified: bool,
    pub armv5: bool,
    pub swi_mode: SwiMode,
}

/// Bytes of an instruction.
pub open spec fn width(thumb: bool) -> u32 {
    if thumb {
        2
    } else {
        4
    }
}

/// Address with the bits below an instruction's width clear.
pub open spec fn aligned(pc: u32, thumb: bool) -> u32 {
    (pc - pc % width(thumb)) as u32
}

impl CoreModel {
    pub open spec fn wf(self) -> bool {
        &&& self.regs.wf()
        &&& self.pipeline.len() == 2
    }

    pub open spec fn fresh(armv5: bool) -> CoreModel {
        CoreModel {
            regs: RegsModel::fresh(),
            pipeline: zero_words(2),
            halted: false,
            pc_modified: false,
            armv5,
            swi_mode: SwiMode::Nds,
        }
    }

    pub open spec fn thumb(self) -> bool {
        self.regs.flag(FLAG_T)
    }

    /// Address of the next instruction to fetch.
    pub open spec fn pc(self) -> u32 {
        self.regs.gpr[15]
    }

    /// With the pipeline refilled from the program counter, which then leads by
    /// two instructions. `fetch` is the instruction at an address.
    pub open spec fn flushed(self, fetch: spec_fn(u32) -> u32) -> CoreModel {
        let w = width(self.thumb());
        let a = aligned(self.pc(), self.thumb());
        CoreModel {
            pipeline: seq![fetch(a), fetch(a.wrapping_add(w))],
            regs: self.regs.with_gpr(15, a.wrapping_add((2 * w) as u32)),
            pc_modified: false,
            ..self
        }
    }

    /// With the pipeline moved on by the instruction fetched last.
    pub open spec fn shifted(self, fetched: u32) -> CoreModel {
        CoreModel { pipeline: seq![self.pipeline[1], fetched], ..self }
    }

    /// With the program counter moved past one instruction.
    pub open spec fn advanced(self, thumb: bool) -> CoreModel {
        CoreModel {
            regs: self.regs.with_gpr(15, self.pc().wrapping_add(width(thumb))),
            ..self
        }
    }

    /// After the interpreter executed an instruction: the program counter moves
    /// on unless the instruction set it.
    pub open spec fn finished(self, thumb: bool) -> CoreModel {
        if self.pc_modified {
            self
        } else {
            self.advanced(thumb)
        }
    }

    pub open spec fn interrupted(self, vector: u32) -> CoreModel {
        CoreModel { regs: self.regs.interrupted(vector), pc_modified: true, ..self }
    }
}

/// Core of one processor: registers, pipeline and run state.
pub struct ArmCore {
    pub registers: Registers,
    pub pipeline: [u32; 2],
    /// Waiting for an interrupt request.
    pub halted: bool,
    /// An instruction or an interrupt set the program counter.
    pub pc_modified: bool,
    /// The newer instruction set is available.
    pub armv5: bool,
    pub swi_mode: SwiMode,
}

impl View for ArmCore {
    type V = CoreModel;

    open spec fn view(&self) -> CoreModel {
        CoreModel {
            regs: self.registers@,
            pipeline: self.pipeline@,
            halted: self.halted,
            pc_modified: self.pc_modified,
            armv5: self.armv5,
            swi_mode: self.swi_mode,
        }
    }
}

impl ArmCore {
    pub fn new(armv5: bool) -> (r: Self)
        ensures
            r@ == CoreModel::fresh(armv5),
            r@.wf(),
    {
        let r = ArmCore {
            registers: Registers::new(),
            pipeline: [0u32; 2],
            halted: false,
            pc_modified: false,
            armv5,
            swi_mode: SwiMode::Nds,
        };
        assert(r@.pipeline =~= zero_words(2));
        r
    }

    /// Address to refill the pipeline from.
    pub fn refill_address(&self) -> (a: u32)
        requires
            self@.wf(),
        ensures
            a == aligned(self@.pc(), self@.thumb()),
    {
        let pc: u32 = self.registers.gpr[15];
        if self.registers.get_flag(FLAG_T) {
            pc - pc % 2
        } else {
            pc - pc % 4
        }
    }

    /// Installs the two instructions at the refill address.
    pub fn refill(&mut self, first: u32, second: u32)
        requires
            old(self)@.wf(),
        ensures
            final(self)@ == (CoreModel {
                pipeline: seq![first, second],
                regs: old(self)@.regs.with_gpr(
                    15,
                    aligned(old(self)@.pc(), old(self)@.thumb()).wrapping_add(
                        (2 * width(old(self)@.thumb())) as u32,
                    ),
                ),
                pc_modified: false,
                ..old(self)@
            }),
            final(self)@.wf(),
    {
        let a: u32 = self.refill_address();
        let ahead: u32 = if self.registers.get_flag(FLAG_T) {
            4
        } else {
            8
        };
        self.pipeline = [first, second];
        assert(self.pipeline@ =~= seq![first, second]);
        self.registers.gpr[15] = a.wrapping_add(ahead);
        self.pc_modified = false;
    }

    /// Moves the pipeline on; the instruction that leaves it is to be executed.
    pub fn shift(&mut self, fetched: u32) -> (inst: u32)
        requires
            old(self)@.wf(),
        ensures
            inst == old(self)@.pipeline[0],
            final(self)@ == old(self)@.shifted(fetched),
            final(self)@.wf(),
    {
        let inst: u32 = self.pipeline[0];
        self.pipeline = [self.pipeline[1], fetched];
        assert(self.pipeline@ =~= seq![old(self)@.pipeline[1], fetched]);
        inst
    }

    pub fn advance(&mut self, thumb: bool)
        requires
            old(self)@.wf(),
        ensures
            final(self)@ == old(self)@.advanced(thumb),
            final(self)@.wf(),
    {
        let w: u32 = if thumb {
            2
        } else {
            4
        };
        self.registers.gpr[15] = self.registers.gpr[15].wrapping_add(w);
    }

    /// Ends an instruction that the interpreter executed.
    pub fn finish(&mut self, thumb: bool)
        requires
            old(self)@.wf(),
        ensures
            final(self)@ == old(self)@.finished(thumb),
            final(self)@.wf(),
    {
        if !self.pc_modified {
            self.advance(thumb);
        }
    }

    pub fn interrupt(&mut self, vector: u32)
        requires
            old(self)@.wf(),
        ensures
            final(self)@ == old(self)@.interrupted(vector),
            final(self)@.wf(),
    {
        self.registers.interrupt(vector);
        self.pc_modified = true;
    }
}

/// Leaving a mode and coming back restores every register.
pub proof fn law_mode_round_trip(r: RegsModel, a: CpuMode, b: CpuMode)
    requires
        r.wf(),
        r.cpsr % 32 == a.bits(),
    ensures
        r.swapped(a, b).swapped(b, a).gpr == r.gpr,
        r.swapped(a, b).swapped(b, a).cpsr == r.cpsr,
        r.swapped(a, b).swapped(b, a).spsr == r.spsr,
{
    assert(r.swapped(a, b).swapped(b, a).gpr =~= r.gpr);
}

/// A mode's number selects that mode.
pub proof fn law_mode_number_selects_the_mode(r: RegsModel, a: CpuMode, b: CpuMode)
    ensures
        CpuMode::of(r.swapped(a, b).cpsr) == b,
{
}

/// Taking an interrupt keeps what the handler needs to return: the status, and
/// the address of the instruction that would have run next plus four. The
/// handler runs in the interrupt mode, in the long encoding, with interrupts
/// masked.
pub proof fn law_interrupt_can_return(c: CoreModel, vector: u32)
    requires
        c.wf(),
    ensures
        c.interrupted(vector).regs.spsr == c.regs.cpsr,
        c.interrupted(vector).regs.gpr[14] == if c.thumb() {
            c.pc()
        } else {
            c.pc().wrapping_sub(4)
        },
        c.interrupted(vector).pc() == vector,
        !c.interrupted(vector).thumb(),
        c.interrupted(vector).regs.flag(FLAG_I),
        CpuMode::of(c.interrupted(vector).regs.cpsr) == CpuMode::Irq,
{
    let p = c.regs.swapped(CpuMode::of(c.regs.cpsr), CpuMode::Irq).cpsr;
    assert(((p & !0x20u32) | 0x80) & 0x20 == 0 && ((p & !0x20u32) | 0x80) & 0x80 != 0) by (bit_vector);
    assert(((p & !0x20u32) | 0x80) % 32 == p % 32) by (bit_vector);
}

impl ArmCore {
    /// Takes the state of a saved core over.
    pub fn resume_from(&mut self, saved: &ArmCore)
        ensures
            final(self)@ == saved@,
    {
        self.registers.gpr = saved.registers.gpr;
        self.registers.cpsr = saved.registers.cpsr;
        self.registers.spsr = saved.registers.spsr;
        self.registers.bank_sp = saved.registers.bank_sp;
        self.registers.bank_lr = saved.registers.bank_lr;
        self.registers.bank_spsr = saved.registers.bank_spsr;
        self.registers.user_high = saved.registers.user_high;
        self.registers.fiq_high = saved.registers.fiq_high;
        self.pipeline = saved.pipeline;
        self.halted = saved.halted;
        self.pc_modified = saved.pc_modified;
        self.armv5 = saved.armv5;
        self.swi_mode = saved.swi_mode;
    }
}

/// Going back to the link register less four, whatever the encoding, goes back to
/// the instruction that was not executed: the program counter leads it by two
/// instructions.
pub proof fn law_return_resumes_the_instruction(c: CoreModel, vector: u32)
    requires
        c.wf(),
    ensures
        c.thumb() ==> c.interrupted(vector).regs.gpr[14].wrapping_sub(4) == c.pc().wrapping_sub(4),
        !c.thumb() ==> c.interrupted(vector).regs.gpr[14].wrapping_sub(4) == c.pc().wrapping_sub(8),
{
}

/// After a branch the pipeline holds the two instructions from the target on, and
/// the program counter leads the first of them by two.
pub proof fn law_branches_refill_the_pipeline(
    c: CoreModel,
    fetch: spec_fn(u32) -> u32,
    target: u32,
)
    requires
        c.wf(),
        c.thumb() ==> target % 2 == 0 && target <= c.pc() < target + 2 && target < 0xFFFF_FFF0,
        !c.thumb() ==> target % 4 == 0 && target <= c.pc() < target + 4 && target < 0xFFFF_FFF0,
    ensures
        ({
            let f = c.flushed(fetch);
            &&& f.pipeline[0] == fetch(target)
            &&& c.thumb() ==> f.pipeline[1] == fetch((target + 2) as u32) && f.pc() == target + 4
            &&& !c.thumb() ==> f.pipeline[1] == fetch((target + 4) as u32) && f.pc() == target + 8
            &&& !f.pc_modified
        }),
{
    let pc = c.pc();
    if c.thumb() {
        assert(pc % 2 == pc - target);
        assert(aligned(pc, true) == target);
    } else {
        assert(pc % 4 == pc - target);
        assert(aligned(pc, false) == target);
    }
}

} // verus!
