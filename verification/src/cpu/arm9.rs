//! The first processor.

use vstd::prelude::*;
use crate::cpu::arm::{ArmCore, CoreModel, FLAG_I, FLAG_T};
use crate::cpu::arm;
use crate::cpu::bus::Arm9Bus;
use crate::cpu::{Fetched, Step, Window};
use crate::mmu::watch::Census;
use crate::mmu::{MmuModel, NdsMmu};
use crate::tcm::Cp15Registers;

verus! {

/// Mathematical state of the first processor.
pub struct Cpu9Model {
    pub core: CoreModel,
    pub cp15: Cp15Registers,
}

impl Cpu9Model {
    pub open spec fn wf(self) -> bool {
        self.core.wf()
    }

    pub open spec fn fresh() -> Cpu9Model {
        Cpu9Model { core: CoreModel::fresh(true), cp15: Cp15Registers::cleared() }
    }

    pub open spec fn with_core(self, core: CoreModel) -> Cpu9Model {
        Cpu9Model { core, ..self }
    }

    /// Interrupt vector: control bit 13 selects the high ones.
    pub open spec fn vector(self) -> u32 {
        if (self.cp15.control & 0x2000) != 0 {
            0xFFFF_0018
        } else {
            0x0000_0018
        }
    }
}

/// Whether an instruction transfers a register to or from the system-control
/// coprocessor.
pub open spec fn is_cp15_transfer(inst: u32) -> bool {
    inst / 0x100_0000 % 16 == 0xE && inst / 0x100 % 16 == 0xF && inst / 0x10 % 2 == 1
}

/// Outcome of a coprocessor transfer: processor, memory system and the value of
/// the register. Unknown coprocessor registers ignore writes and leave the
/// register of a read alone.
#[verifier::opaque]
pub open spec fn transferred(
    c: Cpu9Model,
    m: MmuModel,
    mcr: bool,
    crn: u8,
    crm: u8,
    op2: u8,
    rd: u32,
) -> (Cpu9Model, MmuModel, u32) {
    if crn == 1 && crm == 0 && op2 == 0 {
        if mcr {
            let regs = Cp15Registers { control: rd, ..c.cp15 };
            (Cpu9Model { cp15: regs, ..c }, m.with_cp15(regs), rd)
        } else {
            (c, m, c.cp15.control)
        }
    } else if crn == 9 && crm == 1 && op2 == 0 {
        if mcr {
            let regs = Cp15Registers { dtcm_control: rd, ..c.cp15 };
            (Cpu9Model { cp15: regs, ..c }, m.with_cp15(regs).with_handler_ptr(), rd)
        } else {
            (c, m, c.cp15.dtcm_control)
        }
    } else if crn == 9 && crm == 1 && op2 == 1 {
        if mcr {
            let regs = Cp15Registers { itcm_control: rd, ..c.cp15 };
            (Cpu9Model { cp15: regs, ..c }, m.with_cp15(regs), rd)
        } else {
            (c, m, c.cp15.itcm_control)
        }
    } else if crn == 7 && crm == 0 && op2 == 4 && mcr {
        (c.with_core(CoreModel { halted: true, ..c.core }), m, rd)
    } else {
        (c, m, rd)
    }
}

/// Outcome of a coprocessor instruction. The program counter takes no part in
/// a transfer.
pub open spec fn executed_cp15(c: Cpu9Model, m: MmuModel, inst: u32) -> (Cpu9Model, MmuModel) {
    let mcr = inst / 0x10_0000 % 2 == 0;
    let rd = (inst / 0x1000 % 16) as int;
    let t = transferred(
        c,
        m,
        mcr,
        (inst / 0x1_0000 % 16) as u8,
        (inst % 16) as u8,
        (inst / 0x20 % 8) as u8,
        c.core.regs.gpr[rd],
    );
    if rd >= 15 {
        (c, m)
    } else if mcr {
        (t.0, t.1)
    } else {
        (
            t.0.with_core(CoreModel { regs: t.0.core.regs.with_gpr(rd, t.2), ..t.0.core }),
            t.1,
        )
    }
}

impl MmuModel {
    /// The first processor's instruction at an address.
    pub open spec fn fetch9(self, thumb: bool) -> spec_fn(u32) -> u32 {
        |a: u32|
            if thumb {
                self.halfword9(a) as u32
            } else {
                self.word9(a)
            }
    }

    /// Whether an interrupt that is enabled was requested.
    pub open spec fn requested9(self) -> bool {
        (self.irq.arm9_ie & self.irq.arm9_if) != 0
    }

    pub open spec fn idled9(self, cycles: u64) -> MmuModel {
        MmuModel {
            census: Census {
                arm9_halt_cycles: self.census.arm9_halt_cycles.wrapping_add(cycles),
                ..self.census
            },
            ..self
        }
    }

    pub open spec fn irq_counted9(self) -> MmuModel {
        MmuModel {
            census: Census {
                arm9_irqs_taken: self.census.arm9_irqs_taken.wrapping_add(1),
                ..self.census
            },
            ..self
        }
    }

    /// With the executing instruction published to the watches.
    pub open spec fn stamped(self, pc: u32, lr: u32) -> MmuModel {
        MmuModel { stores: self.stores.stamped(pc, lr), ..self }
    }

    /// Instruction word that enters the pipeline.
    pub open spec fn prefetched9(self, pc: u32, thumb: bool) -> u32 {
        let a = arm::aligned(pc, thumb);
        if thumb {
            self.load_watched(a).halfword9(a) as u32
        } else {
            self.bus_word9(a)
        }
    }

    pub open spec fn after_prefetch9(self, pc: u32, thumb: bool) -> MmuModel {
        let a = arm::aligned(pc, thumb);
        if thumb {
            self.load_watched(a)
        } else {
            self.after_word9(a)
        }
    }
}

/// A halted processor over one cycle. A request ends the halt whether or not
/// interrupts are masked; masking only decides if it is then taken.
pub open spec fn halted9(c: Cpu9Model, m: MmuModel) -> (Cpu9Model, MmuModel) {
    (c.with_core(CoreModel { halted: !m.requested9(), ..c.core }), m.idled9(1))
}

/// The pipeline is refilled if the program counter was set.
pub open spec fn normalized9(c: Cpu9Model, m: MmuModel) -> Cpu9Model {
    if c.core.pc_modified {
        c.with_core(c.core.flushed(m.fetch9(c.core.thumb())))
    } else {
        c
    }
}

/// Whether an interrupt is taken before the next instruction.
pub open spec fn due9(c: Cpu9Model, m: MmuModel) -> bool {
    m.irq.arm9_ime % 2 == 1 && !c.core.regs.flag(FLAG_I) && m.requested9()
}

/// One instruction leaves the pipeline. Coprocessor transfers are executed here,
/// everything else is handed out.
#[verifier::opaque]
pub open spec fn issued9(c: Cpu9Model, m: MmuModel) -> (Cpu9Model, MmuModel, Step) {
    let thumb = c.core.thumb();
    let pc = c.core.pc();
    let inst = c.core.pipeline[0];
    let s = m.stamped(
        pc.wrapping_sub((2 * arm::width(thumb)) as u32),
        c.core.regs.gpr[14],
    );
    let n = s.after_prefetch9(pc, thumb);
    let d = c.with_core(c.core.shifted(s.prefetched9(pc, thumb)));
    if !thumb && is_cp15_transfer(inst) {
        let e = executed_cp15(d, n, inst);
        (e.0.with_core(e.0.core.advanced(false)), e.1, Step::Done(1))
    } else {
        (d, n, Step::Execute(Fetched { inst, thumb }))
    }
}

/// One step: a halted cycle, the entry into an interrupt, or an instruction.
pub open spec fn stepped9(c: Cpu9Model, m: MmuModel) -> (Cpu9Model, MmuModel, Step) {
    if c.core.halted {
        let h = halted9(c, m);
        (h.0, h.1, Step::Done(1))
    } else {
        let d = normalized9(c, m);
        if due9(d, m) {
            (d.with_core(d.core.interrupted(d.vector())), m.irq_counted9(), Step::Done(4))
        } else {
            issued9(d, m)
        }
    }
}

pub proof fn lemma_step_costs_9(c: Cpu9Model, m: MmuModel)
    ensures
        stepped9(c, m).2 matches Step::Done(cycles) ==> 1 <= cycles <= 4,
{
    reveal(issued9);
}

/// The steps of a window, up to its end or to an instruction that has to be
/// executed. A processor that signalled the other one gives up the rest of its
/// window, unless it went on waiting.
pub open spec fn ran9(c: Cpu9Model, m: MmuModel, w: Window) -> (
    Cpu9Model,
    MmuModel,
    Window,
    Option<Fetched>,
)
    decreases w.left(),
{
    if w.is_over() {
        (c, m, w, None)
    } else {
        proof {
            lemma_step_costs_9(c, m);
        }
        let s = stepped9(c, m);
        match s.2 {
            Step::Execute(f) => (s.0, s.1, w, Some(f)),
            Step::Done(cycles) => if s.1.ipc_yield && !(c.core.halted && s.0.core.halted) {
                (
                    s.0,
                    MmuModel { ipc_yield: false, ..s.1 },
                    Window { yielded: true, ..w.charged(cycles) },
                    None,
                )
            } else {
                ran9(s.0, s.1, w.charged(cycles))
            },
        }
    }
}

/// The first processor.
pub struct Arm9Cpu {
    pub cpu: ArmCore,
    /// The authoritative coprocessor registers; the memory system has a copy.
    pub cp15: Cp15Registers,
}

impl View for Arm9Cpu {
    type V = Cpu9Model;

    open spec fn view(&self) -> Cpu9Model {
        Cpu9Model { core: self.cpu@, cp15: self.cp15 }
    }
}

impl Arm9Cpu {
    pub fn new() -> (r: Self)
        ensures
            r@ == Cpu9Model::fresh(),
            r@.wf(),
    {
        Arm9Cpu { cpu: ArmCore::new(true), cp15: Cp15Registers::default() }
    }

    /// Resets the processor and the coprocessor, in the memory system too.
    pub fn reset(&mut self, mmu: &mut NdsMmu)
        ensures
            final(self)@ == Cpu9Model::fresh(),
            final(self)@.wf(),
            final(mmu)@ == old(mmu)@.with_cp15(Cp15Registers::cleared()),
    {
        self.cpu = ArmCore::new(true);
        self.cp15 = Cp15Registers::default();
        mmu.set_cp15(self.cp15);
    }

    /// Refills the pipeline from the program counter.
    pub fn flush_pipeline(&mut self, mmu: &mut NdsMmu)
        requires
            old(self)@.wf(),
            old(mmu)@.wf(),
        ensures
            final(self)@ == old(self)@.with_core(old(self)@.core.flushed(old(mmu)@.fetch9(old(self)@.core.thumb()))),
            final(self)@.wf(),
            final(mmu)@ == old(mmu)@,
    {
        let a: u32 = self.cpu.refill_address();
        let thumb: bool = self.cpu.registers.get_flag(FLAG_T);
        let mut bus = Arm9Bus(mmu);
        let first: u32;
        let second: u32;
        if thumb {
            first = bus.fetch_halfword(a) as u32;
            second = bus.fetch_halfword(a.wrapping_add(2)) as u32;
        } else {
            first = bus.fetch_word(a);
            second = bus.fetch_word(a.wrapping_add(4));
        }
        self.cpu.refill(first, second);
    }

    /// Transfers one register to (`mcr`) or from the coprocessor.
    pub fn execute_cp15_transfer(
        &mut self,
        mmu: &mut NdsMmu,
        mcr: bool,
        crn: u8,
        crm: u8,
        opcode_2: u8,
        rd_val: &mut u32,
    )
        requires
            old(self)@.wf(),
            old(mmu)@.wf(),
        ensures
            (final(self)@, final(mmu)@, *final(rd_val)) == transferred(
                old(self)@,
                old(mmu)@,
                mcr,
                crn,
                crm,
                opcode_2,
                *old(rd_val),
            ),
            final(self)@.wf(),
            final(mmu)@.wf(),
    {
        proof {
            reveal(transferred);
        }
        if crn == 1 && crm == 0 && opcode_2 == 0 {
            if mcr {
                self.cp15.control = *rd_val;
                mmu.set_cp15(self.cp15);
            } else {
                *rd_val = self.cp15.control;
            }
        } else if crn == 9 && crm == 1 && opcode_2 == 0 {
            if mcr {
                self.cp15.dtcm_control = *rd_val;
                mmu.set_cp15(self.cp15);
                mmu.update_arm9_irq_handler_ptr();
            } else {
                *rd_val = self.cp15.dtcm_control;
            }
        } else if crn == 9 && crm == 1 && opcode_2 == 1 {
            if mcr {
                self.cp15.itcm_control = *rd_val;
                mmu.set_cp15(self.cp15);
            } else {
                *rd_val = self.cp15.itcm_control;
            }
        } else if crn == 7 && crm == 0 && opcode_2 == 4 && mcr {
            self.cpu.halted = true;
        }
    }

    fn execute_cp15(&mut self, mmu: &mut NdsMmu, inst: u32)
        requires
            old(self)@.wf(),
            old(mmu)@.wf(),
        ensures
            (final(self)@, final(mmu)@) == executed_cp15(old(self)@, old(mmu)@, inst),
            final(self)@.wf(),
            final(mmu)@.wf(),
    {
        let mcr: bool = inst / 0x10_0000 % 2 == 0;
        let rd: usize = (inst / 0x1000 % 16) as usize;
        if rd < 15 {
            let mut rd_val: u32 = self.cpu.registers.gpr[rd];
            self.execute_cp15_transfer(
                mmu,
                mcr,
                (inst / 0x1_0000 % 16) as u8,
                (inst % 16) as u8,
                (inst / 0x20 % 8) as u8,
                &mut rd_val,
            );
            if !mcr {
                self.cpu.registers.gpr[rd] = rd_val;
            }
        }
    }

    fn issue(&mut self, mmu: &mut NdsMmu) -> (r: Step)
        requires
            old(self)@.wf(),
            old(mmu)@.wf(),
        ensures
            (final(self)@, final(mmu)@, r) == issued9(old(self)@, old(mmu)@),
            final(self)@.wf(),
            final(mmu)@.wf(),
    {
        proof {
            reveal(issued9);
        }
        let thumb: bool = self.cpu.registers.get_flag(FLAG_T);
        let pc: u32 = self.cpu.registers.gpr[15];
        let ahead: u32 = if thumb {
            4
        } else {
            8
        };
        mmu.stores.stamp(pc.wrapping_sub(ahead), self.cpu.registers.gpr[14]);
        let mut bus = Arm9Bus(mmu);
        let fetched: u32 = if thumb {
            bus.read_halfword(pc - pc % 2) as u32
        } else {
            bus.read_word(pc - pc % 4)
        };
        let inst: u32 = self.cpu.shift(fetched);
        if !thumb && inst / 0x100_0000 % 16 == 0xE && inst / 0x100 % 16 == 0xF && inst / 0x10 % 2
            == 1 {
            self.execute_cp15(mmu, inst);
            self.cpu.advance(false);
            Step::Done(1)
        } else {
            Step::Execute(Fetched { inst, thumb })
        }
    }

    fn trigger_irq(&mut self)
        requires
            old(self)@.wf(),
        ensures
            final(self)@ == old(self)@.with_core(
                old(self)@.core.interrupted(old(self)@.vector()),
            ),
            final(self)@.wf(),
    {
        let vector: u32 = if (self.cp15.control & 0x2000) != 0 {
            0xFFFF_0018
        } else {
            0x0000_0018
        };
        self.cpu.interrupt(vector);
    }

    /// Advances the processor by one step. An instruction that comes back has to
    /// be executed by the interpreter, and then ended with `finish`.
    pub fn step(&mut self, mmu: &mut NdsMmu) -> (r: Step)
        requires
            old(self)@.wf(),
            old(mmu)@.wf(),
        ensures
            (final(self)@, final(mmu)@, r) == stepped9(old(self)@, old(mmu)@),
            final(self)@.wf(),
            final(mmu)@.wf(),
            r matches Step::Done(cycles) ==> 1 <= cycles <= 4,
    {
        if self.cpu.halted {
            if (mmu.irq.arm9_ie & mmu.irq.arm9_if) != 0 {
                self.cpu.halted = false;
            }
            mmu.census.arm9_halt_cycles = mmu.census.arm9_halt_cycles.wrapping_add(1);
            return Step::Done(1);
        }
        if self.cpu.pc_modified {
            self.flush_pipeline(mmu);
        }
        if mmu.irq.arm9_ime % 2 == 1 && !self.cpu.registers.get_flag(FLAG_I) && (
        mmu.irq.arm9_ie & mmu.irq.arm9_if) != 0 {
            mmu.census.arm9_irqs_taken = mmu.census.arm9_irqs_taken.wrapping_add(1);
            self.trigger_irq();
            return Step::Done(4);
        }
        proof {
            reveal(issued9);
        }
        self.issue(mmu)
    }

    /// Ends an instruction that the interpreter executed.
    pub fn finish(&mut self, thumb: bool)
        requires
            old(self)@.wf(),
        ensures
            final(self)@ == old(self)@.with_core(old(self)@.core.finished(thumb)),
            final(self)@.wf(),
    {
        self.cpu.finish(thumb);
    }

    /// Ends an instruction that `run` handed out and charges its cycles.
    pub fn retire(&mut self, mmu: &mut NdsMmu, window: &mut Window, thumb: bool, cycles: u32)
        requires
            old(self)@.wf(),
            old(window).used + cycles <= u32::MAX,
        ensures
            final(self)@ == old(self)@.with_core(old(self)@.core.finished(thumb)),
            final(self)@.wf(),
            final(mmu)@ == (MmuModel { ipc_yield: false, ..old(mmu)@ }),
            *final(window) == (Window {
                yielded: old(window).yielded || old(mmu)@.ipc_yield,
                ..old(window).charged(cycles)
            }),
    {
        self.finish(thumb);
        window.used = window.used + cycles;
        if mmu.ipc_yield {
            mmu.ipc_yield = false;
            window.yielded = true;
        }
    }

    /// Runs the window until it ends or an instruction has to be executed. Such
    /// an instruction is ended with `retire`, and `run` called again. The rest
    /// of a window in which the processor only waits is charged at once, which
    /// comes to the same as waiting through it: nothing else runs meanwhile.
    pub fn run(&mut self, mmu: &mut NdsMmu, window: &mut Window) -> (r: Option<Fetched>)
        requires
            old(self)@.wf(),
            old(mmu)@.wf(),
            old(window).budget <= u32::MAX - 3,
        ensures
            (final(self)@, final(mmu)@, *final(window), r) == ran9(
                old(self)@,
                old(mmu)@,
                *old(window),
            ),
            final(self)@.wf(),
            final(mmu)@.wf(),
    {
        while !window.over()
            invariant
                self@.wf(),
                mmu@.wf(),
                window.budget <= u32::MAX - 3,
                ran9(self@, mmu@, *window) == ran9(old(self)@, old(mmu)@, *old(window)),
            decreases window.left(),
        {
            let was_halted: bool = self.cpu.halted;
            let ghost c = self@;
            let ghost m = mmu@;
            match self.step(mmu) {
                Step::Execute(f) => {
                    return Some(f);
                },
                Step::Done(cycles) => {
                    window.used = window.used + cycles;
                    if was_halted && self.cpu.halted {
                        let idle: u32 = window.budget - window.used;
                        proof {
                            lemma_waits9(self@, mmu@, *window);
                        }
                        mmu.census.arm9_halt_cycles = mmu.census.arm9_halt_cycles.wrapping_add(
                            idle as u64,
                        );
                        window.used = window.budget;
                        return None;
                    }
                    if mmu.ipc_yield {
                        mmu.ipc_yield = false;
                        window.yielded = true;
                        return None;
                    }
                },
            }
        }
        None
    }
}

proof fn lemma_waits9(c: Cpu9Model, m: MmuModel, w: Window)
    requires
        c.core.halted,
        !m.requested9(),
        w.used <= w.budget,
        !w.yielded,
    ensures
        ran9(c, m, w) == (
            c,
            m.idled9((w.budget - w.used) as u64),
            Window { used: w.budget, ..w },
            None::<Fetched>,
        ),
    decreases w.budget - w.used,
{
    if w.used < w.budget {
        let next = w.charged(1);
        assert(halted9(c, m).0 == c);
        lemma_waits9(c, m.idled9(1), next);
        let a = m.census.arm9_halt_cycles;
        let rest = (w.budget - w.used - 1) as u64;
        assert(a.wrapping_add(1).wrapping_add(rest) == a.wrapping_add((rest + 1) as u64));
    } else {
        let a = m.census.arm9_halt_cycles;
        assert(a.wrapping_add(0) == a);
    }
}

/// A processor that waits with no request pending waits out its window, which
/// is counted cycle by cycle.
pub proof fn law_waiting_takes_the_whole_window_9(c: Cpu9Model, m: MmuModel, budget: u32)
    requires
        c.core.halted,
        !m.requested9(),
    ensures
        ran9(c, m, Window::of(budget)) == (
            c,
            m.idled9(budget as u64),
            Window { used: budget, ..Window::of(budget) },
            None::<Fetched>,
        ),
{
    lemma_waits9(c, m, Window::of(budget));
}

/// A request ends a wait even while interrupts are masked or switched off.
pub proof fn law_request_ends_a_wait_9(c: Cpu9Model, m: MmuModel)
    requires
        c.core.halted,
        m.requested9(),
    ensures
        !stepped9(c, m).0.core.halted,
        stepped9(c, m).2 == Step::Done(1),
{
}

/// The memory system's copy of the coprocessor registers stays the processor's.
pub proof fn law_coprocessor_copies_agree(
    c: Cpu9Model,
    m: MmuModel,
    mcr: bool,
    crn: u8,
    crm: u8,
    op2: u8,
    rd: u32,
)
    requires
        c.cp15 == m.cp15,
    ensures
        transferred(c, m, mcr, crn, crm, op2, rd).0.cp15 == transferred(
            c,
            m,
            mcr,
            crn,
            crm,
            op2,
            rd,
        ).1.cp15,
{
    reveal(transferred);
}

/// What was written to a coprocessor register reads back.
pub proof fn law_coprocessor_reads_back(
    c: Cpu9Model,
    m: MmuModel,
    crn: u8,
    crm: u8,
    op2: u8,
    val: u32,
    other: u32,
)
    requires
        (crn == 1 && crm == 0 && op2 == 0) || (crn == 9 && crm == 1 && op2 <= 1),
    ensures
        ({
            let t = transferred(c, m, true, crn, crm, op2, val);
            transferred(t.0, t.1, false, crn, crm, op2, other) == (t.0, t.1, val)
        }),
{
    reveal(transferred);
}

impl Arm9Cpu {
    /// Takes the state of a saved processor over.
    pub fn resume_from(&mut self, saved: &Arm9Cpu)
        ensures
            final(self)@ == saved@,
    {
        self.cpu.resume_from(&saved.cpu);
        self.cp15 = saved.cp15;
    }
}

/// Coprocessor copies that agreed when a machine was saved agree after both the
/// processor and the memory system have resumed from it.
pub proof fn law_resumed_copies_agree(cpu: Cpu9Model, m: MmuModel, live: MmuModel)
    requires
        cpu.cp15 == m.cp15,
    ensures
        cpu.cp15 == live.resumed(m).cp15,
        cpu.cp15 == live.resumed(m.captured()).cp15,
{
}

} // verus!
