//! The second processor.

use vstd::prelude::*;
use crate::cpu::arm::{ArmCore, CoreModel, FLAG_I, FLAG_T};
use crate::cpu::arm;
use crate::cpu::bus::Arm7Bus;
use crate::cpu::{Fetched, Step, Window};
use crate::mmu::watch::Census;
use crate::mmu::{MmuModel, NdsMmu};

verus! {

impl MmuModel {
    /// The second processor's instruction at an address.
    pub open spec fn fetch7(self, thumb: bool) -> spec_fn(u32) -> u32 {
        |a: u32|
            if thumb {
                self.halfword7(a) as u32
            } else {
                self.word7(a)
            }
    }

    /// Whether an interrupt that is enabled was requested.
    pub open spec fn requested7(self) -> bool {
        (self.irq.arm7_ie & self.irq.arm7_if) != 0
    }

    pub open spec fn idled7(self, cycles: u64) -> MmuModel {
        MmuModel {
            census: Census {
                arm7_halt_cycles: self.census.arm7_halt_cycles.wrapping_add(cycles),
                ..self.census
            },
            ..self
        }
    }

    pub open spec fn irq_counted7(self) -> MmuModel {
        MmuModel {
            census: Census {
                arm7_irqs_taken: self.census.arm7_irqs_taken.wrapping_add(1),
                ..self.census
            },
            ..self
        }
    }

    /// Instruction word that enters the pipeline.
    pub open spec fn prefetched7(self, pc: u32, thumb: bool) -> u32 {
        let a = arm::aligned(pc, thumb);
        if thumb {
            self.halfword7(a) as u32
        } else {
            self.bus_word7(a)
        }
    }

    pub open spec fn after_prefetch7(self, pc: u32, thumb: bool) -> MmuModel {
        if thumb {
            self
        } else {
            self.after_word7(arm::aligned(pc, thumb))
        }
    }
}

/// A halted processor over one cycle. A request ends the halt whether or not
/// interrupts are masked; masking only decides if it is then taken.
pub open spec fn halted7(c: CoreModel, m: MmuModel) -> (CoreModel, MmuModel) {
    (CoreModel { halted: !m.requested7(), ..c }, m.idled7(1))
}

/// The pipeline is refilled if the program counter was set.
pub open spec fn normalized7(c: CoreModel, m: MmuModel) -> CoreModel {
    if c.pc_modified {
        c.flushed(m.fetch7(c.thumb()))
    } else {
        c
    }
}

/// Whether an interrupt is taken before the next instruction.
pub open spec fn due7(c: CoreModel, m: MmuModel) -> bool {
    m.irq.arm7_ime % 2 == 1 && !c.regs.flag(FLAG_I) && m.requested7()
}

/// One instruction leaves the pipeline and is handed out.
#[verifier::opaque]
pub open spec fn issued7(c: CoreModel, m: MmuModel) -> (CoreModel, MmuModel, Step) {
    let thumb = c.thumb();
    let pc = c.pc();
    (
        c.shifted(m.prefetched7(pc, thumb)),
        m.after_prefetch7(pc, thumb),
        Step::Execute(Fetched { inst: c.pipeline[0], thumb }),
    )
}

/// One step: a halted cycle, the entry into an interrupt, or an instruction.
pub open spec fn stepped7(c: CoreModel, m: MmuModel) -> (CoreModel, MmuModel, Step) {
    if c.halted {
        let h = halted7(c, m);
        (h.0, h.1, Step::Done(1))
    } else {
        let d = normalized7(c, m);
        if due7(d, m) {
            (d.interrupted(0x0000_0018), m.irq_counted7(), Step::Done(4))
        } else {
            issued7(d, m)
        }
    }
}

pub proof fn lemma_step_costs_7(c: CoreModel, m: MmuModel)
    ensures
        stepped7(c, m).2 matches Step::Done(cycles) ==> 1 <= cycles <= 4,
{
    reveal(issued7);
}

/// The steps of a window, up to its end or to an instruction that has to be
/// executed. A processor that signalled the other one gives up the rest of its
/// window, unless it went on waiting.
pub open spec fn ran7(c: CoreModel, m: MmuModel, w: Window) -> (
    CoreModel,
    MmuModel,
    Window,
    Option<Fetched>,
)
    decreases w.left(),
{
    if w.is_over() {
        (c, m, w, None)
    } else {
        proof {
            lemma_step_costs_7(c, m);
        }
        let s = stepped7(c, m);
        match s.2 {
            Step::Execute(f) => (s.0, s.1, w, Some(f)),
            Step::Done(cycles) => if s.1.ipc_yield && !(c.halted && s.0.halted) {
                (
                    s.0,
                    MmuModel { ipc_yield: false, ..s.1 },
                    Window { yielded: true, ..w.charged(cycles) },
                    None,
                )
            } else {
                ran7(s.0, s.1, w.charged(cycles))
            },
        }
    }
}

/// The second processor.
pub struct Arm7Cpu {
    pub cpu: ArmCore,
}

impl View for Arm7Cpu {
    type V = CoreModel;

    open spec fn view(&self) -> CoreModel {
        self.cpu@
    }
}

impl Arm7Cpu {
    pub fn new() -> (r: Self)
        ensures
            r@ == CoreModel::fresh(false),
            r@.wf(),
    {
        Arm7Cpu { cpu: ArmCore::new(false) }
    }

    pub fn reset(&mut self)
        ensures
            final(self)@ == CoreModel::fresh(false),
            final(self)@.wf(),
    {
        self.cpu = ArmCore::new(false);
    }

    /// Refills the pipeline from the program counter.
    pub fn flush_pipeline(&mut self, mmu: &mut NdsMmu)
        requires
            old(self)@.wf(),
            old(mmu)@.wf(),
        ensures
            final(self)@ == old(self)@.flushed(old(mmu)@.fetch7(old(self)@.thumb())),
            final(self)@.wf(),
            final(mmu)@ == old(mmu)@,
    {
        let a: u32 = self.cpu.refill_address();
        let thumb: bool = self.cpu.registers.get_flag(FLAG_T);
        let mut bus = Arm7Bus(mmu);
        let first: u32;
        let second: u32;
        if thumb {
            first = bus.fetch_halfword(a) as u32;
            second = bus.fetch_halfword(a.wrapping_add(2)) as u32;
        } else {
            first = bus.fetch_word(a);
            second = bus.fetch_word(a.wrapping_add(4));
        }
        self.cpu.refill(first, second);
    }

    fn issue(&mut self, mmu: &mut NdsMmu) -> (r: Step)
        requires
            old(self)@.wf(),
            old(mmu)@.wf(),
        ensures
            (final(self)@, final(mmu)@, r) == issued7(old(self)@, old(mmu)@),
            final(self)@.wf(),
            final(mmu)@.wf(),
    {
        proof {
            reveal(issued7);
        }
        let thumb: bool = self.cpu.registers.get_flag(FLAG_T);
        let pc: u32 = self.cpu.registers.gpr[15];
        let mut bus = Arm7Bus(mmu);
        let fetched: u32 = if thumb {
            bus.read_halfword(pc - pc % 2) as u32
        } else {
            bus.read_word(pc - pc % 4)
        };
        let inst: u32 = self.cpu.shift(fetched);
        Step::Execute(Fetched { inst, thumb })
    }

    /// Without a coprocessor the vectors are always the low ones.
    fn trigger_irq(&mut self)
        requires
            old(self)@.wf(),
        ensures
            final(self)@ == old(self)@.interrupted(0x0000_0018),
            final(self)@.wf(),
    {
        self.cpu.interrupt(0x0000_0018);
    }

    /// Advances the processor by one step. An instruction that comes back has to
    /// be executed by the interpreter, and then ended with `finish`.
    pub fn step(&mut self, mmu: &mut NdsMmu) -> (r: Step)
        requires
            old(self)@.wf(),
            old(mmu)@.wf(),
        ensures
            (final(self)@, final(mmu)@, r) == stepped7(old(self)@, old(mmu)@),
            final(self)@.wf(),
            final(mmu)@.wf(),
            r matches Step::Done(cycles) ==> 1 <= cycles <= 4,
    {
        if self.cpu.halted {
            if (mmu.irq.arm7_ie & mmu.irq.arm7_if) != 0 {
                self.cpu.halted = false;
            }
            mmu.census.arm7_halt_cycles = mmu.census.arm7_halt_cycles.wrapping_add(1);
            return Step::Done(1);
        }
        if self.cpu.pc_modified {
            self.flush_pipeline(mmu);
        }
        if mmu.irq.arm7_ime % 2 == 1 && !self.cpu.registers.get_flag(FLAG_I) && (
        mmu.irq.arm7_ie & mmu.irq.arm7_if) != 0 {
            mmu.census.arm7_irqs_taken = mmu.census.arm7_irqs_taken.wrapping_add(1);
            self.trigger_irq();
            return Step::Done(4);
        }
        proof {
            reveal(issued7);
        }
        self.issue(mmu)
    }

    /// Ends an instruction that the interpreter executed.
    pub fn finish(&mut self, thumb: bool)
        requires
            old(self)@.wf(),
        ensures
            final(self)@ == old(self)@.finished(thumb),
            final(self)@.wf(),
    {
        self.cpu.finish(thumb);
    }

    /// Ends an instruction that `run` handed out and charges its cycles.
    pub fn retire(&mut self, mmu: &mut NdsMmu, window: &mut Window, thumb: bool, cycles: u32)
        requires
            old(self)@.wf(),
            old(window).used + cycles <= u32::MAX,
        ensures
            final(self)@ == old(self)@.finished(thumb),
            final(self)@.wf(),
            final(mmu)@ == (MmuModel { ipc_yield: false, ..old(mmu)@ }),
            *final(window) == (Window {
                yielded: old(window).yielded || old(mmu)@.ipc_yield,
                ..old(window).charged(cycles)
            }),
    {
        self.finish(thumb);
        window.used = window.used + cycles;
        if mmu.ipc_yield {
            mmu.ipc_yield = false;
            window.yielded = true;
        }
    }

    /// Runs the window until it ends or an instruction has to be executed. Such
    /// an instruction is ended with `retire`, and `run` called again. The rest
    /// of a window in which the processor only waits is charged at once, which
    /// comes to the same as waiting through it: nothing else runs meanwhile.
    pub fn run(&mut self, mmu: &mut NdsMmu, window: &mut Window) -> (r: Option<Fetched>)
        requires
            old(self)@.wf(),
            old(mmu)@.wf(),
            old(window).budget <= u32::MAX - 3,
        ensures
            (final(self)@, final(mmu)@, *final(window), r) == ran7(
                old(self)@,
                old(mmu)@,
                *old(window),
            ),
            final(self)@.wf(),
            final(mmu)@.wf(),
    {
        while !window.over()
            invariant
                self@.wf(),
                mmu@.wf(),
                window.budget <= u32::MAX - 3,
                ran7(self@, mmu@, *window) == ran7(old(self)@, old(mmu)@, *old(window)),
            decreases window.left(),
        {
            let was_halted: bool = self.cpu.halted;
            let ghost c = self@;
            let ghost m = mmu@;
            match self.step(mmu) {
                Step::Execute(f) => {
                    return Some(f);
                },
                Step::Done(cycles) => {
                    window.used = window.used + cycles;
                    if was_halted && self.cpu.halted {
                        let idle: u32 = window.budget - window.used;
                        proof {
                            lemma_waits7(self@, mmu@, *window);
                        }
                        mmu.census.arm7_halt_cycles = mmu.census.arm7_halt_cycles.wrapping_add(
                            idle as u64,
                        );
                        window.used = window.budget;
                        return None;
                    }
                    if mmu.ipc_yield {
                        mmu.ipc_yield = false;
                        window.yielded = true;
                        return None;
                    }
                },
            }
        }
        None
    }
}

proof fn lemma_waits7(c: CoreModel, m: MmuModel, w: Window)
    requires
        c.halted,
        !m.requested7(),
        w.used <= w.budget,
        !w.yielded,
    ensures
        ran7(c, m, w) == (
            c,
            m.idled7((w.budget - w.used) as u64),
            Window { used: w.budget, ..w },
            None::<Fetched>,
        ),
    decreases w.budget - w.used,
{
    if w.used < w.budget {
        let next = w.charged(1);
        assert(halted7(c, m).0 == c);
        lemma_waits7(c, m.idled7(1), next);
        let a = m.census.arm7_halt_cycles;
        let rest = (w.budget - w.used - 1) as u64;
        assert(a.wrapping_add(1).wrapping_add(rest) == a.wrapping_add((rest + 1) as u64));
    } else {
        let a = m.census.arm7_halt_cycles;
        assert(a.wrapping_add(0) == a);
    }
}

/// A processor that waits with no request pending waits out its window, which
/// is counted cycle by cycle.
pub proof fn law_waiting_takes_the_whole_window_7(c: CoreModel, m: MmuModel, budget: u32)
    requires
        c.halted,
        !m.requested7(),
    ensures
        ran7(c, m, Window::of(budget)) == (
            c,
            m.idled7(budget as u64),
            Window { used: budget, ..Window::of(budget) },
            None::<Fetched>,
        ),
{
    lemma_waits7(c, m, Window::of(budget));
}

/// A request ends a wait even while interrupts are masked or switched off.
pub proof fn law_request_ends_a_wait_7(c: CoreModel, m: MmuModel)
    requires
        c.halted,
        m.requested7(),
    ensures
        !stepped7(c, m).0.halted,
        stepped7(c, m).2 == Step::Done(1),
{
}

impl Arm7Cpu {
    /// Takes the state of a saved processor over.
    pub fn resume_from(&mut self, saved: &Arm7Cpu)
        ensures
            final(self)@ == saved@,
    {
        self.cpu.resume_from(&saved.cpu);
    }
}

} // verus!
