//! Running a window against stepping through it.
//!
//! Both loops are stated around an interpreter, given by what it does to the
//! machine with an instruction.

use vstd::prelude::*;
use crate::cpu::arm::CoreModel;
use crate::cpu::arm7;
use crate::cpu::arm9;
use crate::cpu::arm9::Cpu9Model;
use crate::cpu::{Fetched, Step, Window};
use crate::mmu::MmuModel;

verus! {

/// What an interpreter makes of the first processor, the memory system and an
/// instruction, and the cycles that it takes.
pub type Interpreter9 = spec_fn(Cpu9Model, MmuModel, Fetched) -> (Cpu9Model, MmuModel, u32);

/// The same of the second processor.
pub type Interpreter7 = spec_fn(CoreModel, MmuModel, Fetched) -> (CoreModel, MmuModel, u32);

/// One complete step: `step`, then the interpreter and `finish` where an
/// instruction was handed out.
pub open spec fn whole_step_9(c: Cpu9Model, m: MmuModel, exec: Interpreter9) -> (
    Cpu9Model,
    MmuModel,
    u32,
) {
    let s = arm9::stepped9(c, m);
    match s.2 {
        Step::Done(cycles) => (s.0, s.1, cycles),
        Step::Execute(f) => {
            let e = exec(s.0, s.1, f);
            (e.0.with_core(e.0.core.finished(f.thumb)), e.1, e.2)
        },
    }
}

pub open spec fn whole_step_7(c: CoreModel, m: MmuModel, exec: Interpreter7) -> (
    CoreModel,
    MmuModel,
    u32,
) {
    let s = arm7::stepped7(c, m);
    match s.2 {
        Step::Done(cycles) => (s.0, s.1, cycles),
        Step::Execute(f) => {
            let e = exec(s.0, s.1, f);
            (e.0.finished(f.thumb), e.1, e.2)
        },
    }
}

/// Steps taken one by one until the window is used up. One that takes no time
/// ends the loop.
pub open spec fn stepwise_9(c: Cpu9Model, m: MmuModel, w: Window, exec: Interpreter9) -> (
    Cpu9Model,
    MmuModel,
    Window,
)
    decreases w.left(),
{
    let s = whole_step_9(c, m, exec);
    if w.is_over() {
        (c, m, w)
    } else if s.2 == 0 {
        (s.0, s.1, w)
    } else {
        stepwise_9(s.0, s.1, w.charged(s.2), exec)
    }
}

pub open spec fn stepwise_7(c: CoreModel, m: MmuModel, w: Window, exec: Interpreter7) -> (
    CoreModel,
    MmuModel,
    Window,
)
    decreases w.left(),
{
    let s = whole_step_7(c, m, exec);
    if w.is_over() {
        (c, m, w)
    } else if s.2 == 0 {
        (s.0, s.1, w)
    } else {
        stepwise_7(s.0, s.1, w.charged(s.2), exec)
    }
}

/// Whether no step of the window signals the other processor, and each takes
/// time.
pub open spec fn quiet_9(c: Cpu9Model, m: MmuModel, w: Window, exec: Interpreter9) -> bool
    decreases w.left(),
{
    let s = whole_step_9(c, m, exec);
    w.is_over() || (s.2 > 0 && !s.1.ipc_yield && quiet_9(s.0, s.1, w.charged(s.2), exec))
}

pub open spec fn quiet_7(c: CoreModel, m: MmuModel, w: Window, exec: Interpreter7) -> bool
    decreases w.left(),
{
    let s = whole_step_7(c, m, exec);
    w.is_over() || (s.2 > 0 && !s.1.ipc_yield && quiet_7(s.0, s.1, w.charged(s.2), exec))
}

pub proof fn lemma_run_uses_9(c: Cpu9Model, m: MmuModel, w: Window)
    ensures
        arm9::ran9(c, m, w).2.left() <= w.left(),
        arm9::ran9(c, m, w).3 is Some ==> !arm9::ran9(c, m, w).2.is_over(),
    decreases w.left(),
{
    arm9::lemma_step_costs_9(c, m);
    let s = arm9::stepped9(c, m);
    if !w.is_over() {
        if let Step::Done(cycles) = s.2 {
            lemma_run_uses_9(s.0, s.1, w.charged(cycles));
        }
    }
}

pub proof fn lemma_run_uses_7(c: CoreModel, m: MmuModel, w: Window)
    ensures
        arm7::ran7(c, m, w).2.left() <= w.left(),
        arm7::ran7(c, m, w).3 is Some ==> !arm7::ran7(c, m, w).2.is_over(),
    decreases w.left(),
{
    arm7::lemma_step_costs_7(c, m);
    let s = arm7::stepped7(c, m);
    if !w.is_over() {
        if let Step::Done(cycles) = s.2 {
            lemma_run_uses_7(s.0, s.1, w.charged(cycles));
        }
    }
}

/// `run` called until the window is used up, with the interpreter and `retire`
/// after each instruction that it hands out.
pub open spec fn driven_9(c: Cpu9Model, m: MmuModel, w: Window, exec: Interpreter9) -> (
    Cpu9Model,
    MmuModel,
    Window,
)
    decreases w.left(),
{
    let r = arm9::ran9(c, m, w);
    match r.3 {
        None => (r.0, r.1, r.2),
        Some(f) => {
            let e = exec(r.0, r.1, f);
            let d = e.0.with_core(e.0.core.finished(f.thumb));
            let n = MmuModel { ipc_yield: false, ..e.1 };
            let v = Window { yielded: r.2.yielded || e.1.ipc_yield, ..r.2.charged(e.2) };
            if e.2 == 0 {
                (d, n, v)
            } else {
                proof {
                    lemma_run_uses_9(c, m, w);
                }
                driven_9(d, n, v, exec)
            }
        },
    }
}

pub open spec fn driven_7(c: CoreModel, m: MmuModel, w: Window, exec: Interpreter7) -> (
    CoreModel,
    MmuModel,
    Window,
)
    decreases w.left(),
{
    let r = arm7::ran7(c, m, w);
    match r.3 {
        None => (r.0, r.1, r.2),
        Some(f) => {
            let e = exec(r.0, r.1, f);
            let d = e.0.finished(f.thumb);
            let n = MmuModel { ipc_yield: false, ..e.1 };
            let v = Window { yielded: r.2.yielded || e.1.ipc_yield, ..r.2.charged(e.2) };
            if e.2 == 0 {
                (d, n, v)
            } else {
                proof {
                    lemma_run_uses_7(c, m, w);
                }
                driven_7(d, n, v, exec)
            }
        },
    }
}

/// Running a window is stepping through it: while nothing is signalled to the
/// other processor, `run` leaves the machine that the steps leave, and uses the
/// cycles that they use.
pub proof fn law_run_is_its_steps_9(c: Cpu9Model, m: MmuModel, w: Window, exec: Interpreter9)
    requires
        quiet_9(c, m, w, exec),
    ensures
        driven_9(c, m, w, exec) == stepwise_9(c, m, w, exec),
    decreases w.left(),
{
    if !w.is_over() {
        let s = arm9::stepped9(c, m);
        arm9::lemma_step_costs_9(c, m);
        match s.2 {
            Step::Done(cycles) => {
                law_run_is_its_steps_9(s.0, s.1, w.charged(cycles), exec);
                assert(arm9::ran9(c, m, w) == arm9::ran9(s.0, s.1, w.charged(cycles)));
            },
            Step::Execute(f) => {
                let e = exec(s.0, s.1, f);
                let d = e.0.with_core(e.0.core.finished(f.thumb));
                assert(MmuModel { ipc_yield: false, ..e.1 } == e.1);
                law_run_is_its_steps_9(d, e.1, w.charged(e.2), exec);
            },
        }
    }
}

/// The same of the second processor.
pub proof fn law_run_is_its_steps_7(c: CoreModel, m: MmuModel, w: Window, exec: Interpreter7)
    requires
        quiet_7(c, m, w, exec),
    ensures
        driven_7(c, m, w, exec) == stepwise_7(c, m, w, exec),
    decreases w.left(),
{
    if !w.is_over() {
        let s = arm7::stepped7(c, m);
        arm7::lemma_step_costs_7(c, m);
        match s.2 {
            Step::Done(cycles) => {
                law_run_is_its_steps_7(s.0, s.1, w.charged(cycles), exec);
                assert(arm7::ran7(c, m, w) == arm7::ran7(s.0, s.1, w.charged(cycles)));
            },
            Step::Execute(f) => {
                let e = exec(s.0, s.1, f);
                assert(MmuModel { ipc_yield: false, ..e.1 } == e.1);
                law_run_is_its_steps_7(e.0.finished(f.thumb), e.1, w.charged(e.2), exec);
            },
        }
    }
}

} // verus!
