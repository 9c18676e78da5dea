//! The two processors around a shared instruction interpreter.
//!
//! Each processor owns what the interpreter does not: its interrupt model, its
//! pipeline, its halts and, for the first, the system-control coprocessor.
//! `step` and `run` hand out the instructions that the interpreter has to
//! execute and take the result back.

use vstd::prelude::*;

pub mod arm;
pub mod arm7;
pub mod arm9;
pub mod bus;
pub mod stepping;

verus! {

/// An instruction for the interpreter.
#[derive(Clone, Copy, Debug, PartialEq, Eq, Structural)]
pub struct Fetched {
    pub inst: u32,
    /// The short encoding.
    pub thumb: bool,
}

/// Outcome of one step.
#[derive(Clone, Copy, Debug, PartialEq, Eq, Structural)]
pub enum Step {
    /// The step is complete and took these cycles.
    Done(u32),
    /// This instruction has to be executed.
    Execute(Fetched),
}

/// Share of the bus cycles that one processor runs for. The last instruction
/// may overrun it.
#[derive(Clone, Copy, Debug, PartialEq, Eq, Structural)]
pub struct Window {
    pub budget: u32,
    pub used: u32,
    /// The rest is left to the other processor.
    pub yielded: bool,
}

impl Window {
    pub open spec fn of(budget: u32) -> Window {
        Window { budget, used: 0, yielded: false }
    }

    pub open spec fn is_over(self) -> bool {
        self.yielded || self.used >= self.budget
    }

    pub open spec fn charged(self, cycles: u32) -> Window {
        Window {
            used: if self.used + cycles > u32::MAX {
                u32::MAX
            } else {
                (self.used + cycles) as u32
            },
            ..self
        }
    }

    /// Cycles left.
    pub open spec fn left(self) -> nat {
        if self.used >= self.budget {
            0
        } else {
            (self.budget - self.used) as nat
        }
    }

    pub fn new(budget: u32) -> (r: Self)
        ensures
            r == Window::of(budget),
    {
        Window { budget, used: 0, yielded: false }
    }

    pub fn over(&self) -> (b: bool)
        ensures
            b == self.is_over(),
    {
        self.yielded || self.used >= self.budget
    }
}

} // verus!
