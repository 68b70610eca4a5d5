use vstd::prelude::*;
use crate::process::stack::{Stack, STACK_SIZE};
use crate::process::state::State;
use crate::traps::trap_frame::TrapFrame;

verus! {

/// The identity of a process.
pub type Id = u64;

/// Saved processor status of a process that starts in the unprivileged
/// level with every interrupt unmasked.
pub const USER_STATUS: u64 = 0;

/// An execution context: a stack, the registers saved at its last trap, and
/// its scheduling state.
#[derive(Debug)]
pub struct Process {
    /// The registers of the process as of its last trap.
    pub trap_frame: TrapFrame,
    /// The stack that the process owns.
    pub stack: Stack,
    /// The scheduling state of the process.
    pub state: State,
}

impl Process {
    /// The identity of the process, which its trap frame carries.
    pub open spec fn id(self) -> Id {
        self.trap_frame.tpidr
    }

    /// Whether the process may be given the processor at the clock reading
    /// `now`.
    pub open spec fn ready(self, now: u64) -> bool {
        self.state.ready(now)
    }

    /// The process that owns the stack at `base` and is about to execute its
    /// first instruction at `entry`: its stack is empty, it runs in the
    /// unprivileged level with interrupts unmasked, and it is ready.
    pub open spec fn spawned(entry: u64, base: u64) -> Process {
        Process {
            trap_frame: TrapFrame {
                elr: entry,
                sp: (base + STACK_SIZE) as u64,
                spsr: USER_STATUS,
                ..TrapFrame::zero()
            },
            stack: Stack::at(base),
            state: State::Ready,
        }
    }

    /// Makes a process that owns the stack region beginning at `base`, with
    /// every register zero, ready to run. There is no process where there is
    /// no stack.
    pub fn new(base: u64) -> (process: Option<Process>)
        ensures
            process is Some <==> Stack::valid_base(base),
            process matches Some(p) ==> {
                &&& p.trap_frame == TrapFrame::zero()
                &&& p.stack == Stack::at(base)
                &&& p.state == State::Ready
            },
    {
        match Stack::new(base) {
            Some(stack) => Some(Process { trap_frame: TrapFrame::zeroed(), stack, state: State::Ready }),
            None => None,
        }
    }

    /// Points the process at its first instruction: execution will begin at
    /// `entry`, on an empty stack, in the unprivileged level with interrupts
    /// unmasked. The other registers keep their values.
    pub fn enter_at(&mut self, entry: u64)
        ensures
            final(self).trap_frame == (TrapFrame {
                elr: entry,
                sp: (old(self).stack.base() + STACK_SIZE) as u64,
                spsr: USER_STATUS,
                ..old(self).trap_frame
            }),
            final(self).stack == old(self).stack,
            final(self).state == old(self).state,
    {
        let top: u64 = self.stack.top();
        self.trap_frame.elr = entry;
        self.trap_frame.sp = top;
        self.trap_frame.spsr = USER_STATUS;
    }

    /// Tells whether the process may be given the processor at the clock
    /// reading `now`: a ready process always, a waiting one once its deadline
    /// has passed, a running one never.
    pub fn is_ready(&self, now: u64) -> (ready: bool)
        ensures
            ready == self.ready(now),
    {
        match self.state {
            State::Ready => true,
            State::Running => false,
            State::Waiting(deadline) => deadline.has_passed(now),
        }
    }
}

} // verus!
