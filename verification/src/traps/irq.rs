use vstd::prelude::*;
use crate::interrupt::Interrupt;
use crate::process::process::Id;
use crate::process::scheduler::{GlobalScheduler, TICK};
use crate::process::state::State;
use crate::traps::trap_frame::TrapFrame;

verus! {

/// What the handling of an interrupt leaves for the caller to do.
#[derive(Copy, Clone, Debug, PartialEq, Eq, Structural)]
pub enum Served {
    /// The preemption timer ticked and the processor was taken from the
    /// process that ran. `next` is the process whose registers are now in
    /// the trap frame; where it is `None` no process was ready, and the
    /// caller waits for the next interrupt and switches again.
    Tick { next: Option<Id> },
    /// The source has no handler: nothing was done.
    Ignored,
}

/// Whether an interrupt from `interrupt` leads to a switch of processes.
pub open spec fn preempts(interrupt: Interrupt) -> bool {
    interrupt == Interrupt::Timer1
}

/// Returns the microseconds in which the timer is to tick next, where an
/// interrupt from `interrupt` is a tick of the preemption timer. The caller
/// arms the timer before it has the interrupt handled.
pub fn rearm_interval(interrupt: Interrupt) -> (interval: Option<u32>)
    ensures
        interval == if preempts(interrupt) {
            Some(TICK)
        } else {
            None
        },
{
    match interrupt {
        Interrupt::Timer1 => Some(TICK),
        _ => None,
    }
}

/// Handles an interrupt from the source `interrupt`, which trapped with the
/// registers `tf`, at the clock reading `now`.
///
/// A tick of the preemption timer is the one point at which a process loses
/// the processor without asking: the next tick has been armed, the process
/// that ran is ready again, and the scheduler switches to the next one. An
/// interrupt from any other source changes nothing.
pub fn handle_irq(
    interrupt: Interrupt,
    tf: &mut TrapFrame,
    scheduler: &mut GlobalScheduler,
    now: u64,
) -> (served: Served)
    requires
        preempts(interrupt) ==> old(scheduler)@ is Some,
    ensures
        preempts(interrupt) ==> {
            let before = old(scheduler)@->0;
            &&& final(scheduler)@ == Some(before.switched(State::Ready, *old(tf), now))
            &&& *final(tf) == before.restored(State::Ready, *old(tf), now)
            &&& served == (Served::Tick { next: before.selected(State::Ready, *old(tf), now) })
            &&& before.wf() && (before.current matches Some(current) ==> old(tf).tpidr
                == current.id()) ==> final(scheduler)@->0.wf()
        },
        !preempts(interrupt) ==> {
            &&& final(scheduler)@ == old(scheduler)@
            &&& *final(tf) == *old(tf)
            &&& served == Served::Ignored
        },
{
    match interrupt {
        Interrupt::Timer1 => {
            let next = scheduler.switch(State::Ready, tf, now);
            Served::Tick { next }
        },
        _ => Served::Ignored,
    }
}

} // verus!
