pub mod irq;
pub mod syndrome;
pub mod syscall;
pub mod trap_frame;

use vstd::prelude::*;
use crate::interrupt::Interrupt;
use crate::process::scheduler::GlobalScheduler;
use crate::process::state::State;

pub use self::irq::{handle_irq, rearm_interval, Served};
pub use self::syndrome::{Fault, Syndrome};
pub use self::syscall::{handle_syscall, Dispatched};
pub use self::trap_frame::TrapFrame;

verus! {

/// The kind of an exception, as the vector that took it tells.
#[derive(Debug, PartialEq, Eq, Copy, Clone, Structural)]
pub enum Kind {
    Synchronous,
    Irq,
    Fiq,
    SError,
}

/// The level and stack from which an exception was taken.
#[derive(Debug, PartialEq, Eq, Copy, Clone, Structural)]
pub enum Source {
    CurrentSpEl0,
    CurrentSpElx,
    LowerAArch64,
    LowerAArch32,
}

/// The classification of an exception.
#[derive(Debug, PartialEq, Eq, Copy, Clone, Structural)]
pub struct Info {
    pub source: Source,
    pub kind: Kind,
}

impl Kind {
    /// The kind that the entry code passes as the number `code`.
    pub open spec fn of_code(code: u16) -> Option<Kind> {
        if code == 0 {
            Some(Kind::Synchronous)
        } else if code == 1 {
            Some(Kind::Irq)
        } else if code == 2 {
            Some(Kind::Fiq)
        } else if code == 3 {
            Some(Kind::SError)
        } else {
            None
        }
    }

    /// Returns the kind that the entry code passes as the number `code`, if
    /// the number names one.
    pub fn from_code(code: u16) -> (kind: Option<Kind>)
        ensures
            kind == Kind::of_code(code),
    {
        match code {
            0 => Some(Kind::Synchronous),
            1 => Some(Kind::Irq),
            2 => Some(Kind::Fiq),
            3 => Some(Kind::SError),
            _ => None,
        }
    }
}

impl Source {
    /// The source that the entry code passes as the number `code`.
    pub open spec fn of_code(code: u16) -> Option<Source> {
        if code == 0 {
            Some(Source::CurrentSpEl0)
        } else if code == 1 {
            Some(Source::CurrentSpElx)
        } else if code == 2 {
            Some(Source::LowerAArch64)
        } else if code == 3 {
            Some(Source::LowerAArch32)
        } else {
            None
        }
    }

    /// Returns the source that the entry code passes as the number `code`,
    /// if the number names one.
    pub fn from_code(code: u16) -> (source: Option<Source>)
        ensures
            source == Source::of_code(code),
    {
        match code {
            0 => Some(Source::CurrentSpEl0),
            1 => Some(Source::CurrentSpElx),
            2 => Some(Source::LowerAArch64),
            3 => Some(Source::LowerAArch32),
            _ => None,
        }
    }
}

/// What the handling of an exception leaves for the caller to do before it
/// returns from the exception with the registers in the trap frame.
#[derive(Debug, PartialEq, Eq, Copy, Clone, Structural)]
pub enum Outcome {
    /// A breakpoint was hit. The caller opens the diagnostic shell, with the
    /// immediate of the instruction where a `brk` instruction trapped, and
    /// resumes when the shell is left. The link register already points
    /// behind the trapping instruction.
    Debug(Option<u16>),
    /// A system call was handled.
    Syscall(Dispatched),
    /// An interrupt request was taken. `None` says that no source was
    /// pending and nothing was done.
    Interrupt(Option<Served>),
    /// The exception cannot be recovered from. The caller reports the
    /// classification, the syndrome and the registers, and halts for good.
    Fatal(Syndrome),
}

/// Whether the handling of an exception needs the scheduler: it does for a
/// sleep call and for a tick of the preemption timer.
pub open spec fn schedules(info: Info, esr: u32, pending: Option<Interrupt>) -> bool {
    match info.kind {
        Kind::Synchronous => Syndrome::decode(esr) == Syndrome::Svc(syscall::SLEEP),
        Kind::Irq => pending == Some(Interrupt::Timer1),
        _ => false,
    }
}

/// Tells whether the handling of an exception needs the scheduler, which
/// then has to have been started.
pub fn needs_scheduler(info: Info, esr: u32, pending: Option<Interrupt>) -> (needed: bool)
    ensures
        needed == schedules(info, esr, pending),
{
    match info.kind {
        Kind::Synchronous => match Syndrome::from(esr) {
            Syndrome::Svc(num) => num == syscall::SLEEP,
            _ => false,
        },
        Kind::Irq => match pending {
            Some(Interrupt::Timer1) => true,
            _ => false,
        },
        _ => false,
    }
}

/// Handles an exception. `info` tells its source and kind, `esr` is the
/// value of the syndrome register, and `tf` holds the registers that were
/// saved when it was taken. `pending` is the pending interrupt source that is
/// served first, `start` the clock reading at entry, and `now` the reading
/// at which a switch, if there is one, looks for the next process.
///
/// A synchronous exception is handled by its syndrome. A breakpoint, of
/// either kind, moves the link register behind the trapping instruction and
/// asks for the diagnostic shell. A supervisor call is a system call, whose
/// number is the immediate of the instruction. Every other syndrome is fatal.
/// An interrupt request is handled by `handle_irq` where a source is pending,
/// and is left alone where none is; the caller has armed the next tick of
/// the timer before, where `rearm_interval` names one. Fast interrupts and system errors are
/// fatal.
///
/// The processor changes hands only through the scheduler: where the outcome
/// is neither a system call nor an interrupt, the scheduler is as before
/// and the trap frame still holds the registers of the process that trapped.
/// A well-formed schedule stays well formed, as long as the trapped
/// registers carry the identity of the current process.
pub fn handle_exception(
    info: Info,
    esr: u32,
    tf: &mut TrapFrame,
    scheduler: &mut GlobalScheduler,
    pending: Option<Interrupt>,
    start: u64,
    now: u64,
) -> (outcome: Outcome)
    requires
        schedules(info, esr, pending) ==> old(scheduler)@ is Some,
    ensures
        info.kind == Kind::Synchronous ==> match Syndrome::decode(esr) {
            Syndrome::Brk(code) => {
                &&& outcome == Outcome::Debug(Some(code))
                &&& *final(tf) == old(tf).advanced()
                &&& final(scheduler)@ == old(scheduler)@
            },
            Syndrome::Breakpoint => {
                &&& outcome == Outcome::Debug(None)
                &&& *final(tf) == old(tf).advanced()
                &&& final(scheduler)@ == old(scheduler)@
            },
            Syndrome::Svc(num) => {
                &&& outcome is Syscall
                &&& num != syscall::SLEEP ==> {
                    &&& outcome == Outcome::Syscall(Dispatched::Unknown)
                    &&& *final(tf) == syscall::refused(*old(tf))
                    &&& final(scheduler)@ == old(scheduler)@
                }
                &&& num == syscall::SLEEP ==> {
                    let before = old(scheduler)@->0;
                    let wait = syscall::wait_for(syscall::requested_millis(*old(tf)), start);
                    let saved = syscall::asleep(*old(tf), start, now);
                    &&& outcome == Outcome::Syscall(
                        Dispatched::Slept(before.selected(wait, saved, now)),
                    )
                    &&& *final(tf) == before.restored(wait, saved, now)
                    &&& final(scheduler)@ == Some(before.switched(wait, saved, now))
                }
            },
            other => {
                &&& outcome == Outcome::Fatal(other)
                &&& *final(tf) == *old(tf)
                &&& final(scheduler)@ == old(scheduler)@
            },
        },
        info.kind == Kind::Irq ==> match pending {
            Some(interrupt) => {
                &&& irq::preempts(interrupt) ==> {
                    let before = old(scheduler)@->0;
                    &&& outcome == Outcome::Interrupt(
                        Some(Served::Tick { next: before.selected(State::Ready, *old(tf), now) }),
                    )
                    &&& *final(tf) == before.restored(State::Ready, *old(tf), now)
                    &&& final(scheduler)@ == Some(before.switched(State::Ready, *old(tf), now))
                }
                &&& !irq::preempts(interrupt) ==> {
                    &&& outcome == Outcome::Interrupt(Some(Served::Ignored))
                    &&& *final(tf) == *old(tf)
                    &&& final(scheduler)@ == old(scheduler)@
                }
            },
            None => {
                &&& outcome == Outcome::Interrupt(None)
                &&& *final(tf) == *old(tf)
                &&& final(scheduler)@ == old(scheduler)@
            },
        },
        info.kind == Kind::Fiq || info.kind == Kind::SError ==> {
            &&& outcome == Outcome::Fatal(Syndrome::decode(esr))
            &&& *final(tf) == *old(tf)
            &&& final(scheduler)@ == old(scheduler)@
        },
        old(scheduler)@ is Some && old(scheduler)@->0.wf() && (old(scheduler)@->0.current
            matches Some(current) ==> old(tf).tpidr == current.id()) ==> final(scheduler)@ is Some
            && final(scheduler)@->0.wf(),
{
    let syndrome = Syndrome::from(esr);
    match info.kind {
        Kind::Synchronous => match syndrome {
            Syndrome::Brk(break_num) => {
                tf.advance();
                Outcome::Debug(Some(break_num))
            },
            Syndrome::Breakpoint => {
                tf.advance();
                Outcome::Debug(None)
            },
            Syndrome::Svc(exception_num) => {
                Outcome::Syscall(handle_syscall(exception_num, tf, scheduler, start, now))
            },
            _ => Outcome::Fatal(syndrome),
        },
        Kind::Irq => match pending {
            Some(interrupt) => Outcome::Interrupt(Some(handle_irq(interrupt, tf, scheduler, now))),
            None => Outcome::Interrupt(None),
        },
        _ => Outcome::Fatal(syndrome),
    }
}

} // verus!
