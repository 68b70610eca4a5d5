use vstd::prelude::*;
use crate::process::process::{Id, Process};
use crate::process::scheduler::{GlobalScheduler, Schedule};
use crate::process::state::{Deadline, State};
use crate::traps::trap_frame::TrapFrame;

verus! {

/// The number of the system call that puts its caller to sleep.
pub const SLEEP: u16 = 1;

/// Status of a system call that succeeded.
pub const STATUS_OK: u64 = 0;

/// Status of a system call whose number names no call.
pub const STATUS_UNKNOWN: u64 = 1;

/// What a system call leaves for the caller of the handler to do.
#[derive(Copy, Clone, Debug, PartialEq, Eq, Structural)]
pub enum Dispatched {
    /// The call was completed in the registers of the calling process, the
    /// process was put to sleep, and the scheduler switched. With `Some`, the
    /// registers of the process of that identity are now in the trap frame. With `None` no process was ready, and the caller waits for
    /// the next interrupt and switches again.
    Slept(Option<Id>),
    /// The number names no system call: the status register says so and
    /// nothing was scheduled.
    Unknown,
}

/// The wait that a sleep of `ms` milliseconds, entered at the clock reading
/// `start`, puts its caller into: until more than that time has gone by
/// since `start`.
pub open spec fn wait_for(ms: u32, start: u64) -> State {
    State::Waiting(Deadline { start, micros: (ms * 1000) as u64 })
}

/// Whole milliseconds from the clock reading `start` to the reading `now`,
/// both in microseconds, on a clock that wraps around at the end of its
/// range.
pub open spec fn elapsed_millis(start: u64, now: u64) -> u64 {
    (Deadline { start, micros: 0 }).elapsed_millis(now)
}

/// The registers that are saved for a process that goes to sleep with the
/// trapped registers `tf`, in a call that was entered at the clock reading
/// `start` and is handled at the reading `now`: the result of the call is
/// the time that has gone by since it was entered, in whole milliseconds,
/// its status is success, and the link register points behind the calling
/// instruction. Every other register is as it trapped.
pub open spec fn asleep(tf: TrapFrame, start: u64, now: u64) -> TrapFrame {
    (TrapFrame { x0: elapsed_millis(start, now), x7: STATUS_OK, ..tf }).advanced()
}

/// Puts the current process to sleep for `ms` milliseconds.
///
/// The call was entered at the clock reading `start`, and `now` is the
/// reading at which it is handled and the scheduler looks for the next
/// process. The call is completed in the registers of the caller, which
/// `tf` holds: the result is the time since `start` in whole milliseconds,
/// the status is success, and the link register moves behind the calling
/// instruction. With these registers saved for it, the caller waits until
/// more than `ms` milliseconds have gone by since `start`, and the scheduler
/// switches away from it. The registers that the switch leaves in `tf` are
/// those saved for the process it chose, each as it was saved; the sleeper
/// gets its own back when a later switch chooses it.
pub fn sleep(
    ms: u32,
    tf: &mut TrapFrame,
    scheduler: &mut GlobalScheduler,
    start: u64,
    now: u64,
) -> (next: Option<Id>)
    requires
        old(scheduler)@ is Some,
    ensures
        ({
            let before = old(scheduler)@->0;
            let wait = wait_for(ms, start);
            let saved = asleep(*old(tf), start, now);
            &&& final(scheduler)@ == Some(before.switched(wait, saved, now))
            &&& *final(tf) == before.restored(wait, saved, now)
            &&& next == before.selected(wait, saved, now)
            &&& before.wf() && (before.current matches Some(current) ==> old(tf).tpidr
                == current.id()) ==> final(scheduler)@->0.wf()
        }),
{
    let deadline = Deadline::after_millis(start, ms);
    tf.x0 = deadline.millis_since_start(now);
    tf.x7 = STATUS_OK;
    tf.advance();
    scheduler.switch(State::Waiting(deadline), tf, now)
}

/// What a sleep does to the registers. The sleeper stands at the end of the
/// queue with the registers it trapped with, but for the result and the
/// status of the call and the link register, which is one instruction on.
/// The process that is chosen gets back the registers that were saved for
/// it, each of them, whether it was ready or waited; the sleeper, when it is
/// the one, gets back the registers saved for it just now.
pub proof fn lemma_sleep_registers(schedule: Schedule, ms: u32, tf: TrapFrame, start: u64, now: u64)
    requires
        schedule.current is Some,
    ensures
        ({
            let wait = wait_for(ms, start);
            let saved = asleep(tf, start, now);
            let queue = schedule.requeued(wait, saved);
            let sleeper = queue.last();
            let after = schedule.switched(wait, saved, now);
            &&& queue.len() == schedule.queue.len() + 1
            &&& sleeper.state == wait
            &&& sleeper.trap_frame == (TrapFrame {
                x0: elapsed_millis(start, now),
                x7: STATUS_OK,
                elr: tf.advanced().elr,
                ..tf
            })
            &&& forall|i: int|
                0 <= i < schedule.queue.len() ==> #[trigger] queue[i] == schedule.queue[i]
            &&& match Schedule::first_ready(queue, now) {
                Some(i) => {
                    &&& schedule.restored(wait, saved, now) == queue[i].trap_frame
                    &&& after.current == Some(Process { state: State::Running, ..queue[i] })
                    &&& i < queue.len() - 1 ==> {
                        &&& schedule.restored(wait, saved, now) == schedule.queue[i].trap_frame
                        &&& after.queue.last() == sleeper
                    }
                },
                None => {
                    &&& schedule.restored(wait, saved, now) == saved
                    &&& after.queue.last() == sleeper
                },
            }
        }),
{
    let wait = wait_for(ms, start);
    let queue = schedule.requeued(wait, asleep(tf, start, now));
    crate::process::lemmas::lemma_first_ready(queue, now);
}

/// The registers after a system call whose number names no call: the status
/// says so, and execution resumes after the calling instruction.
pub open spec fn refused(tf: TrapFrame) -> TrapFrame {
    (TrapFrame { x7: STATUS_UNKNOWN, ..tf }).advanced()
}

/// The low thirty-two bits of the argument register: the milliseconds that a
/// sleep asks for.
pub open spec fn requested_millis(tf: TrapFrame) -> u32 {
    (tf.x0 as int % 0x1_0000_0000) as u32
}

/// Handles the system call of number `num` that trapped with the registers
/// `tf`. The call was entered at the clock reading `start`; `now` is the
/// reading at which a switch, if there is one, looks for the next process.
///
/// The argument and the result of a call travel in `x0` and its status in
/// `x7`. After the call the link register of the calling process is one
/// instruction further on, so that the process resumes behind the calling
/// instruction.
///
/// Call `SLEEP` puts the caller to sleep for the milliseconds in `x0`, as `sleep`
/// does. Any other number names no call: the status is `STATUS_UNKNOWN` and
/// the scheduler is left alone.
pub fn handle_syscall(
    num: u16,
    tf: &mut TrapFrame,
    scheduler: &mut GlobalScheduler,
    start: u64,
    now: u64,
) -> (done: Dispatched)
    requires
        num == SLEEP ==> old(scheduler)@ is Some,
    ensures
        num == SLEEP ==> {
            let before = old(scheduler)@->0;
            let wait = wait_for(requested_millis(*old(tf)), start);
            let saved = asleep(*old(tf), start, now);
            &&& final(scheduler)@ == Some(before.switched(wait, saved, now))
            &&& *final(tf) == before.restored(wait, saved, now)
            &&& done == Dispatched::Slept(before.selected(wait, saved, now))
            &&& before.wf() && (before.current matches Some(current) ==> old(tf).tpidr
                == current.id()) ==> final(scheduler)@->0.wf()
        },
        num != SLEEP ==> {
            &&& final(scheduler)@ == old(scheduler)@
            &&& *final(tf) == refused(*old(tf))
            &&& done == Dispatched::Unknown
        },
{
    if num == SLEEP {
        let argument: u64 = tf.x0;
        assert(argument & 0xffff_ffff == argument % 0x1_0000_0000) by (bit_vector);
        let ms: u32 = (argument & 0xffff_ffff) as u32;
        Dispatched::Slept(sleep(ms, tf, scheduler, start, now))
    } else {
        tf.x7 = STATUS_UNKNOWN;
        tf.advance();
        Dispatched::Unknown
    }
}

} // verus!
