use vstd::prelude::*;
use crate::process::process::Process;
use crate::process::scheduler::Schedule;
use crate::process::state::State;
use crate::traps::trap_frame::TrapFrame;

verus! {

/// What the scan from `from` finds: the position it returns holds a ready
/// process and no process between `from` and that position is ready; where
/// it returns none, no process at or after `from` is ready.
pub proof fn lemma_first_ready_from(queue: Seq<Process>, now: u64, from: int)
    requires
        0 <= from <= queue.len(),
    ensures
        match Schedule::first_ready_from(queue, now, from) {
            Some(i) => {
                &&& from <= i < queue.len()
                &&& queue[i].ready(now)
                &&& forall|j: int| from <= j < i ==> !(#[trigger] queue[j]).ready(now)
            },
            None => forall|j: int| from <= j < queue.len() ==> !(#[trigger] queue[j]).ready(now),
        },
    decreases queue.len() - from,
{
    if from < queue.len() && !queue[from].ready(now) {
        lemma_first_ready_from(queue, now, from + 1);
    }
}

/// The scan finds the first ready process of the queue, and finds none
/// exactly when no queued process is ready.
pub proof fn lemma_first_ready(queue: Seq<Process>, now: u64)
    ensures
        match Schedule::first_ready(queue, now) {
            Some(i) => {
                &&& 0 <= i < queue.len()
                &&& queue[i].ready(now)
                &&& forall|j: int| 0 <= j < i ==> !(#[trigger] queue[j]).ready(now)
            },
            None => forall|j: int| 0 <= j < queue.len() ==> !(#[trigger] queue[j]).ready(now),
        },
{
    lemma_first_ready_from(queue, now, 0);
}

/// A position that holds a ready process, with no ready process before it,
/// is the one that the scan finds.
pub proof fn lemma_first_ready_is(queue: Seq<Process>, now: u64, i: int)
    requires
        0 <= i < queue.len(),
        queue[i].ready(now),
        forall|j: int| 0 <= j < i ==> !(#[trigger] queue[j]).ready(now),
    ensures
        Schedule::first_ready(queue, now) == Some(i),
{
    lemma_first_ready(queue, now);
}

/// A switch chooses no process if and only if none of the processes it
/// scans is ready: none is marked ready, and the deadline of every waiting
/// one is still ahead.
pub proof fn lemma_none_iff_nothing_ready(
    schedule: Schedule,
    new_state: State,
    tf: TrapFrame,
    now: u64,
)
    ensures
        schedule.selected(new_state, tf, now) is None <==> forall|i: int|
            0 <= i < schedule.requeued(new_state, tf).len() ==> {
                let process = #[trigger] schedule.requeued(new_state, tf)[i];
                &&& !(process.state is Ready)
                &&& process.state matches State::Waiting(deadline) ==> !deadline.passed(now)
            },
{
    let queue = schedule.requeued(new_state, tf);
    lemma_first_ready(queue, now);
    if schedule.selected(new_state, tf, now) is None {
        assert forall|i: int| 0 <= i < queue.len() implies {
            let process = #[trigger] queue[i];
            &&& !(process.state is Ready)
            &&& process.state matches State::Waiting(deadline) ==> !deadline.passed(now)
        } by {
            assert(!queue[i].ready(now));
        }
    } else {
        let chosen = Schedule::first_ready(queue, now)->0;
        assert(queue[chosen].ready(now));
    }
}

/// What a switch does, whatever the states of the processes. It scans the
/// queue with the current process, in its new state and with the trapped
/// registers, at the end. The first process that is ready is chosen: the
/// caller gets the registers saved for it, each as it was saved, and its
/// identity; it is the current process, running and otherwise as it was
/// queued; and the queue is the scanned one without it, in the same order.
/// Where no process is ready the caller keeps the trapped registers, nothing
/// is current, and the queue is the scanned one.
pub proof fn lemma_switch_chooses_first_ready(
    schedule: Schedule,
    new_state: State,
    tf: TrapFrame,
    now: u64,
)
    ensures
        ({
            let queue = schedule.requeued(new_state, tf);
            let after = schedule.switched(new_state, tf, now);
            &&& schedule.current matches Some(current) ==> queue == schedule.queue.push(
                Process { trap_frame: tf, state: new_state, ..current },
            )
            &&& schedule.current is None ==> queue == schedule.queue
            &&& match Schedule::first_ready(queue, now) {
                Some(i) => {
                    &&& 0 <= i < queue.len()
                    &&& queue[i].ready(now)
                    &&& forall|j: int| 0 <= j < i ==> !(#[trigger] queue[j]).ready(now)
                    &&& schedule.restored(new_state, tf, now) == queue[i].trap_frame
                    &&& schedule.selected(new_state, tf, now) == Some(queue[i].trap_frame.tpidr)
                    &&& after.current == Some(Process { state: State::Running, ..queue[i] })
                    &&& after.queue == queue.remove(i)
                },
                None => {
                    &&& forall|j: int| 0 <= j < queue.len() ==> !(#[trigger] queue[j]).ready(now)
                    &&& schedule.restored(new_state, tf, now) == tf
                    &&& schedule.selected(new_state, tf, now) is None
                    &&& after.current is None
                    &&& after.queue == queue
                },
            }
            &&& after.last_id == schedule.last_id
        }),
{
    lemma_first_ready(schedule.requeued(new_state, tf), now);
}

/// A waiting process is never chosen while its deadline is ahead. Once the
/// deadline has passed, the switch chooses a process, and it chooses this
/// one unless a process before it in the queue is ready as well.
pub proof fn lemma_waiting_process(
    schedule: Schedule,
    new_state: State,
    tf: TrapFrame,
    now: u64,
    i: int,
)
    requires
        0 <= i < schedule.requeued(new_state, tf).len(),
        schedule.requeued(new_state, tf)[i].state is Waiting,
    ensures
        ({
            let queue = schedule.requeued(new_state, tf);
            let deadline = queue[i].state->Waiting_0;
            &&& !deadline.passed(now) ==> Schedule::first_ready(queue, now) != Some(i)
            &&& deadline.passed(now) ==> schedule.selected(new_state, tf, now) is Some
            &&& deadline.passed(now) && (forall|j: int| 0 <= j < i ==> !(#[trigger] queue[j]).ready(now))
                ==> {
                &&& Schedule::first_ready(queue, now) == Some(i)
                &&& schedule.selected(new_state, tf, now) == Some(queue[i].id())
                &&& schedule.restored(new_state, tf, now) == queue[i].trap_frame
                &&& schedule.switched(new_state, tf, now).current == Some(
                    Process { state: State::Running, ..queue[i] },
                )
                &&& schedule.switched(new_state, tf, now).queue == queue.remove(i)
            }
        }),
{
    let queue = schedule.requeued(new_state, tf);
    lemma_first_ready(queue, now);
    let deadline = queue[i].state->Waiting_0;
    if deadline.passed(now) {
        assert(queue[i].ready(now));
    }
}

/// Whether no two processes of `queue` share an identity.
pub open spec fn distinct_ids(queue: Seq<Process>) -> bool {
    forall|i: int, j: int|
        0 <= i < j < queue.len() ==> #[trigger] queue[i].id() != #[trigger] queue[j].id()
}

/// The processes that a switch scans have identities of their own, where
/// the schedule is well formed and the trapped registers carry the identity
/// of the current process.
pub proof fn lemma_scanned_ids_distinct(schedule: Schedule, new_state: State, tf: TrapFrame)
    requires
        schedule.wf(),
        schedule.current matches Some(current) ==> tf.tpidr == current.id(),
    ensures
        distinct_ids(schedule.requeued(new_state, tf)),
{
    let queue = schedule.requeued(new_state, tf);
    assert forall|i: int, j: int| 0 <= i < j < queue.len() implies #[trigger] queue[i].id()
        != #[trigger] queue[j].id() by {
        assert(queue[i] == schedule.queue[i]);
        if j < schedule.queue.len() {
            assert(queue[j] == schedule.queue[j]);
        }
    }
}

/// A process that waits for a deadline that is still ahead is not what a
/// switch returns. Where the scanned processes have identities of their own,
/// the identity that the switch returns is not its identity, and it is not
/// the current process afterwards. It stays in the queue, waiting as before
/// and with its saved registers as they were, and keeps its place among the
/// processes that stay with it: the queue afterwards is the scanned queue
/// without the process that was chosen.
pub proof fn lemma_waiting_is_passed_over(
    schedule: Schedule,
    new_state: State,
    tf: TrapFrame,
    now: u64,
    i: int,
)
    requires
        0 <= i < schedule.requeued(new_state, tf).len(),
        schedule.requeued(new_state, tf)[i].state matches State::Waiting(deadline)
            && !deadline.passed(now),
        distinct_ids(schedule.requeued(new_state, tf)),
    ensures
        ({
            let queue = schedule.requeued(new_state, tf);
            let after = schedule.switched(new_state, tf, now);
            &&& Schedule::first_ready(queue, now) != Some(i)
            &&& schedule.selected(new_state, tf, now) != Some(queue[i].id())
            &&& after.current matches Some(current) ==> current.id() != queue[i].id()
            &&& match Schedule::first_ready(queue, now) {
                Some(chosen) => {
                    &&& after.queue == queue.remove(chosen)
                    &&& schedule.restored(new_state, tf, now) == queue[chosen].trap_frame
                    &&& chosen < i ==> after.queue[i - 1] == queue[i]
                    &&& chosen > i ==> after.queue[i] == queue[i]
                },
                None => after.queue == queue,
            }
        }),
{
    let queue = schedule.requeued(new_state, tf);
    lemma_first_ready(queue, now);
    assert(!queue[i].ready(now));
    match Schedule::first_ready(queue, now) {
        Some(chosen) => {
            if chosen < i {
                assert(queue[chosen].id() != queue[i].id());
            } else {
                assert(queue[i].id() != queue[chosen].id());
            }
        },
        None => {},
    }
}

/// A process that a switch passes over, because one before it in the queue
/// was chosen, stands one place nearer the front afterwards; one that stood
/// before the chosen process keeps its place.
pub proof fn lemma_passed_over_moves_up(
    schedule: Schedule,
    new_state: State,
    tf: TrapFrame,
    now: u64,
    i: int,
)
    requires
        0 <= i < schedule.requeued(new_state, tf).len(),
        Schedule::first_ready(schedule.requeued(new_state, tf), now) is Some,
    ensures
        ({
            let queue = schedule.requeued(new_state, tf);
            let chosen = Schedule::first_ready(queue, now)->0;
            let after = schedule.switched(new_state, tf, now);
            &&& after.queue.len() == queue.len() - 1
            &&& chosen < i ==> after.queue[i - 1] == queue[i]
            &&& i < chosen ==> after.queue[i] == queue[i]
        }),
{
    let queue = schedule.requeued(new_state, tf);
    lemma_first_ready(queue, now);
}

/// A switch neither loses a process nor makes one: it holds as many
/// afterwards as before, each either in the queue or current.
pub proof fn lemma_switch_keeps_processes(
    schedule: Schedule,
    new_state: State,
    tf: TrapFrame,
    now: u64,
)
    ensures
        ({
            let after = schedule.switched(new_state, tf, now);
            let before_count = schedule.queue.len() + if schedule.current is Some { 1int } else { 0 };
            let after_count = after.queue.len() + if after.current is Some { 1int } else { 0 };
            &&& after_count == before_count
            &&& after.last_id == schedule.last_id
        }),
{
    let queue = schedule.requeued(new_state, tf);
    lemma_first_ready(queue, now);
}

/// A switch keeps a schedule well formed, as long as the state given to the
/// current process is not `Running` and the trapped registers carry the
/// identity of the current process.
pub proof fn lemma_switch_keeps_wf(schedule: Schedule, new_state: State, tf: TrapFrame, now: u64)
    requires
        schedule.wf(),
        !(new_state is Running),
        schedule.current matches Some(current) ==> tf.tpidr == current.id(),
    ensures
        schedule.switched(new_state, tf, now).wf(),
{
    let queue = schedule.requeued(new_state, tf);
    lemma_first_ready(queue, now);
    let after = schedule.switched(new_state, tf, now);
    assert forall|i: int| 0 <= i < queue.len() implies !(#[trigger] queue[i].state is Running) by {
        if i < schedule.queue.len() {
            assert(queue[i] == schedule.queue[i]);
        }
    }
    assert forall|i: int, j: int| 0 <= i < j < queue.len() implies #[trigger] queue[i].id()
        != #[trigger] queue[j].id() by {
        if j < schedule.queue.len() {
            assert(queue[i] == schedule.queue[i]);
            assert(queue[j] == schedule.queue[j]);
        } else {
            assert(queue[i] == schedule.queue[i]);
        }
    }
    match schedule.last_id {
        Some(last) => {
            assert forall|i: int| 0 <= i < queue.len() implies #[trigger] queue[i].id() <= last by {
                if i < schedule.queue.len() {
                    assert(queue[i] == schedule.queue[i]);
                }
            }
        },
        None => {},
    }
    match Schedule::first_ready(queue, now) {
        Some(chosen) => {
            assert forall|i: int| 0 <= i < after.queue.len() implies !(
            #[trigger] after.queue[i].state is Running) by {
                if i < chosen {
                    assert(after.queue[i] == queue[i]);
                } else {
                    assert(after.queue[i] == queue[i + 1]);
                }
            }
            assert forall|i: int, j: int| 0 <= i < j < after.queue.len() implies #[trigger] after.queue[i].id()
                != #[trigger] after.queue[j].id() by {
                let a = if i < chosen { i } else { i + 1 };
                let b = if j < chosen { j } else { j + 1 };
                assert(after.queue[i] == queue[a]);
                assert(after.queue[j] == queue[b]);
            }
            assert forall|i: int| 0 <= i < after.queue.len() implies #[trigger] after.queue[i].id()
                != after.current->0.id() by {
                let a = if i < chosen { i } else { i + 1 };
                assert(after.queue[i] == queue[a]);
                if a < chosen {
                    assert(queue[a].id() != queue[chosen].id());
                } else {
                    assert(queue[chosen].id() != queue[a].id());
                }
            }
            match schedule.last_id {
                Some(last) => {
                    assert forall|i: int| 0 <= i < after.queue.len() implies #[trigger] after.queue[i].id()
                        <= last by {
                        let a = if i < chosen { i } else { i + 1 };
                        assert(after.queue[i] == queue[a]);
                    }
                    assert(queue[chosen].id() <= last);
                },
                None => {},
            }
        },
        None => {},
    }
}

/// Identities are given out in order: each add returns the identity after
/// the one returned before it, beginning again at zero after the largest.
/// Until then each identity is greater than every one given out earlier.
pub proof fn lemma_ids_follow(schedule: Schedule, first: Process)
    ensures
        ({
            let a = schedule.next_id();
            let b = schedule.added(first).next_id();
            &&& schedule.added(first).last_id == Some(a)
            &&& b as int == (a + 1) % 0x1_0000_0000_0000_0000
            &&& a < u64::MAX ==> b == a + 1
            &&& a == u64::MAX ==> b == 0
        }),
{
}

/// The identities of a batch of processes added one after the other count
/// up from the identity of the first: the process at position `k` receives
/// the `k`-th identity after it, beginning again at zero after the largest.
pub proof fn lemma_ids_of_batch(schedule: Schedule, batch: Seq<Process>, k: int)
    requires
        0 <= k <= batch.len(),
    ensures
        schedule.added_all(batch.take(k)).next_id() as int == (schedule.next_id() + k)
            % 0x1_0000_0000_0000_0000,
    decreases k,
{
    if k == 0 {
        assert(batch.take(0).len() == 0);
    } else {
        lemma_ids_of_batch(schedule, batch, k - 1);
        let shorter = batch.take(k - 1);
        assert(batch.take(k).drop_last() == shorter);
        assert(batch.take(k).last() == batch[k - 1]);
        let before = schedule.added_all(shorter);
        assert(schedule.added_all(batch.take(k)) == before.added(batch[k - 1]));
        lemma_ids_follow(before, batch[k - 1]);
        let a = before.next_id() as int;
        let start = schedule.next_id() as int;
        assert((a + 1) % 0x1_0000_0000_0000_0000 == (start + k) % 0x1_0000_0000_0000_0000) by {
            assert(a == (start + (k - 1)) % 0x1_0000_0000_0000_0000);
            lemma_successor_mod(start + (k - 1));
        }
    }
}

/// Taking the remainder before or after adding one gives the same remainder.
proof fn lemma_successor_mod(x: int)
    requires
        0 <= x,
    ensures
        ((x % 0x1_0000_0000_0000_0000) + 1) % 0x1_0000_0000_0000_0000 == (x + 1)
            % 0x1_0000_0000_0000_0000,
{
    vstd::arithmetic::div_mod::lemma_add_mod_noop(x, 1, 0x1_0000_0000_0000_0000);
    vstd::arithmetic::div_mod::lemma_small_mod(1, 0x1_0000_0000_0000_0000);
    vstd::arithmetic::div_mod::lemma_mod_twice(x, 0x1_0000_0000_0000_0000);
}

/// Adding a batch of processes keeps a schedule well formed, and so keeps
/// the identities of its processes apart, as long as none of the processes
/// is marked running and the identities do not run out on the way.
pub proof fn lemma_batch_keeps_wf(schedule: Schedule, batch: Seq<Process>)
    requires
        schedule.wf(),
        forall|i: int| 0 <= i < batch.len() ==> !(#[trigger] batch[i].state is Running),
        schedule.next_id() + batch.len() <= 0x1_0000_0000_0000_0000,
        schedule.last_id != Some(u64::MAX),
    ensures
        schedule.added_all(batch).wf(),
        batch.len() > 0 ==> schedule.added_all(batch).last_id == Some(
            (schedule.next_id() + batch.len() - 1) as u64,
        ),
        batch.len() == 0 ==> schedule.added_all(batch) == schedule,
    decreases batch.len(),
{
    if batch.len() > 0 {
        let shorter = batch.drop_last();
        assert forall|i: int| 0 <= i < shorter.len() implies !(#[trigger] shorter[i].state is Running) by {
            assert(shorter[i] == batch[i]);
        }
        lemma_batch_keeps_wf(schedule, shorter);
        let before = schedule.added_all(shorter);
        crate::process::scheduler::lemma_add_keeps_wf(before, batch.last());
    }
}

/// Two processes under repeated preemption take turns. After the first and
/// then the second have been added to an empty schedule, a switch that finds
/// the first on the processor chooses the second, and the switch after it
/// chooses the first again, whose identity the trapped registers carried.
pub proof fn lemma_two_take_turns(
    first: Process,
    second: Process,
    tf: TrapFrame,
    later_tf: TrapFrame,
    now: u64,
    later: u64,
)
    requires
        second.state is Ready,
    ensures
        ({
            let schedule = Schedule::empty().added(first).added(second);
            let after = schedule.switched(State::Ready, tf, now);
            &&& Schedule::empty().next_id() == 0
            &&& Schedule::empty().added(first).next_id() == 1
            &&& schedule.selected(State::Ready, tf, now) == Some(1u64)
            &&& after.selected(State::Ready, later_tf, later) == Some(tf.tpidr)
            &&& tf.tpidr == 0 ==> after.selected(State::Ready, later_tf, later) == Some(0u64)
            &&& after.restored(State::Ready, later_tf, later) == tf
        }),
{
    let schedule = Schedule::empty().added(first).added(second);
    let queue = schedule.requeued(State::Ready, tf);
    assert(queue.len() == 2);
    assert(queue[0].ready(now));
    lemma_first_ready_is(queue, now, 0);
    let after = schedule.switched(State::Ready, tf, now);
    assert(after.queue == queue.remove(0));
    let next_queue = after.requeued(State::Ready, later_tf);
    assert(next_queue.len() == 2);
    assert(next_queue[0] == queue[1]);
    assert(next_queue[0].ready(later));
    lemma_first_ready_is(next_queue, later, 0);
}

/// Preemption goes round the queue. Where the process at the front of the
/// queue is ready, a switch chooses it, hands back its registers, and puts
/// the process that ran, ready again and with the trapped registers, at the
/// end of the queue behind all the others.
pub proof fn lemma_preemption_rotates(schedule: Schedule, tf: TrapFrame, now: u64)
    requires
        schedule.current is Some,
        schedule.queue.len() > 0,
        schedule.queue[0].ready(now),
    ensures
        ({
            let after = schedule.switched(State::Ready, tf, now);
            let ran = schedule.current->0;
            &&& schedule.selected(State::Ready, tf, now) == Some(schedule.queue[0].id())
            &&& schedule.restored(State::Ready, tf, now) == schedule.queue[0].trap_frame
            &&& after.current == Some(Process { state: State::Running, ..schedule.queue[0] })
            &&& after.queue == schedule.queue.skip(1).push(
                Process { trap_frame: tf, state: State::Ready, ..ran },
            )
        }),
{
    let queue = schedule.requeued(State::Ready, tf);
    assert(queue[0] == schedule.queue[0]);
    lemma_first_ready_is(queue, now, 0);
    let after = schedule.switched(State::Ready, tf, now);
    assert(after.queue =~= schedule.queue.skip(1).push(
        Process { trap_frame: tf, state: State::Ready, ..schedule.current->0 },
    ));
}

/// One call of `switch`: the state that the current process takes, the
/// registers that trapped, and the clock reading.
pub struct Call {
    pub new_state: State,
    pub tf: TrapFrame,
    pub now: u64,
}

/// The schedule after the switches of `calls`, made one after the other.
pub open spec fn after_switches(schedule: Schedule, calls: Seq<Call>) -> Schedule
    decreases calls.len(),
{
    if calls.len() == 0 {
        schedule
    } else {
        let last = calls.last();
        after_switches(schedule, calls.drop_last()).switched(last.new_state, last.tf, last.now)
    }
}

/// Whether call `k` of `calls` chooses the process that stood at position
/// `i` of the queue of `schedule` before the first call: by then the
/// process has moved up `k` places, and the scan of call `k` stops at it.
pub open spec fn chosen_by(schedule: Schedule, calls: Seq<Call>, k: int, i: int) -> bool {
    let before = after_switches(schedule, calls.take(k));
    let queue = before.requeued(calls[k].new_state, calls[k].tf);
    &&& 0 <= i - k < queue.len()
    &&& queue[i - k] == schedule.queue[i]
    &&& Schedule::first_ready(queue, calls[k].now) == Some(i - k)
    &&& before.selected(calls[k].new_state, calls[k].tf, calls[k].now) == Some(schedule.queue[i].id())
}

/// A queued process that is ready is chosen within one pass over the queue:
/// with `i` processes before it, one of the next `i + 1` switches chooses
/// it, whatever those switches are given, as long as the process is ready
/// at the clock reading of each. So a waiting process whose deadline has
/// passed does not wait longer than the processes that queued before it
/// take to have their turns.
pub proof fn lemma_served_within_a_pass(schedule: Schedule, calls: Seq<Call>, i: int)
    requires
        0 <= i < schedule.queue.len(),
        calls.len() == i + 1,
        forall|k: int| 0 <= k < calls.len() ==> schedule.queue[i].ready(#[trigger] calls[k].now),
    ensures
        exists|k: int| 0 <= k <= i && chosen_by(schedule, calls, k, i),
{
    assert(calls.take(0) == Seq::<Call>::empty());
    lemma_served_from(schedule, calls, i, 0);
}

/// The induction behind `lemma_served_within_a_pass`: a process that has not
/// been chosen by the first `k` calls has moved up `k` places, and one of
/// the calls from `k` on chooses it.
proof fn lemma_served_from(schedule: Schedule, calls: Seq<Call>, i: int, k: int)
    requires
        0 <= i < schedule.queue.len(),
        calls.len() == i + 1,
        forall|j: int| 0 <= j < calls.len() ==> schedule.queue[i].ready(#[trigger] calls[j].now),
        0 <= k <= i,
        i - k < after_switches(schedule, calls.take(k)).queue.len(),
        after_switches(schedule, calls.take(k)).queue[i - k] == schedule.queue[i],
    ensures
        exists|j: int| 0 <= j <= i && chosen_by(schedule, calls, j, i),
    decreases i - k,
{
    let before = after_switches(schedule, calls.take(k));
    let call = calls[k];
    let queue = before.requeued(call.new_state, call.tf);
    assert(queue[i - k] == before.queue[i - k]);
    assert(queue[i - k].ready(call.now));
    lemma_first_ready(queue, call.now);
    let found = Schedule::first_ready(queue, call.now)->0;
    if found == i - k {
        assert(chosen_by(schedule, calls, k, i));
    } else {
        assert(found < i - k);
        let after = before.switched(call.new_state, call.tf, call.now);
        assert(after.queue[i - k - 1] == queue[i - k]);
        assert(calls.take(k + 1).drop_last() == calls.take(k));
        assert(calls.take(k + 1).last() == call);
        assert(after_switches(schedule, calls.take(k + 1)) == after);
        lemma_served_from(schedule, calls, i, k + 1);
    }
}

} // verus!
