use std::collections::VecDeque;
use vstd::prelude::*;
use crate::process::lemmas::{lemma_batch_keeps_wf, lemma_switch_keeps_wf};
use crate::process::process::{Id, Process};
use crate::process::stack::Stack;
use crate::process::state::State;
use crate::traps::trap_frame::TrapFrame;

verus! {

/// Microseconds between two ticks of the preemption timer.
pub const TICK: u32 = 2 * 1000 * 1000;

/// What a scheduler holds, as a mathematical value: the processes that wait
/// for the processor in the order in which they queued, the process on the
/// processor, and the identity given out last.
pub struct Schedule {
    pub queue: Seq<Process>,
    pub current: Option<Process>,
    pub last_id: Option<Id>,
}

impl Schedule {
    /// The schedule without any process.
    pub open spec fn empty() -> Schedule {
        Schedule { queue: Seq::empty(), current: None, last_id: None }
    }

    /// The identity that the next process to be added receives: zero for the
    /// first process, otherwise one more than the last, starting again from
    /// zero when the range of identities is used up.
    pub open spec fn next_id(self) -> Id {
        match self.last_id {
            Some(id) => if id == u64::MAX {
                0
            } else {
                (id + 1) as u64
            },
            None => 0,
        }
    }

    /// The schedule after `process` has been added: the process carries its
    /// new identity in its trap frame; the first process ever added is the
    /// current one, every later one joins the end of the queue.
    pub open spec fn added(self, process: Process) -> Schedule {
        let id = self.next_id();
        let process = Process {
            trap_frame: TrapFrame { tpidr: id, ..process.trap_frame },
            ..process
        };
        if self.last_id is None {
            Schedule { queue: self.queue, current: Some(process), last_id: Some(id) }
        } else {
            Schedule { queue: self.queue.push(process), current: self.current, last_id: Some(id) }
        }
    }

    /// The schedule after the processes of `batch` have been added one after
    /// the other.
    pub open spec fn added_all(self, batch: Seq<Process>) -> Schedule
        decreases batch.len(),
    {
        if batch.len() == 0 {
            self
        } else {
            self.added_all(batch.drop_last()).added(batch.last())
        }
    }

    /// The queue that a switch scans: the current process, if there is one,
    /// has taken `new_state` and the trapped registers `tf` and stands at the
    /// end.
    pub open spec fn requeued(self, new_state: State, tf: TrapFrame) -> Seq<Process> {
        match self.current {
            Some(current) => self.queue.push(
                Process { trap_frame: tf, state: new_state, ..current },
            ),
            None => self.queue,
        }
    }

    /// The position of the first process at or after `from` in `queue` that
    /// is ready at the clock reading `now`.
    pub open spec fn first_ready_from(queue: Seq<Process>, now: u64, from: int) -> Option<int>
        decreases queue.len() - from,
    {
        if from < 0 || from >= queue.len() {
            None
        } else if queue[from].ready(now) {
            Some(from)
        } else {
            Schedule::first_ready_from(queue, now, from + 1)
        }
    }

    /// The position of the first process in `queue` that is ready at the
    /// clock reading `now`.
    pub open spec fn first_ready(queue: Seq<Process>, now: u64) -> Option<int> {
        Schedule::first_ready_from(queue, now, 0)
    }

    /// The schedule after a switch. The first process of the scanned queue
    /// that is ready leaves the queue and is the current one, running; where
    /// none is ready nothing is current.
    pub open spec fn switched(self, new_state: State, tf: TrapFrame, now: u64) -> Schedule {
        let queue = self.requeued(new_state, tf);
        match Schedule::first_ready(queue, now) {
            Some(i) => Schedule {
                queue: queue.remove(i),
                current: Some(Process { state: State::Running, ..queue[i] }),
                last_id: self.last_id,
            },
            None => Schedule { queue, current: None, last_id: self.last_id },
        }
    }

    /// The registers that a switch leaves in the caller's trap frame: those
    /// saved for the process it chose, each as it was saved, or the trapped
    /// ones where it chose none.
    pub open spec fn restored(self, new_state: State, tf: TrapFrame, now: u64) -> TrapFrame {
        let queue = self.requeued(new_state, tf);
        match Schedule::first_ready(queue, now) {
            Some(i) => queue[i].trap_frame,
            None => tf,
        }
    }

    /// The identity of the process that a switch chooses, if it chooses one.
    pub open spec fn selected(self, new_state: State, tf: TrapFrame, now: u64) -> Option<Id> {
        let queue = self.requeued(new_state, tf);
        match Schedule::first_ready(queue, now) {
            Some(i) => Some(queue[i].id()),
            None => None,
        }
    }

    /// Whether the schedule is well formed: no queued process is marked
    /// running, no two processes share an identity, and no identity was given
    /// out after the one recorded as last.
    pub open spec fn wf(self) -> bool {
        &&& forall|i: int| 0 <= i < self.queue.len() ==> !(#[trigger] self.queue[i].state is Running)
        &&& forall|i: int, j: int|
            0 <= i < j < self.queue.len() ==> #[trigger] self.queue[i].id() != #[trigger] self.queue[j].id()
        &&& match self.current {
            Some(current) => forall|i: int|
                0 <= i < self.queue.len() ==> #[trigger] self.queue[i].id() != current.id(),
            None => true,
        }
        &&& match self.last_id {
            Some(last) => {
                &&& forall|i: int| 0 <= i < self.queue.len() ==> #[trigger] self.queue[i].id() <= last
                &&& self.current matches Some(current) ==> current.id() <= last
            },
            None => self.queue.len() == 0 && self.current is None,
        }
    }
}

/// The scheduler of the machine: a queue of the processes that are not
/// running, the process that is, and the identity given out last.
#[derive(Debug)]
pub struct Scheduler {
    processes: VecDeque<Process>,
    current: Option<Process>,
    last_id: Option<Id>,
}

impl View for Scheduler {
    type V = Schedule;

    closed spec fn view(&self) -> Schedule {
        Schedule { queue: self.processes@, current: self.current, last_id: self.last_id }
    }
}

impl Scheduler {
    /// Returns a scheduler without any process.
    pub fn new() -> (scheduler: Scheduler)
        ensures
            scheduler@ == Schedule::empty(),
            scheduler@.wf(),
    {
        Scheduler { processes: VecDeque::new(), current: None, last_id: None }
    }

    /// Adds a process and returns its identity, which is newly given out and
    /// saved in the trap frame of the process.
    ///
    /// The first process added is the current process: the caller sees to it
    /// that this process is the one on the processor when `switch` is first
    /// called. Every later process joins the end of the queue.
    pub fn add(&mut self, process: Process) -> (id: Option<Id>)
        ensures
            final(self)@ == old(self)@.added(process),
            id == Some(old(self)@.next_id()),
            old(self)@.wf() && !(process.state is Running) && old(self)@.last_id != Some(u64::MAX)
                ==> final(self)@.wf(),
    {
        proof {
            if old(self)@.wf() && !(process.state is Running) && old(self)@.last_id != Some(
                u64::MAX,
            ) {
                lemma_add_keeps_wf(old(self)@, process);
            }
        }
        let mut admitted = process;
        let is_first_process = self.last_id.is_none();
        let new_id: Id = match self.last_id {
            Some(id) => id.wrapping_add(1),
            None => 0,
        };
        admitted.trap_frame.tpidr = new_id;
        self.last_id = Some(new_id);
        if is_first_process {
            self.current = Some(admitted);
        } else {
            self.processes.push_back(admitted);
        }
        Some(new_id)
    }

    /// Takes the processor from the current process and gives it to the next
    /// one that is ready at the clock reading `now`.
    ///
    /// The current process, if there is one, takes `new_state`, keeps the
    /// trapped registers `tf`, and joins the end of the queue. The queue is
    /// then scanned from the front for the first process that is ready. That
    /// process leaves the queue, its saved registers are copied into `tf` as
    /// they are, it is marked running and is the current process, and its
    /// identity is returned. Where no process is ready, `tf` is left alone,
    /// nothing is current, and `None` is returned: the caller waits for the
    /// next interrupt and tries again.
    ///
    /// The schedule stays well formed as long as the current process is not
    /// queued as running and the trapped registers carry its identity.
    pub fn switch(&mut self, new_state: State, tf: &mut TrapFrame, now: u64) -> (next: Option<Id>)
        ensures
            final(self)@ == old(self)@.switched(new_state, *old(tf), now),
            *final(tf) == old(self)@.restored(new_state, *old(tf), now),
            next == old(self)@.selected(new_state, *old(tf), now),
            next is None <==> forall|i: int|
                0 <= i < old(self)@.requeued(new_state, *old(tf)).len()
                    ==> !(#[trigger] old(self)@.requeued(new_state, *old(tf))[i]).ready(now),
            old(self)@.wf() && !(new_state is Running) && (old(self)@.current matches Some(current)
                ==> old(tf).tpidr == current.id()) ==> final(self)@.wf(),
    {
        let ghost queue = old(self)@.requeued(new_state, *old(tf));
        proof {
            if old(self)@.wf() && !(new_state is Running) && (old(self)@.current matches Some(
                current,
            ) ==> old(tf).tpidr == current.id()) {
                lemma_switch_keeps_wf(old(self)@, new_state, *old(tf), now);
            }
        }
        match self.current.take() {
            Some(current_process) => {
                let mut current_process = current_process;
                current_process.state = new_state;
                current_process.trap_frame = *tf;
                self.processes.push_back(current_process);
            },
            None => {},
        }
        assert(self.processes@ == queue);
        let count: usize = self.processes.len();
        let mut i: usize = 0;
        while i < count && !self.processes[i].is_ready(now)
            invariant
                i <= count,
                count == queue.len(),
                self.processes@ == queue,
                forall|j: int| 0 <= j < i ==> !(#[trigger] queue[j]).ready(now),
                Schedule::first_ready(queue, now) == Schedule::first_ready_from(queue, now, i as int),
            decreases count - i,
        {
            i += 1;
        }
        if i < count {
            match self.processes.remove(i) {
                Some(chosen) => {
                    let mut chosen = chosen;
                    *tf = chosen.trap_frame;
                    chosen.state = State::Running;
                    let id: Id = chosen.trap_frame.tpidr;
                    self.current = Some(chosen);
                    Some(id)
                },
                None => None,
            }
        } else {
            None
        }
    }
}

/// Adding a process keeps a schedule well formed, as long as the process is
/// not marked running and the identities have not run out.
pub proof fn lemma_add_keeps_wf(schedule: Schedule, process: Process)
    requires
        schedule.wf(),
        !(process.state is Running),
        schedule.last_id != Some(u64::MAX),
    ensures
        schedule.added(process).wf(),
{
}

/// A program to start: the address of its first instruction and the base
/// of the stack region allocated for it, null where the allocation failed.
#[derive(Clone, Copy, Debug, PartialEq, Eq, Structural)]
pub struct Program {
    pub entry: u64,
    pub stack_base: u64,
}

impl Schedule {
    /// The processes that `programs` start as, in the same order.
    pub open spec fn spawned(programs: Seq<Program>) -> Seq<Process> {
        Seq::new(programs.len(), |i: int| Process::spawned(programs[i].entry, programs[i].stack_base))
    }

    /// The schedule with which the machine starts `programs`: the first is
    /// current with identity zero, the others queue behind it in order with
    /// the identities that follow.
    pub open spec fn booted(programs: Seq<Program>) -> Schedule {
        Schedule::empty().added_all(Schedule::spawned(programs))
    }
}

/// The scheduler of the whole machine, which does not schedule until it has
/// been started.
#[derive(Debug)]
pub struct GlobalScheduler(Option<Scheduler>);

impl View for GlobalScheduler {
    type V = Option<Schedule>;

    closed spec fn view(&self) -> Option<Schedule> {
        match self.0 {
            Some(scheduler) => Some(scheduler@),
            None => None,
        }
    }
}

impl GlobalScheduler {
    /// Returns a scheduler that has not been started.
    pub fn uninitialized() -> (global: GlobalScheduler)
        ensures
            global@ is None,
    {
        GlobalScheduler(None)
    }

    /// Tells whether the scheduler has been started.
    pub fn is_started(&self) -> (started: bool)
        ensures
            started == (self@ is Some),
    {
        self.0.is_some()
    }

    /// Adds a process to the started scheduler and returns its identity, as
    /// `Scheduler::add` does.
    pub fn add(&mut self, process: Process) -> (id: Option<Id>)
        requires
            old(self)@ is Some,
        ensures
            final(self)@ == Some(old(self)@->0.added(process)),
            id == Some(old(self)@->0.next_id()),
            old(self)@->0.wf() && !(process.state is Running) && old(self)@->0.last_id != Some(
                u64::MAX,
            ) ==> final(self)@->0.wf(),
    {
        match &mut self.0 {
            Some(scheduler) => scheduler.add(process),
            None => None,
        }
    }

    /// Switches the started scheduler from the current process, which takes
    /// `new_state` and the trapped registers `tf`, to the next process that
    /// is ready at the clock reading `now`, as `Scheduler::switch` does.
    #[must_use]
    pub fn switch(&mut self, new_state: State, tf: &mut TrapFrame, now: u64) -> (next: Option<Id>)
        requires
            old(self)@ is Some,
        ensures
            final(self)@ == Some(old(self)@->0.switched(new_state, *old(tf), now)),
            *final(tf) == old(self)@->0.restored(new_state, *old(tf), now),
            next == old(self)@->0.selected(new_state, *old(tf), now),
            next is None <==> forall|i: int|
                0 <= i < old(self)@->0.requeued(new_state, *old(tf)).len()
                    ==> !(#[trigger] old(self)@->0.requeued(new_state, *old(tf))[i]).ready(now),
            old(self)@->0.wf() && !(new_state is Running) && (old(self)@->0.current matches Some(
                current,
            ) ==> old(tf).tpidr == current.id()) ==> final(self)@->0.wf(),
    {
        match &mut self.0 {
            Some(scheduler) => scheduler.switch(new_state, tf, now),
            None => None,
        }
    }

    /// Starts the scheduler with the processes that run `programs`.
    ///
    /// Each program gets a process of its own that begins at the entry of the
    /// program on the program's stack. The process of the first program is
    /// the current one: the returned registers are its registers, and the
    /// caller installs them and leaves for the unprivileged level. Where
    /// there is no first program, or no stack for it, nothing is started and
    /// `None` is returned, whatever the later programs are. With a first
    /// process, every later program has a stack. The schedule that is
    /// started is well formed.
    pub fn start(&mut self, programs: &Vec<Program>) -> (first: Option<TrapFrame>)
        requires
            programs@.len() > 0 && Stack::valid_base(programs@[0].stack_base) ==> forall|i: int|
                1 <= i < programs@.len() ==> Stack::valid_base(#[trigger] programs@[i].stack_base),
        ensures
            first is Some <==> programs@.len() > 0 && Stack::valid_base(programs@[0].stack_base),
            first is None ==> final(self)@ == old(self)@,
            first matches Some(frame) ==> {
                &&& final(self)@ == Some(Schedule::booted(programs@))
                &&& final(self)@->0.wf()
                &&& final(self)@->0.current matches Some(current) && current.trap_frame == frame
                &&& frame == (TrapFrame {
                    tpidr: 0,
                    ..Process::spawned(programs@[0].entry, programs@[0].stack_base).trap_frame
                })
            },
    {
        if programs.len() == 0 {
            return None;
        }
        let mut start_process = match Process::new(programs[0].stack_base) {
            Some(process) => process,
            None => {
                return None;
            },
        };
        start_process.enter_at(programs[0].entry);
        let mut frame: TrapFrame = start_process.trap_frame;
        let ghost processes = Schedule::spawned(programs@);
        proof {
            Stack::lemma_at_base(programs@[0].stack_base);
            assert(start_process == processes[0]);
            assert(processes.take(1).drop_last() == Seq::<Process>::empty());
            assert(Schedule::empty().added_all(processes.take(1).drop_last()) == Schedule::empty());
            assert(processes.take(1).last() == processes[0]);
        }
        let mut scheduler = Scheduler::new();
        match scheduler.add(start_process) {
            Some(id) => {
                frame.tpidr = id;
            },
            None => {},
        }
        let mut i: usize = 1;
        while i < programs.len()
            invariant
                1 <= i <= programs@.len(),
                processes == Schedule::spawned(programs@),
                scheduler@ == Schedule::empty().added_all(processes.take(i as int)),
                scheduler@.current matches Some(current) && current.trap_frame == frame,
                scheduler@.last_id is Some,
                forall|k: int|
                    1 <= k < programs@.len() ==> Stack::valid_base(#[trigger] programs@[k].stack_base),
            decreases programs@.len() - i,
        {
            match Process::new(programs[i].stack_base) {
                Some(process) => {
                    let mut process = process;
                    process.enter_at(programs[i].entry);
                    proof {
                        Stack::lemma_at_base(programs@[i as int].stack_base);
                        assert(process == processes[i as int]);
                        assert(processes.take(i + 1).drop_last() == processes.take(i as int));
                        assert(processes.take(i + 1).last() == processes[i as int]);
                    }
                    scheduler.add(process);
                },
                None => {
                    assert(false);
                },
            }
            i += 1;
        }
        proof {
            assert(processes.take(programs@.len() as int) == processes);
            lemma_batch_keeps_wf(Schedule::empty(), processes);
        }
        self.0 = Some(scheduler);
        Some(frame)
    }
}

} // verus!
