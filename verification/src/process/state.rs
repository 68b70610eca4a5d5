use vstd::prelude::*;

verus! {

/// A condition on the clock that a sleeping process waits for: more than
/// `micros` microseconds have gone by since the reading `start`.
#[derive(Clone, Copy, Debug, PartialEq, Eq, Structural)]
pub struct Deadline {
    /// The clock reading, in microseconds, from which the wait counts.
    pub start: u64,
    /// The length of the wait in microseconds.
    pub micros: u64,
}

impl Deadline {
    /// Microseconds from `start` to `now` on a clock that wraps around at
    /// the end of its range.
    pub open spec fn elapsed(self, now: u64) -> int {
        if now >= self.start {
            now - self.start
        } else {
            now - self.start + 0x1_0000_0000_0000_0000
        }
    }

    /// Whether the wait is over at the clock reading `now`.
    pub open spec fn passed(self, now: u64) -> bool {
        self.elapsed(now) > self.micros
    }

    /// Whole milliseconds from `start` to `now`.
    pub open spec fn elapsed_millis(self, now: u64) -> u64 {
        (self.elapsed(now) / 1000) as u64
    }

    /// A wait of `ms` milliseconds that begins at the reading `start`.
    pub fn after_millis(start: u64, ms: u32) -> (deadline: Deadline)
        ensures
            deadline == (Deadline { start, micros: (ms as int * 1000) as u64 }),
            deadline.micros == ms as int * 1000,
    {
        let ms: u64 = ms as u64;
        Deadline { start, micros: ms * 1000 }
    }

    /// Returns the whole milliseconds from `start` to the clock reading
    /// `now`.
    pub fn millis_since_start(&self, now: u64) -> (millis: u64)
        ensures
            millis == self.elapsed_millis(now),
    {
        now.wrapping_sub(self.start) / 1000
    }

    /// Tells whether the wait is over at the clock reading `now`.
    pub fn has_passed(&self, now: u64) -> (over: bool)
        ensures
            over == self.passed(now),
    {
        now.wrapping_sub(self.start) > self.micros
    }
}

/// The scheduling state of a process.
#[derive(Clone, Copy, Debug, PartialEq, Eq, Structural)]
pub enum State {
    /// The process can run as soon as the processor is free.
    Ready,
    /// The process is the one on the processor.
    Running,
    /// The process can run once its deadline has passed.
    Waiting(Deadline),
}

impl State {
    /// Whether a process in this state may be given the processor at the
    /// clock reading `now`.
    pub open spec fn ready(self, now: u64) -> bool {
        match self {
            State::Ready => true,
            State::Running => false,
            State::Waiting(deadline) => deadline.passed(now),
        }
    }
}

} // verus!
