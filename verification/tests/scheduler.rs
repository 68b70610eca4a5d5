use kernel::process::{Deadline, GlobalScheduler, Process, Program, Scheduler, Stack, State, TICK};
use kernel::traps::TrapFrame;

const BASE: u64 = 0x4000_0000;
const STACK: u64 = 0x10_0000;

fn process(n: u64) -> Process {
    let mut process = Process::new(BASE + n * STACK).expect("a stack at an aligned address");
    process.enter_at(0x8_0000 + n * 0x100);
    process
}

#[test]
fn tick_is_two_seconds() {
    assert_eq!(TICK, 2_000_000);
}

#[test]
fn ids_count_up_from_zero() {
    let mut scheduler = Scheduler::new();
    for expected in 0..10u64 {
        assert_eq!(scheduler.add(process(expected)), Some(expected));
    }
}

#[test]
fn add_saves_the_id_in_the_trap_frame() {
    let mut scheduler = Scheduler::new();
    scheduler.add(process(0));
    scheduler.add(process(1));
    scheduler.add(process(2));
    let mut tf = TrapFrame::zeroed();
    assert_eq!(scheduler.switch(State::Ready, &mut tf, 0), Some(1));
    assert_eq!(tf.tpidr, 1);
    assert_eq!(tf.elr, 0x8_0100);
    assert_eq!(tf.sp, BASE + 2 * STACK);
    assert_eq!(scheduler.switch(State::Ready, &mut tf, 0), Some(2));
    assert_eq!(tf.tpidr, 2);
    assert_eq!(tf.elr, 0x8_0200);
}

#[test]
fn two_processes_alternate() {
    let mut scheduler = Scheduler::new();
    let first = scheduler.add(process(0)).unwrap();
    let second = scheduler.add(process(1)).unwrap();
    let mut tf = TrapFrame::zeroed();
    tf.tpidr = first;
    assert_eq!(scheduler.switch(State::Ready, &mut tf, 0), Some(second));
    assert_eq!(scheduler.switch(State::Ready, &mut tf, 0), Some(first));
    assert_eq!(scheduler.switch(State::Ready, &mut tf, 0), Some(second));
    assert_eq!(scheduler.switch(State::Ready, &mut tf, 0), Some(first));
}

#[test]
fn three_processes_round_robin() {
    let mut scheduler = Scheduler::new();
    let a = scheduler.add(process(0)).unwrap();
    let b = scheduler.add(process(1)).unwrap();
    let c = scheduler.add(process(2)).unwrap();
    let mut tf = TrapFrame::zeroed();
    tf.tpidr = a;
    assert_eq!(scheduler.switch(State::Ready, &mut tf, 1), Some(b));
    assert_eq!(scheduler.switch(State::Ready, &mut tf, 2), Some(c));
    assert_eq!(scheduler.switch(State::Ready, &mut tf, 3), Some(a));
}

#[test]
fn switch_saves_and_restores_registers() {
    let mut scheduler = Scheduler::new();
    scheduler.add(process(0));
    scheduler.add(process(1));
    let mut tf = TrapFrame::zeroed();
    tf.x1 = 11;
    tf.x30 = 30;
    tf.q5 = 5 << 100;
    tf.elr = 0xABCD;
    let saved = tf;
    assert_eq!(scheduler.switch(State::Ready, &mut tf, 0), Some(1));
    assert_ne!(tf, saved);
    assert_eq!(tf.x1, 0);
    tf.x2 = 22;
    let second = tf;
    assert_eq!(scheduler.switch(State::Ready, &mut tf, 0), Some(0));
    assert_eq!(tf, saved);
    assert_eq!(scheduler.switch(State::Ready, &mut tf, 0), Some(1));
    assert_eq!(tf, second);
}

#[test]
fn switch_on_empty_scheduler_is_none_and_keeps_frame() {
    let mut scheduler = Scheduler::new();
    let mut tf = TrapFrame::zeroed();
    tf.x3 = 3;
    let before = tf;
    assert_eq!(scheduler.switch(State::Ready, &mut tf, 0), None);
    assert_eq!(tf, before);
}

#[test]
fn single_process_is_switched_back_to_itself() {
    let mut scheduler = Scheduler::new();
    scheduler.add(process(0));
    let mut tf = TrapFrame::zeroed();
    tf.x9 = 99;
    let before = tf;
    assert_eq!(scheduler.switch(State::Ready, &mut tf, 0), Some(0));
    assert_eq!(tf, before);
}

#[test]
fn waiting_process_is_skipped_until_deadline() {
    let mut scheduler = Scheduler::new();
    let a = scheduler.add(process(0)).unwrap();
    let b = scheduler.add(process(1)).unwrap();
    let mut tf = TrapFrame::zeroed();
    tf.tpidr = a;
    // B takes the processor and then asks to wait for 50 000 microseconds.
    assert_eq!(scheduler.switch(State::Ready, &mut tf, 0), Some(b));
    tf.x0 = 7;
    tf.x21 = 21;
    let waiting = tf;
    let wait = State::Waiting(Deadline { start: 0, micros: 50_000 });
    assert_eq!(scheduler.switch(wait, &mut tf, 0), Some(a));
    // At 10 000 microseconds B stands first in the queue but is passed over.
    assert_eq!(scheduler.switch(State::Ready, &mut tf, 10_000), Some(a));
    assert_eq!(scheduler.switch(State::Ready, &mut tf, 50_000), Some(a));
    // At 60 000 microseconds it is chosen, with the registers saved for it.
    assert_eq!(scheduler.switch(State::Ready, &mut tf, 60_000), Some(b));
    assert_eq!(tf, waiting);
}

#[test]
fn switch_is_none_while_the_only_process_waits() {
    let mut scheduler = Scheduler::new();
    let a = scheduler.add(process(0)).unwrap();
    let mut tf = TrapFrame::zeroed();
    tf.tpidr = a;
    tf.x4 = 44;
    let trapped = tf;
    let wait = State::Waiting(Deadline { start: 1_000, micros: 50_000 });
    assert_eq!(scheduler.switch(wait, &mut tf, 1_000), None);
    assert_eq!(tf, trapped);
    assert_eq!(scheduler.switch(State::Ready, &mut tf, 11_000), None);
    assert_eq!(scheduler.switch(State::Ready, &mut tf, 51_000), None);
    assert_eq!(scheduler.switch(State::Ready, &mut tf, 61_000), Some(a));
    assert_eq!(tf, trapped);
}

#[test]
fn milliseconds_since_the_start_of_a_wait() {
    assert_eq!(Deadline { start: 4_000, micros: 10 }.millis_since_start(99_999), 95);
    assert_eq!(Deadline { start: 4_000, micros: 10 }.millis_since_start(4_999), 0);
    assert_eq!(Deadline { start: u64::MAX, micros: 0 }.millis_since_start(1_999), 2);
}

#[test]
fn deadline_is_strict_and_follows_a_wrapping_clock() {
    let deadline = Deadline { start: u64::MAX - 9, micros: 100 };
    assert!(!deadline.has_passed(u64::MAX));
    assert!(!deadline.has_passed(90));
    assert!(deadline.has_passed(91));
    let deadline = Deadline::after_millis(5, 2);
    assert_eq!(deadline, Deadline { start: 5, micros: 2_000 });
    assert!(!deadline.has_passed(2_005));
    assert!(deadline.has_passed(2_006));
    assert_eq!(Deadline::after_millis(0, u32::MAX).micros, 4_294_967_295_000);
}

#[test]
fn readiness_by_state() {
    let mut p = process(0);
    assert!(p.is_ready(0));
    p.state = State::Running;
    assert!(!p.is_ready(0));
    p.state = State::Waiting(Deadline { start: 0, micros: 10 });
    assert!(!p.is_ready(10));
    assert!(p.is_ready(11));
}

#[test]
fn process_needs_a_stack() {
    assert!(Process::new(0).is_none());
    assert!(Process::new(BASE + 8).is_none());
    assert!(Process::new(u64::MAX - 0xFFFF).is_none());
    assert!(Stack::new(0).is_none());
    let p = Process::new(BASE).unwrap();
    assert_eq!(p.trap_frame, TrapFrame::zeroed());
    assert_eq!(p.state, State::Ready);
    assert_eq!(p.stack.bottom(), BASE);
    assert_eq!(p.stack.top(), BASE + STACK);
}

#[test]
fn enter_at_sets_entry_stack_and_status() {
    let mut p = Process::new(BASE).unwrap();
    p.trap_frame.spsr = 0x3c5;
    p.trap_frame.x5 = 55;
    p.enter_at(0x1234);
    assert_eq!(p.trap_frame.elr, 0x1234);
    assert_eq!(p.trap_frame.sp, BASE + STACK);
    assert_eq!(p.trap_frame.spsr, 0);
    assert_eq!(p.trap_frame.x5, 55);
}

#[test]
fn global_scheduler_starts_unstarted() {
    let global = GlobalScheduler::uninitialized();
    assert!(!global.is_started());
}

#[test]
fn start_builds_the_first_processes() {
    let mut global = GlobalScheduler::uninitialized();
    let programs = vec![
        Program { entry: 0x1000, stack_base: BASE },
        Program { entry: 0x2000, stack_base: BASE + STACK },
        Program { entry: 0x3000, stack_base: BASE + 2 * STACK },
    ];
    let mut tf = global.start(&programs).expect("the first program has a stack");
    assert!(global.is_started());
    assert_eq!(tf.elr, 0x1000);
    assert_eq!(tf.sp, BASE + STACK);
    assert_eq!(tf.spsr, 0);
    assert_eq!(tf.tpidr, 0);
    assert_eq!(global.switch(State::Ready, &mut tf, 0), Some(1));
    assert_eq!(tf.elr, 0x2000);
    assert_eq!(tf.sp, BASE + 2 * STACK);
    assert_eq!(global.switch(State::Ready, &mut tf, 0), Some(2));
    assert_eq!(tf.elr, 0x3000);
    assert_eq!(global.switch(State::Ready, &mut tf, 0), Some(0));
    assert_eq!(tf.elr, 0x1000);
    assert_eq!(global.add(process(7)), Some(3));
}

#[test]
fn start_without_a_first_stack_starts_nothing() {
    let mut global = GlobalScheduler::uninitialized();
    let programs = vec![Program { entry: 0x1000, stack_base: 0 }];
    assert_eq!(global.start(&programs), None);
    assert!(!global.is_started());
    assert_eq!(global.start(&Vec::new()), None);
    assert!(!global.is_started());
    // Where the allocator has no stack at all, the later programs are not looked at.
    let programs = vec![
        Program { entry: 0x1000, stack_base: 0 },
        Program { entry: 0x2000, stack_base: 0 },
        Program { entry: 0x3000, stack_base: BASE + 8 },
    ];
    assert_eq!(global.start(&programs), None);
    assert!(!global.is_started());
}
