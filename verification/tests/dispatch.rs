use kernel::interrupt::Interrupt;
use kernel::process::{GlobalScheduler, Program, State, TICK};
use kernel::traps::{
    handle_exception, handle_irq, handle_syscall, rearm_interval, Dispatched, Info, Kind, Outcome,
    Served, Source, Syndrome, TrapFrame,
};

const BASE: u64 = 0x4000_0000;
const STACK: u64 = 0x10_0000;

fn started(count: u64) -> (GlobalScheduler, TrapFrame) {
    let mut global = GlobalScheduler::uninitialized();
    let programs: Vec<Program> = (0..count)
        .map(|n| Program { entry: 0x1000 * (n + 1), stack_base: BASE + n * STACK })
        .collect();
    let tf = global.start(&programs).expect("started");
    (global, tf)
}

fn synchronous() -> Info {
    Info { source: Source::LowerAArch64, kind: Kind::Synchronous }
}

fn svc(num: u32) -> u32 {
    (0b010101 << 26) | num
}

#[test]
fn unknown_syscall_sets_status_and_advances() {
    let mut global = GlobalScheduler::uninitialized();
    let mut tf = TrapFrame::zeroed();
    tf.elr = 0x8_0000;
    tf.x0 = 1234;
    tf.x7 = 0;
    let mut expected = tf;
    expected.x7 = 1;
    expected.elr = 0x8_0004;
    assert_eq!(handle_syscall(99, &mut tf, &mut global, 0, 0), Dispatched::Unknown);
    assert_eq!(tf, expected);
    assert!(!global.is_started());
}

#[test]
fn unknown_syscall_leaves_the_schedule_alone() {
    let (mut global, mut tf) = started(2);
    tf.elr = 0x100;
    assert_eq!(handle_syscall(0, &mut tf, &mut global, 5, 6), Dispatched::Unknown);
    assert_eq!(tf.x7, 1);
    assert_eq!(tf.elr, 0x104);
    assert_eq!(tf.tpidr, 0);
    // Process 0 is still the current one: the next switch goes to process 1.
    assert_eq!(global.switch(State::Ready, &mut tf, 0), Some(1));
}

#[test]
fn sleep_switches_to_the_next_process() {
    let (mut global, mut tf) = started(2);
    tf.x0 = 50;
    tf.x7 = 9;
    tf.elr = 0x1000;
    let done = handle_syscall(1, &mut tf, &mut global, 1_000_000, 1_003_999);
    assert_eq!(done, Dispatched::Slept(Some(1)));
    // The frame is that of process 1, exactly as it was saved for it.
    let mut expected = TrapFrame::zeroed();
    expected.tpidr = 1;
    expected.elr = 0x2000;
    expected.sp = BASE + 2 * STACK;
    assert_eq!(tf, expected);
    // Process 0 sleeps for 50 ms from 1 000 000: it is passed over until then.
    assert_eq!(global.switch(State::Ready, &mut tf, 1_040_000), Some(1));
    assert_eq!(global.switch(State::Ready, &mut tf, 1_050_000), Some(1));
    assert_eq!(tf, expected);
    assert_eq!(global.switch(State::Ready, &mut tf, 1_050_001), Some(0));
    // It resumes behind the call, with success and the time the call took.
    assert_eq!(tf.tpidr, 0);
    assert_eq!(tf.elr, 0x1004);
    assert_eq!(tf.x7, 0);
    assert_eq!(tf.x0, 3);
    assert_eq!(tf.sp, BASE + STACK);
}

#[test]
fn sleep_leaves_the_registers_of_the_next_process_alone() {
    let (mut global, mut tf) = started(2);
    // Process 1 runs and is preempted with registers of its own.
    assert_eq!(global.switch(State::Ready, &mut tf, 0), Some(1));
    tf.x0 = 77;
    tf.x7 = 5;
    tf.elr = 0x9100;
    let preempted = tf;
    assert_eq!(global.switch(State::Ready, &mut tf, 10), Some(0));
    // Process 0 goes to sleep for 20 ms, in a call that takes 2 500 microseconds.
    tf.x0 = 20;
    tf.x7 = 3;
    tf.x9 = 99;
    tf.elr = 0x4000;
    let trapped = tf;
    let done = handle_syscall(1, &mut tf, &mut global, 100, 2_600);
    assert_eq!(done, Dispatched::Slept(Some(1)));
    assert_eq!(tf, preempted);
    // When it wakes, process 0 has the result of the call and nothing else changed.
    assert_eq!(global.switch(State::Ready, &mut tf, 10_000), Some(1));
    assert_eq!(tf, preempted);
    assert_eq!(global.switch(State::Ready, &mut tf, 25_100), Some(0));
    let mut woken = trapped;
    woken.x0 = 2;
    woken.x7 = 0;
    woken.elr = 0x4004;
    assert_eq!(tf, woken);
}

#[test]
fn sleep_of_the_only_process_finds_nothing_ready() {
    let (mut global, mut tf) = started(1);
    tf.x0 = 1;
    tf.x7 = 4;
    tf.elr = 0x40;
    let done = handle_syscall(1, &mut tf, &mut global, 0, 0);
    assert_eq!(done, Dispatched::Slept(None));
    // Nothing is current: the caller waits and switches again.
    assert_eq!(global.switch(State::Ready, &mut tf, 1_000), None);
    assert_eq!(global.switch(State::Ready, &mut tf, 3_001), Some(0));
    assert_eq!(tf.x7, 0);
    assert_eq!(tf.x0, 0);
    assert_eq!(tf.elr, 0x44);
}

#[test]
fn a_sleep_that_is_over_at_once_resumes_the_caller() {
    let (mut global, mut tf) = started(1);
    tf.x0 = 0;
    tf.x5 = 55;
    tf.elr = 0x40;
    // No time is asked for, and some has gone by since the call was entered.
    let done = handle_syscall(1, &mut tf, &mut global, 1_000, 3_500);
    assert_eq!(done, Dispatched::Slept(Some(0)));
    assert_eq!(tf.x0, 2);
    assert_eq!(tf.x7, 0);
    assert_eq!(tf.x5, 55);
    assert_eq!(tf.elr, 0x44);
}

#[test]
fn sleep_reads_the_low_word_of_the_argument() {
    let (mut global, mut tf) = started(1);
    tf.x0 = (7u64 << 32) | 2;
    assert_eq!(handle_syscall(1, &mut tf, &mut global, 0, 0), Dispatched::Slept(None));
    assert_eq!(global.switch(State::Ready, &mut tf, 2_000), None);
    assert_eq!(global.switch(State::Ready, &mut tf, 2_001), Some(0));
    assert_eq!(tf.x0, 0);
}

#[test]
fn link_register_wraps_at_the_end_of_the_address_space() {
    let mut tf = TrapFrame::zeroed();
    tf.elr = u64::MAX - 1;
    tf.advance();
    assert_eq!(tf.elr, 2);
}

#[test]
fn timer_tick_preempts() {
    let (mut global, mut tf) = started(3);
    let served = handle_irq(Interrupt::Timer1, &mut tf, &mut global, 0);
    assert_eq!(served, Served::Tick { next: Some(1) });
    assert_eq!(tf.tpidr, 1);
    assert_eq!(tf.elr, 0x2000);
    let served = handle_irq(Interrupt::Timer1, &mut tf, &mut global, 0);
    assert_eq!(served, Served::Tick { next: Some(2) });
    let served = handle_irq(Interrupt::Timer1, &mut tf, &mut global, 0);
    assert_eq!(served, Served::Tick { next: Some(0) });
}

#[test]
fn only_the_timer_is_armed_again() {
    assert_eq!(rearm_interval(Interrupt::Timer1), Some(TICK));
    assert_eq!(rearm_interval(Interrupt::Timer1), Some(2_000_000));
    assert_eq!(rearm_interval(Interrupt::Timer3), None);
    assert_eq!(rearm_interval(Interrupt::Uart), None);
}

#[test]
fn other_interrupts_are_ignored() {
    let (mut global, mut tf) = started(2);
    let before = tf;
    for source in [
        Interrupt::Timer3,
        Interrupt::Usb,
        Interrupt::Gpio0,
        Interrupt::Gpio1,
        Interrupt::Gpio2,
        Interrupt::Gpio3,
        Interrupt::Uart,
    ] {
        assert_eq!(handle_irq(source, &mut tf, &mut global, 0), Served::Ignored);
        assert_eq!(tf, before);
    }
    let mut unstarted = GlobalScheduler::uninitialized();
    assert_eq!(handle_irq(Interrupt::Uart, &mut tf, &mut unstarted, 0), Served::Ignored);
    assert_eq!(global.switch(State::Ready, &mut tf, 0), Some(1));
}

#[test]
fn brk_asks_for_the_shell_and_advances() {
    let mut global = GlobalScheduler::uninitialized();
    let mut tf = TrapFrame::zeroed();
    tf.elr = 0x8_0010;
    tf.x1 = 1;
    let mut expected = tf;
    expected.elr = 0x8_0014;
    let esr = (0b111100 << 26) | 3;
    let outcome = handle_exception(synchronous(), esr, &mut tf, &mut global, None, 0, 0);
    assert_eq!(outcome, Outcome::Debug(Some(3)));
    assert_eq!(tf, expected);
}

#[test]
fn hardware_breakpoint_asks_for_the_shell_and_advances() {
    let mut global = GlobalScheduler::uninitialized();
    let mut tf = TrapFrame::zeroed();
    tf.elr = 0x20;
    let esr = 0b110000 << 26;
    let outcome = handle_exception(synchronous(), esr, &mut tf, &mut global, None, 0, 0);
    assert_eq!(outcome, Outcome::Debug(None));
    assert_eq!(tf.elr, 0x24);
}

#[test]
fn svc_is_dispatched_with_its_immediate() {
    let (mut global, mut tf) = started(2);
    tf.elr = 0x500;
    let outcome = handle_exception(synchronous(), svc(99), &mut tf, &mut global, None, 0, 0);
    assert_eq!(outcome, Outcome::Syscall(Dispatched::Unknown));
    assert_eq!(tf.x7, 1);
    assert_eq!(tf.elr, 0x504);
    tf.x0 = 10;
    let outcome = handle_exception(synchronous(), svc(1), &mut tf, &mut global, None, 100, 2_100);
    assert_eq!(outcome, Outcome::Syscall(Dispatched::Slept(Some(1))));
    // Process 1 has its own registers; the caller has its result when it wakes.
    assert_eq!((tf.tpidr, tf.x0, tf.x7, tf.elr), (1, 0, 0, 0x2000));
    assert_eq!(global.switch(State::Ready, &mut tf, 12_101), Some(0));
    assert_eq!((tf.tpidr, tf.x0, tf.x7, tf.elr), (0, 2, 0, 0x508));
}

#[test]
fn other_synchronous_exceptions_are_fatal() {
    let mut global = GlobalScheduler::uninitialized();
    let mut tf = TrapFrame::zeroed();
    tf.elr = 0x700;
    let before = tf;
    let esr = (0b100100 << 26) | 0b000101;
    let outcome = handle_exception(synchronous(), esr, &mut tf, &mut global, None, 0, 0);
    assert_eq!(outcome, Outcome::Fatal(Syndrome::from(esr)));
    assert_eq!(tf, before);
    let raw = 0b111111 << 26;
    let outcome = handle_exception(synchronous(), raw, &mut tf, &mut global, None, 0, 0);
    assert_eq!(outcome, Outcome::Fatal(Syndrome::Other(raw)));
    assert_eq!(tf, before);
}

#[test]
fn fiq_and_serror_are_fatal_whatever_the_syndrome() {
    let (mut global, mut tf) = started(2);
    let before = tf;
    for kind in [Kind::Fiq, Kind::SError] {
        let info = Info { source: Source::CurrentSpElx, kind };
        let outcome =
            handle_exception(info, svc(1), &mut tf, &mut global, Some(Interrupt::Timer1), 0, 0);
        assert_eq!(outcome, Outcome::Fatal(Syndrome::Svc(1)));
        assert_eq!(tf, before);
    }
    assert_eq!(global.switch(State::Ready, &mut tf, 0), Some(1));
}

#[test]
fn irq_goes_to_the_pending_source() {
    let (mut global, mut tf) = started(2);
    let info = Info { source: Source::LowerAArch64, kind: Kind::Irq };
    let before = tf;
    let outcome = handle_exception(info, 0, &mut tf, &mut global, None, 0, 0);
    assert_eq!(outcome, Outcome::Interrupt(None));
    assert_eq!(tf, before);
    let outcome = handle_exception(info, 0, &mut tf, &mut global, Some(Interrupt::Usb), 0, 0);
    assert_eq!(outcome, Outcome::Interrupt(Some(Served::Ignored)));
    assert_eq!(tf, before);
    // The syndrome does not count for an interrupt, even where it reads as a breakpoint.
    let esr = (0b111000 << 26) | 1;
    let outcome = handle_exception(info, esr, &mut tf, &mut global, Some(Interrupt::Timer1), 0, 0);
    assert_eq!(outcome, Outcome::Interrupt(Some(Served::Tick { next: Some(1) })));
    assert_eq!(tf.tpidr, 1);
    assert_eq!(tf.elr, 0x2000);
}

#[test]
fn kinds_and_sources_by_code() {
    assert_eq!(Kind::from_code(0), Some(Kind::Synchronous));
    assert_eq!(Kind::from_code(1), Some(Kind::Irq));
    assert_eq!(Kind::from_code(2), Some(Kind::Fiq));
    assert_eq!(Kind::from_code(3), Some(Kind::SError));
    assert_eq!(Kind::from_code(4), None);
    assert_eq!(Source::from_code(0), Some(Source::CurrentSpEl0));
    assert_eq!(Source::from_code(1), Some(Source::CurrentSpElx));
    assert_eq!(Source::from_code(2), Some(Source::LowerAArch64));
    assert_eq!(Source::from_code(3), Some(Source::LowerAArch32));
    assert_eq!(Source::from_code(0xFFFF), None);
}
