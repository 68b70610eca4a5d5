use kernel::interrupt::{first_pending, Bank, Interrupt};

#[test]
fn lines_of_the_sources() {
    assert_eq!(Interrupt::Timer1.number(), 1);
    assert_eq!(Interrupt::Timer3.number(), 3);
    assert_eq!(Interrupt::Usb.number(), 9);
    assert_eq!(Interrupt::Gpio0.number(), 49);
    assert_eq!(Interrupt::Gpio1.number(), 50);
    assert_eq!(Interrupt::Gpio2.number(), 51);
    assert_eq!(Interrupt::Gpio3.number(), 52);
    assert_eq!(Interrupt::Uart.number(), 57);
}

#[test]
fn masks_of_the_sources() {
    assert_eq!(Interrupt::Timer1.mask(), (Bank::First, 1 << 1));
    assert_eq!(Interrupt::Usb.mask(), (Bank::First, 1 << 9));
    assert_eq!(Interrupt::Gpio0.mask(), (Bank::Second, 1 << 17));
    assert_eq!(Interrupt::Uart.mask(), (Bank::Second, 1 << 25));
}

#[test]
fn pending_reads_the_bit_of_the_line() {
    assert!(Interrupt::Timer1.is_pending(0b10, 0));
    assert!(!Interrupt::Timer1.is_pending(0b01, 0xFFFF_FFFF));
    assert!(Interrupt::Uart.is_pending(0, 1 << 25));
    assert!(!Interrupt::Uart.is_pending(1 << 25, 0));
}

#[test]
fn first_pending_follows_the_order_of_service() {
    assert_eq!(first_pending(0, 0), None);
    assert_eq!(first_pending(1 << 1, 0), Some(Interrupt::Timer1));
    assert_eq!(first_pending((1 << 3) | (1 << 9), 1 << 17), Some(Interrupt::Timer3));
    assert_eq!(first_pending(1 << 9, 1 << 25), Some(Interrupt::Usb));
    assert_eq!(first_pending(0, (1 << 25) | (1 << 20)), Some(Interrupt::Gpio3));
    assert_eq!(first_pending(0, 1 << 25), Some(Interrupt::Uart));
    // Lines without a known source do not count.
    assert_eq!(first_pending(0xFFFF_FFFF & !((1 << 1) | (1 << 3) | (1 << 9)), 1), None);
}

#[test]
fn order_of_service() {
    assert_eq!(Interrupt::by_priority(0), Interrupt::Timer1);
    assert_eq!(Interrupt::by_priority(3), Interrupt::Gpio0);
    assert_eq!(Interrupt::by_priority(7), Interrupt::Uart);
}
