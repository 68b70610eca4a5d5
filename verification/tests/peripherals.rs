use kernel::draw::{draw_loop, stroke, Stroke};
use kernel::framebuffer::{Color, Pixel, Position};
use kernel::fs::sd::{Error, ReadError};
use kernel::fs::Sd;
use kernel::syscalls::sleep_result;
use kernel::uart::{can_write, has_byte, wait_for_byte, write_str};

fn pixel(x: usize, y: usize, red: u8, green: u8, blue: u8) -> Pixel {
    Pixel { color: Color { red, green, blue }, position: Position { x, y } }
}

#[test]
fn arrow_keys_move_the_cursor() {
    let mut cursor = Pixel::default();
    assert_eq!(stroke(&mut cursor, b'd'), Stroke::Draw { clear: false, pixel: pixel(11, 10, 255, 255, 255) });
    assert_eq!(stroke(&mut cursor, b's'), Stroke::Draw { clear: false, pixel: pixel(11, 11, 255, 255, 255) });
    assert_eq!(stroke(&mut cursor, b'a'), Stroke::Draw { clear: false, pixel: pixel(10, 11, 255, 255, 255) });
    assert_eq!(stroke(&mut cursor, b'w'), Stroke::Draw { clear: false, pixel: pixel(10, 10, 255, 255, 255) });
    assert_eq!(cursor, Pixel::default());
}

#[test]
fn colour_keys_wrap_around() {
    let mut cursor = Pixel::default();
    assert_eq!(stroke(&mut cursor, b'1'), Stroke::Draw { clear: false, pixel: pixel(10, 10, 9, 255, 255) });
    assert_eq!(stroke(&mut cursor, b'2'), Stroke::Draw { clear: false, pixel: pixel(10, 10, 9, 9, 255) });
    assert_eq!(stroke(&mut cursor, b'3'), Stroke::Draw { clear: false, pixel: pixel(10, 10, 9, 9, 9) });
    assert_eq!(stroke(&mut cursor, b'1'), Stroke::Draw { clear: false, pixel: pixel(10, 10, 19, 9, 9) });
}

#[test]
fn cursor_wraps_around_the_coordinates() {
    let mut cursor = pixel(0, usize::MAX, 0, 0, 0);
    assert_eq!(stroke(&mut cursor, b'a'), Stroke::Draw { clear: false, pixel: pixel(usize::MAX, usize::MAX, 0, 0, 0) });
    assert_eq!(stroke(&mut cursor, b's'), Stroke::Draw { clear: false, pixel: pixel(usize::MAX, 0, 0, 0, 0) });
}

#[test]
fn escape_clears_and_other_keys_draw_in_place() {
    let mut cursor = Pixel::default();
    assert_eq!(stroke(&mut cursor, 0x1b), Stroke::Draw { clear: true, pixel: Pixel::default() });
    assert_eq!(stroke(&mut cursor, b'x'), Stroke::Draw { clear: false, pixel: Pixel::default() });
    assert_eq!(stroke(&mut cursor, 0x60), Stroke::Quit);
    assert_eq!(cursor, Pixel::default());
}

#[test]
fn drawing_ends_at_the_quit_key() {
    let drawn = draw_loop(b"dd\x1bs`ddd");
    assert_eq!(
        drawn,
        vec![
            (false, pixel(11, 10, 255, 255, 255)),
            (false, pixel(12, 10, 255, 255, 255)),
            (true, pixel(12, 10, 255, 255, 255)),
            (false, pixel(12, 11, 255, 255, 255)),
        ]
    );
    assert_eq!(draw_loop(b"`").len(), 0);
    assert_eq!(draw_loop(b"").len(), 0);
    assert_eq!(draw_loop(b"123").len(), 3);
}

#[test]
fn card_initialization_by_status() {
    assert_eq!(Sd::new(0, 77), Ok(Sd));
    assert_eq!(Sd::new(-1, 77), Err(Error::Timeout(77)));
    assert_eq!(Sd::new(-2, -5), Err(Error::CommandError(-5)));
    assert_eq!(Sd::new(-3, 1), Err(Error::UnknownReturnCode(1)));
    assert_eq!(Sd::new(1, 0), Err(Error::UnknownReturnCode(0)));
}

#[test]
fn sector_requests() {
    let sd = Sd;
    assert_eq!(sd.request(0, 512), Ok(0));
    assert_eq!(sd.request(7, 4096), Ok(7));
    assert_eq!(sd.request(7, 511), Err(ReadError::InvalidInput));
    assert_eq!(sd.request(1 << 32, 512), Err(ReadError::InvalidInput));
    assert_eq!(sd.request(0x7fff_ffff, 512), Ok(i32::MAX));
    assert_eq!(sd.request(0x8000_0000, 512), Ok(i32::MIN));
    assert_eq!(sd.request(0xffff_ffff, 512), Ok(-1));
}

#[test]
fn sector_results() {
    let sd = Sd;
    assert_eq!(sd.read_sector(512), Ok(512));
    assert_eq!(sd.read_sector(1), Ok(1));
    assert_eq!(sd.read_sector(0), Err(ReadError::Unknown));
    assert_eq!(sd.read_sector(-1), Err(ReadError::TimedOut));
    assert_eq!(sd.read_sector(-2), Err(ReadError::Command));
    assert_eq!(sd.read_sector(-3), Err(ReadError::Unknown));
}

#[test]
fn line_status_bits() {
    assert!(has_byte(0b0000_0001));
    assert!(!has_byte(0b0010_0000));
    assert!(can_write(0b0010_0000));
    assert!(!can_write(0b0000_0001));
    assert!(has_byte(0xff) && can_write(0xff));
}

#[test]
fn waiting_for_a_byte_times_out() {
    assert!(!wait_for_byte(1_000, None, u64::MAX));
    assert!(!wait_for_byte(1_000, Some(750), 1_000));
    assert!(!wait_for_byte(1_000, Some(750), 751_000));
    assert!(wait_for_byte(1_000, Some(750), 751_001));
    assert!(wait_for_byte(0, Some(0), 1));
    assert!(!wait_for_byte(5, Some(0), 5));
    assert!(!wait_for_byte(5, Some(0), 4));
    // A timeout too long for the clock never comes.
    assert!(!wait_for_byte(10, Some(u64::MAX), u64::MAX));
}

#[test]
fn line_feeds_get_a_carriage_return() {
    assert_eq!(write_str(b"a\nb"), b"a\r\nb".to_vec());
    assert_eq!(write_str(b"\n\n"), b"\r\n\r\n".to_vec());
    assert_eq!(write_str(b"\r\n"), b"\r\r\n".to_vec());
    assert_eq!(write_str(b"plain"), b"plain".to_vec());
    assert_eq!(write_str(b""), Vec::<u8>::new());
}

#[test]
fn sleep_results() {
    assert_eq!(sleep_result(42, 0), Ok(42));
    assert_eq!(sleep_result(42, 1), Err("Error in sleep syscall: 1".to_string()));
    assert_eq!(sleep_result(0, u64::MAX), Err("Error in sleep syscall: 18446744073709551615".to_string()));
    assert_eq!(sleep_result(0, 10), Err("Error in sleep syscall: 10".to_string()));
}
