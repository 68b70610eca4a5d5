use kernel::shell::number::parse_number;
use kernel::shell::{read_line, Action, Command, Echo, Error, LineBuffer, Reading};

fn args_of(line: &[u8]) -> Vec<Vec<u8>> {
    let command = Command::parse(line).expect("a command");
    (0..command.count()).map(|i| command.arg(i).to_vec()).collect()
}

#[test]
fn parse_splits_at_spaces() {
    assert_eq!(args_of(b"echo hello world"), vec![b"echo".to_vec(), b"hello".to_vec(), b"world".to_vec()]);
}

#[test]
fn parse_skips_runs_of_spaces() {
    assert_eq!(args_of(b"  ls   /boot  "), vec![b"ls".to_vec(), b"/boot".to_vec()]);
    assert_eq!(args_of(b"x"), vec![b"x".to_vec()]);
    assert_eq!(args_of(b" x"), vec![b"x".to_vec()]);
    assert_eq!(args_of(b"x "), vec![b"x".to_vec()]);
    // Only the space separates: a tab is part of a word.
    assert_eq!(args_of(b"a\tb c"), vec![b"a\tb".to_vec(), b"c".to_vec()]);
}

#[test]
fn parse_empty_line() {
    assert_eq!(Command::parse(b"").err(), Some(Error::Empty));
    assert_eq!(Command::parse(b"     ").err(), Some(Error::Empty));
}

#[test]
fn parse_takes_sixty_four_arguments_and_no_more() {
    let line = vec![b"a".to_vec(); 64].join(&b' ');
    let command = Command::parse(&line).expect("sixty-four arguments fit");
    assert_eq!(command.count(), 64);
    assert_eq!(command.arg(63), b"a");
    let line = vec![b"a".to_vec(); 65].join(&b' ');
    assert_eq!(Command::parse(&line).err(), Some(Error::TooManyArgs));
    let mut line = vec![b"b".to_vec(); 64].join(&b' ');
    line.extend_from_slice(b" last");
    assert_eq!(Command::parse(&line).err(), Some(Error::TooManyArgs));
}

#[test]
fn path_is_the_first_argument() {
    let command = Command::parse(b"  cat a.txt b.txt").unwrap();
    assert_eq!(command.path(), b"cat");
    assert_eq!(command.count(), 3);
    assert_eq!(command.arg(2), b"b.txt");
}

fn action(line: &[u8]) -> Action {
    Command::parse(line).expect("a command").process()
}

#[test]
fn actions_by_path() {
    assert_eq!(action(b"echo a b"), Action::Echo);
    assert_eq!(action(b"draw"), Action::Draw);
    assert_eq!(action(b"raccoon"), Action::Raccoon);
    assert_eq!(action(b"cat file"), Action::Cat);
    assert_eq!(action(b"ls /"), Action::Ls);
    assert_eq!(action(b"clear"), Action::Clear);
    assert_eq!(action(b"reboot"), Action::Reboot);
    assert_eq!(action(b"help"), Action::Help);
}

#[test]
fn unknown_paths() {
    assert_eq!(action(b"exit"), Action::Unknown);
    assert_eq!(action(b"ECHO"), Action::Unknown);
    assert_eq!(action(b"echoo"), Action::Unknown);
    assert_eq!(action(b"ech"), Action::Unknown);
    assert_eq!(action(b"l"), Action::Unknown);
}

#[test]
fn print_reads_its_scale() {
    assert_eq!(action(b"print 5 big words"), Action::Print(5));
    assert_eq!(action(b"print +12 x"), Action::Print(12));
    assert_eq!(action(b"print 007"), Action::Print(7));
    assert_eq!(action(b"print 0 x"), Action::Print(0));
    assert_eq!(action(b"print big words"), Action::Print(1));
    assert_eq!(action(b"print -3 x"), Action::Print(1));
    assert_eq!(action(b"print 3x x"), Action::Print(1));
    assert_eq!(action(b"print 99999999999999999999999 x"), Action::Print(1));
    assert_eq!(action(b"print"), Action::Nothing);
}

#[test]
fn numbers_as_the_standard_library_reads_them() {
    for text in ["0", "1", "+1", "42", "0042", "", "+", "-1", "1 ", " 1", "1_000", "++1", "18446744073709551615", "18446744073709551616", "4294967295", "4294967296", "99999999999999999999", "12a"] {
        assert_eq!(parse_number(text.as_bytes()), text.parse::<usize>().ok(), "{:?}", text);
    }
}

#[test]
fn typing_a_line() {
    let mut line = LineBuffer::new();
    assert_eq!(line.feed(b'l'), Echo::Byte(b'l'));
    assert_eq!(line.feed(b'x'), Echo::Byte(b'x'));
    assert_eq!(line.feed(8), Echo::Erase(8));
    assert_eq!(line.feed(b's'), Echo::Byte(b's'));
    assert_eq!(line.feed(b'\r'), Echo::Submit);
    assert_eq!(line.take(), b"ls".to_vec());
    assert_eq!(line.take(), Vec::<u8>::new());
}

#[test]
fn backspace_on_an_empty_line_does_nothing() {
    let mut line = LineBuffer::new();
    assert_eq!(line.feed(127), Echo::Nothing);
    assert_eq!(line.feed(8), Echo::Nothing);
    assert_eq!(line.feed(b'a'), Echo::Byte(b'a'));
    assert_eq!(line.feed(127), Echo::Erase(127));
    assert_eq!(line.feed(b'\n'), Echo::Submit);
    assert_eq!(line.take(), Vec::<u8>::new());
}

#[test]
fn a_full_line_takes_nothing_more() {
    let mut line = LineBuffer::new();
    for _ in 0..512 {
        assert_eq!(line.feed(b'z'), Echo::Byte(b'z'));
    }
    assert_eq!(line.feed(b'y'), Echo::Nothing);
    assert_eq!(line.feed(8), Echo::Nothing);
    assert_eq!(line.feed(b'\n'), Echo::Submit);
    assert_eq!(line.take(), vec![b'z'; 512]);
}

#[test]
fn reading_lines() {
    assert!(matches!(read_line(b""), Reading::Blank));
    assert!(matches!(read_line(b"   "), Reading::Blank));
    assert!(matches!(read_line(&[0xff, b'l', b's']), Reading::Unreadable));
    assert!(matches!(read_line(&[0xc3]), Reading::Unreadable));
    let many = vec![b"a".to_vec(); 70].join(&b' ');
    assert!(matches!(read_line(&many), Reading::TooManyArgs));
    match read_line("echo h\u{e9}llo".as_bytes()) {
        Reading::Run(command) => {
            assert_eq!(command.process(), Action::Echo);
            assert_eq!(command.arg(1), "h\u{e9}llo".as_bytes());
        }
        _ => panic!("a command"),
    }
}
