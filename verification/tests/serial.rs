use discovery::accel::{accel_report_line, append_decimal};
use discovery::echo::{Echo, EchoAction, ENTER};
use discovery::magnetometer::Direction;
use discovery::usart::{tdr_frame_of_char, tdr_frame_of_word, tdr_frames_of_str, tdr_frames_of_words};

#[test]
fn ascii_frames_are_codes() {
    assert_eq!(tdr_frames_of_str("sdaadd"), vec![115, 100, 97, 97, 100, 100]);
    assert_eq!(tdr_frames_of_str("\r\nThe"), vec![13, 10, 84, 104, 101]);
    assert_eq!(tdr_frames_of_str(""), Vec::<u16>::new());
}

#[test]
fn wide_chars_are_truncated() {
    assert_eq!(tdr_frame_of_char('é'), 0xe9);
    assert_eq!(tdr_frame_of_char('\u{1F600}'), 0xF600);
    assert_eq!(tdr_frames_of_str("a\u{1F600}"), vec![97, 0xF600]);
}

#[test]
fn word_frames_are_low_halves() {
    assert_eq!(tdr_frame_of_word(0x0001_0041), 0x41);
    assert_eq!(tdr_frames_of_words(&[104, 105, 0xFFFF_FFFF]), vec![104, 105, 0xFFFF]);
}

fn feed(echo: &mut Echo, bytes: &[u32]) -> Vec<Vec<u32>> {
    let mut sent = Vec::new();
    for b in bytes {
        if let EchoAction::Send(words) = echo.receive(*b) {
            sent.push(words);
        }
    }
    sent
}

#[test]
fn echo_in_order() {
    let mut echo = Echo::new(false);
    let sent = feed(&mut echo, &[104, 105, ENTER]);
    assert_eq!(sent, vec![vec![104, 105, 10, 13]]);
    assert_eq!(echo.line_len(), 0);
}

#[test]
fn echo_reversed() {
    let mut echo = Echo::new(true);
    assert!(echo.is_reversed());
    let sent = feed(&mut echo, &[104, 105, ENTER, 97, ENTER]);
    assert_eq!(sent, vec![vec![13, 10, 105, 104], vec![13, 10, 97]]);
}

#[test]
fn echo_waits_until_enter() {
    let mut echo = Echo::new(false);
    assert!(echo.receive(120) == EchoAction::Wait);
    assert_eq!(echo.line_len(), 1);
}

#[test]
fn echo_capacity_limits() {
    let mut echo = Echo::new(false);
    for _ in 0..126 {
        assert!(echo.can_accept(65));
        echo.receive(65);
    }
    assert!(echo.can_accept(ENTER));
    echo.receive(65);
    assert_eq!(echo.line_len(), 127);
    assert!(!echo.can_accept(ENTER));
    assert!(echo.can_accept(66));
    echo.receive(66);
    assert!(!echo.can_accept(66));
    assert_eq!(echo.line_len(), 128);
}

#[test]
fn echo_full_line_of_126() {
    let mut echo = Echo::new(false);
    let mut bytes: Vec<u32> = vec![7; 126];
    bytes.push(ENTER);
    let sent = feed(&mut echo, &bytes);
    assert_eq!(sent.len(), 1);
    assert_eq!(sent[0].len(), 128);
    assert_eq!(sent[0][125], 7);
    assert_eq!(&sent[0][126..], &[10, 13]);
}

#[test]
fn magnetometer_quadrants() {
    assert!(Direction::from_field(5, 7) == Direction::Southeast);
    assert!(Direction::from_field(0, 7) == Direction::Northeast);
    assert!(Direction::from_field(5, 0) == Direction::Southwest);
    assert!(Direction::from_field(-5, -7) == Direction::Northwest);
    assert!(Direction::from_field(0, 0) == Direction::Northwest);
}

#[test]
fn magnetometer_labels() {
    assert_eq!(Direction::Southeast.label(), "[Southeast]");
    assert_eq!(Direction::Southwest.label(), "[Southwest]");
    assert_eq!(Direction::Northeast.label(), "[Northeast]");
    assert_eq!(Direction::Northwest.label(), "[Northwest]");
}

#[test]
fn magnetometer_report_line() {
    assert_eq!(Direction::Northeast.report_line(), "\rdirection: [Northeast]\n");
}

#[test]
fn decimal_text() {
    for x in [0i32, 7, -7, 10, 42, -100, 123456, i32::MAX, i32::MIN] {
        let mut s = String::new();
        append_decimal(&mut s, x);
        assert_eq!(s, format!("{}", x));
    }
}

#[test]
fn accel_report() {
    assert_eq!(accel_report_line(-5, 0, 1234), "\rdata: x -5 y 0 z 1234\n");
    assert_eq!(
        accel_report_line(i32::MIN, i32::MAX, -1),
        format!("\rdata: x {} y {} z {}\n", i32::MIN, i32::MAX, -1)
    );
}

#[test]
fn lines_do_not_mix() {
    for rev in [false, true] {
        let mut a = Echo::new(rev);
        let mut whole = feed(&mut a, &[1, 2, ENTER]);
        whole.extend(feed(&mut a, &[3, ENTER]));
        let mut b = Echo::new(rev);
        let alone = feed(&mut b, &[3, ENTER]);
        assert_eq!(whole[1], alone[0]);
    }
}
