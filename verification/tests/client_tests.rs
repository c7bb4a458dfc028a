use chat_relay::client::{read_input, receive, transfer_message, Incoming, InputAction, Outgoing, Pending};
use chat_relay::frame::{encode, MESSAGE_SIZE};
use chat_relay::poll::ReadOutcome;

#[test]
fn empty_input_is_a_no_op() {
    assert_eq!(read_input(""), InputAction::Ignore);
    assert_eq!(read_input("\n"), InputAction::Ignore);
    assert_eq!(read_input("\r\n"), InputAction::Ignore);
    assert!(InputAction::Ignore.goes_on(true));
    assert!(InputAction::Ignore.goes_on(false));
}

#[test]
fn white_space_input_is_a_no_op() {
    assert_eq!(read_input("   \t  \n"), InputAction::Ignore);
}

#[test]
fn quit_ends_the_input_loop() {
    assert_eq!(read_input("quit"), InputAction::Quit);
    assert!(!InputAction::Quit.goes_on(true));
    assert!(!InputAction::Quit.goes_on(false));
}

#[test]
fn quit_is_recognised_inside_white_space() {
    assert_eq!(read_input("quit\n"), InputAction::Quit);
    assert_eq!(read_input("  quit \r\n"), InputAction::Quit);
}

#[test]
fn only_the_exact_word_quits() {
    assert_eq!(read_input("Quit\n"), InputAction::Send(String::from("Quit")));
    assert_eq!(read_input("quit now\n"), InputAction::Send(String::from("quit now")));
    assert_eq!(read_input("q\n"), InputAction::Send(String::from("q")));
}

#[test]
fn line_is_sent_without_the_white_space_around_it() {
    assert_eq!(read_input("  hi  "), InputAction::Send(String::from("hi")));
    assert_eq!(read_input("hello world\n"), InputAction::Send(String::from("hello world")));
    assert_eq!(read_input("\ta  b\t\n"), InputAction::Send(String::from("a  b")));
}

#[test]
fn loop_goes_on_after_a_line_that_was_handed_over() {
    assert!(InputAction::Send(String::from("x")).goes_on(true));
}

#[test]
fn loop_ends_when_a_line_cannot_be_handed_over() {
    assert!(!InputAction::Send(String::from("x")).goes_on(false));
}

#[test]
fn frame_from_the_server_is_shown() {
    let incoming = receive(ReadOutcome::Frame(encode("bob: hi")));
    assert_eq!(incoming, Incoming::Show(String::from("bob: hi")));
}

#[test]
fn invalid_frame_from_the_server_is_skipped() {
    let mut frame = vec![0u8; MESSAGE_SIZE];
    frame[0] = 0xfe;
    assert_eq!(receive(ReadOutcome::Frame(frame)), Incoming::Skip);
}

#[test]
fn nothing_from_the_server_is_idle() {
    assert_eq!(receive(ReadOutcome::WouldBlock), Incoming::Idle);
}

#[test]
fn failed_read_means_the_server_closed() {
    assert_eq!(receive(ReadOutcome::Failed), Incoming::ServerClosed);
}

#[test]
fn waiting_line_is_written_as_a_frame() {
    let outgoing = transfer_message(Pending::Line(String::from("hello")));
    assert_eq!(outgoing, Outgoing::Write(encode("hello")));
}

#[test]
fn no_waiting_line_means_nothing_to_write() {
    assert_eq!(transfer_message(Pending::Empty), Outgoing::Idle);
}

#[test]
fn closed_queue_stops_the_socket_loop() {
    assert_eq!(transfer_message(Pending::Disconnected), Outgoing::Stop);
}

#[test]
fn typed_line_reaches_the_wire_trimmed() {
    let frame = match read_input("  good day \n") {
        InputAction::Send(text) => match transfer_message(Pending::Line(text)) {
            Outgoing::Write(frame) => frame,
            other => panic!("no frame: {:?}", other),
        },
        other => panic!("not sent: {:?}", other),
    };
    assert_eq!(frame, encode("good day"));
}

#[test]
fn every_kind_of_white_space_is_taken_off_both_ends() {
    let white = [
        '\t', '\n', '\u{b}', '\u{c}', '\r', ' ', '\u{85}', '\u{a0}', '\u{1680}', '\u{2000}',
        '\u{2005}', '\u{200a}', '\u{2028}', '\u{2029}', '\u{202f}', '\u{205f}', '\u{3000}',
    ];
    for c in white {
        let line = format!("{}{}a b{}", c, c, c);
        assert_eq!(read_input(&line), InputAction::Send(String::from("a b")));
    }
}

#[test]
fn characters_that_are_no_white_space_stay_at_the_ends() {
    for c in ['\u{200b}', '\u{180e}', '\u{feff}', '\u{1f}', '_'] {
        let line = format!("{}quit{}", c, c);
        assert_eq!(read_input(&line), InputAction::Send(line.clone()));
    }
}
