use chat_relay::frame::{encode, MESSAGE_SIZE};
use chat_relay::handshake::{get_username, HandshakeStep, USERNAME_PROMPT};
use chat_relay::poll::ReadOutcome;
use chat_relay::registry::Registry;

fn handshake(outcomes: Vec<ReadOutcome>) -> String {
    for outcome in outcomes {
        match get_username(outcome) {
            HandshakeStep::Accepted(name) => return name,
            HandshakeStep::Rejected => return String::new(),
            HandshakeStep::Retry | HandshakeStep::Wait => {}
        }
    }
    String::new()
}

fn joins(registry: &mut Registry<u8>, outcomes: Vec<ReadOutcome>) -> bool {
    let name = handshake(outcomes);
    registry.register(name, 0, 1).is_ok()
}

#[test]
fn prompt_is_the_fixed_text() {
    assert_eq!(USERNAME_PROMPT, "用户名：");
    assert_eq!(USERNAME_PROMPT.as_bytes().len(), 12);
}

#[test]
fn name_in_a_frame_is_accepted() {
    let step = get_username(ReadOutcome::Frame(encode("alice")));
    assert_eq!(step, HandshakeStep::Accepted(String::from("alice")));
}

#[test]
fn accepted_name_is_kept_as_sent() {
    let step = get_username(ReadOutcome::Frame(encode(" al ice ")));
    assert_eq!(step, HandshakeStep::Accepted(String::from(" al ice ")));
}

#[test]
fn empty_name_is_passed_over() {
    let step = get_username(ReadOutcome::Frame(vec![0; MESSAGE_SIZE]));
    assert_eq!(step, HandshakeStep::Retry);
}

#[test]
fn white_space_name_is_passed_over() {
    assert_eq!(get_username(ReadOutcome::Frame(encode("   "))), HandshakeStep::Retry);
    assert_eq!(get_username(ReadOutcome::Frame(encode("\t\n"))), HandshakeStep::Retry);
}

#[test]
fn invalid_frame_is_passed_over() {
    let mut frame = vec![0u8; MESSAGE_SIZE];
    frame[0] = 0x80;
    assert_eq!(get_username(ReadOutcome::Frame(frame)), HandshakeStep::Retry);
}

#[test]
fn idle_read_means_wait() {
    assert_eq!(get_username(ReadOutcome::WouldBlock), HandshakeStep::Wait);
}

#[test]
fn failed_read_rejects_the_connection() {
    assert_eq!(get_username(ReadOutcome::Failed), HandshakeStep::Rejected);
}

#[test]
fn handshake_rests_only_after_an_idle_read() {
    assert_eq!(HandshakeStep::Wait.delay_ms(), 10);
    assert_eq!(HandshakeStep::Retry.delay_ms(), 0);
    assert_eq!(HandshakeStep::Rejected.delay_ms(), 0);
    assert_eq!(HandshakeStep::Accepted(String::from("a")).delay_ms(), 0);
}

#[test]
fn handshake_takes_the_first_usable_name() {
    let outcomes = vec![
        ReadOutcome::WouldBlock,
        ReadOutcome::Frame(encode("  ")),
        ReadOutcome::WouldBlock,
        ReadOutcome::Frame(encode("bob")),
        ReadOutcome::Frame(encode("carol")),
    ];
    assert_eq!(handshake(outcomes), "bob");
}

#[test]
fn handshake_rejection_empty_name_then_disconnect() {
    let mut registry: Registry<u8> = Registry::new();
    let outcomes = vec![
        ReadOutcome::WouldBlock,
        ReadOutcome::Frame(vec![0; MESSAGE_SIZE]),
        ReadOutcome::Failed,
    ];
    assert!(!joins(&mut registry, outcomes));
    assert_eq!(registry.len(), 0);
}

#[test]
fn handshake_rejection_white_space_name_then_disconnect() {
    let mut registry: Registry<u8> = Registry::new();
    let outcomes = vec![
        ReadOutcome::Frame(encode(" \t ")),
        ReadOutcome::WouldBlock,
        ReadOutcome::Failed,
    ];
    assert!(!joins(&mut registry, outcomes));
    assert_eq!(registry.len(), 0);
}

#[test]
fn handshake_rejection_disconnect_before_any_name() {
    let mut registry: Registry<u8> = Registry::new();
    assert!(!joins(&mut registry, vec![ReadOutcome::Failed]));
    assert!(!joins(&mut registry, vec![ReadOutcome::WouldBlock, ReadOutcome::Failed]));
    assert_eq!(registry.len(), 0);
}

#[test]
fn name_after_a_failure_is_not_read() {
    let mut registry: Registry<u8> = Registry::new();
    let outcomes = vec![ReadOutcome::Failed, ReadOutcome::Frame(encode("late"))];
    assert!(!joins(&mut registry, outcomes));
    assert_eq!(registry.len(), 0);
}

#[test]
fn usable_name_is_registered() {
    let mut registry: Registry<u8> = Registry::new();
    let outcomes = vec![ReadOutcome::WouldBlock, ReadOutcome::Frame(encode("dora"))];
    assert!(joins(&mut registry, outcomes));
    assert_eq!(registry.users()[0].username, "dora");
}
