use chat_relay::user::{gen_user_id, Message, User};

#[test]
fn first_id_is_the_clock_reading() {
    assert_eq!(gen_user_id(0, 5), Some(5));
    assert_eq!(gen_user_id(0, 1_700_000_000_000_000_000), Some(1_700_000_000_000_000_000));
}

#[test]
fn id_follows_the_clock_when_it_moved_on() {
    assert_eq!(gen_user_id(5, 9), Some(9));
}

#[test]
fn id_is_the_successor_when_the_clock_stood_still() {
    assert_eq!(gen_user_id(5, 5), Some(6));
}

#[test]
fn id_is_the_successor_when_the_clock_went_back() {
    assert_eq!(gen_user_id(10, 3), Some(11));
}

#[test]
fn first_id_with_clock_at_zero_is_one() {
    assert_eq!(gen_user_id(0, 0), Some(1));
}

#[test]
fn last_id_can_be_issued_once() {
    assert_eq!(gen_user_id(u128::MAX - 1, 0), Some(u128::MAX));
    assert_eq!(gen_user_id(7, u128::MAX), Some(u128::MAX));
}

#[test]
fn no_id_is_left_after_the_last() {
    assert_eq!(gen_user_id(u128::MAX, 0), None);
    assert_eq!(gen_user_id(u128::MAX, u128::MAX), None);
}

#[test]
fn ids_issued_in_a_row_never_repeat() {
    let clock = [100u128, 100, 100, 50, 200, 200, 0];
    let mut last = 0u128;
    let mut seen: Vec<u128> = Vec::new();
    for reading in clock {
        let id = gen_user_id(last, reading).unwrap();
        assert!(id > last);
        assert!(!seen.contains(&id));
        seen.push(id);
        last = id;
    }
    assert_eq!(seen, vec![100, 101, 102, 103, 200, 201, 202]);
}

#[test]
fn new_user_holds_what_it_was_given() {
    let user = User::new(42, String::from("carol"), 7u8);
    assert_eq!(user.user_id, 42);
    assert_eq!(user.username, "carol");
    assert_eq!(user.socket, 7u8);
}

#[test]
fn messages_compare_by_sender_and_text() {
    let a = Message { id: 1, message: String::from("x") };
    let b = Message { id: 1, message: String::from("x") };
    let c = Message { id: 2, message: String::from("x") };
    assert_eq!(a, b);
    assert_ne!(a, c);
}
