use messages::service::handler::{HandlerStep, RoomsRequest, RoomsService};
use messages::service::cache::RoomsCache;
use messages::service::message::{mark_read, without_joined, Message, Uuid};
use messages::service::name::OrangeName;
use messages::service::store::StoreCall;
use messages::service::time::Timestamp;

const ALICE: &str = "orange_name:0279be667ef9dcbbac55a06295ce870b07029bfcdb2dce28d959f2815b16f81798";
const BOB: &str = "orange_name:02c6047f9441ed7d6d3045406e95c07cd85c778e4b8cef3ca7abac09b95c709ee5";

fn name(text: &str) -> OrangeName {
    OrangeName::parse(text).expect("a participant's name")
}

fn room_payload(uuid: u128) -> Vec<u8> {
    let mut service = RoomsService::new(RoomsCache::default());
    match service.begin(RoomsRequest::CreateRoom(Uuid(uuid))) {
        HandlerStep::Call(StoreCall::CreatePrivate { payload, .. }) => payload,
        other => panic!("no call: {:?}", other),
    }
}

#[test]
fn room_payload_is_the_hyphenated_id_in_quotes() {
    assert_eq!(room_payload(0), b"\"00000000-0000-0000-0000-000000000000\"".to_vec());
    assert_eq!(room_payload(u128::MAX), b"\"ffffffff-ffff-ffff-ffff-ffffffffffff\"".to_vec());
    assert_eq!(
        room_payload(0x0123_4567_89ab_cdef_fedc_ba98_7654_3210),
        b"\"01234567-89ab-cdef-fedc-ba9876543210\"".to_vec()
    );
    assert_eq!(room_payload(0xa0).len(), 38);
    assert_eq!(room_payload(0xa0), b"\"00000000-0000-0000-0000-0000000000a0\"".to_vec());
}

#[test]
fn message_payload_is_the_array_of_its_fields() {
    let message = Message::stamped("hi".to_string(), name(ALICE), Timestamp::new(1_747_642_365, 0));
    let expected = format!("[\"hi\",\"2025-05-19T08:12:45Z\",\"{}\",false]", ALICE);
    assert_eq!(message.encode().unwrap(), expected.into_bytes());
    let fine = Message::stamped("x".to_string(), name(BOB), Timestamp::new(0, 500_000_000));
    let expected = format!("[\"x\",\"1970-01-01T00:00:00.500Z\",\"{}\",false]", BOB);
    assert_eq!(fine.encode().unwrap(), expected.into_bytes());
    let joined = Message::joined(name(BOB), Timestamp::new(-1, 1));
    let expected = format!("[\"__system__joined\",\"1969-12-31T23:59:59.000000001Z\",\"{}\",true]", BOB);
    assert_eq!(joined.encode().unwrap(), expected.into_bytes());
}

#[test]
fn message_reads_back_as_it_was_written() {
    for (text, secs, nanos) in [
        ("", 0i64, 0u32),
        ("plain", 1_747_642_365, 123_456_789),
        ("quote \" slash \\ newline \n tab \t bell \u{7} \u{1F34A} \u{7f}", -62_167_219_200, 999_999_999),
        ("far", 253_402_300_799, 1_000),
        ("before the year nought", -70_000_000_000, 0),
        ("beyond the year 9999", 300_000_000_000, 0),
        ("leap", 1_435_708_799, 1_500_000_000),
    ] {
        let message = Message::stamped(text.to_string(), name(ALICE), Timestamp::new(secs, nanos));
        let bytes = message.encode().expect("a payload");
        assert_eq!(Message::decode(&bytes), Some(message));
    }
}

#[test]
fn message_with_no_such_instant_has_no_payload() {
    let message = Message::stamped("x".to_string(), name(ALICE), Timestamp::new(i64::MAX, 0));
    assert_eq!(message.encode(), None);
    let message = Message::stamped("x".to_string(), name(ALICE), Timestamp::new(0, 2_000_000_000));
    assert_eq!(message.encode(), None);
    let message = Message::stamped("x".to_string(), name(ALICE), Timestamp::new(0, 1_000_000_000));
    assert_eq!(message.encode(), None);
}

#[test]
fn payload_that_is_no_message_holds_none() {
    assert_eq!(Message::decode(&b"".to_vec()), None);
    assert_eq!(Message::decode(&b"{}".to_vec()), None);
    assert_eq!(Message::decode(&b"[\"hi\",\"2025-05-19T08:12:45Z\",\"nobody\",false]".to_vec()), None);
    assert_eq!(
        Message::decode(&format!("[\"hi\",\"yesterday\",\"{}\",false]", ALICE).into_bytes()),
        None
    );
    assert_eq!(
        Message::decode(&format!("[\"hi\",\"2025-05-19T08:12:45Z\",\"{}\"]", ALICE).into_bytes()),
        None
    );
    assert_eq!(
        Message::decode(&format!("[\"hi\",\"2025-05-19T08:12:45Z\",\"{}\",false,1]", ALICE).into_bytes()),
        None
    );
}

#[test]
fn payload_from_another_writer_is_read() {
    let upper = ALICE.to_uppercase().replace("ORANGE_NAME", "orange_name");
    let bytes = format!(" [ \"h\\u0069\", \"2025-05-19T10:12:45.5+02:00\", \"{}\", true ] ", upper).into_bytes();
    let message = Message::decode(&bytes).expect("a message");
    assert_eq!(message.message(), "hi");
    assert_eq!(*message.timestamp(), Timestamp::new(1_747_642_365, 500_000_000));
    assert_eq!(*message.author(), name(ALICE));
    assert_eq!(message.author().as_str(), ALICE);
    assert!(*message.is_read());
}

#[test]
fn names_are_held_as_they_are_printed() {
    assert_eq!(name(ALICE).as_str(), ALICE);
    let upper = ALICE.to_uppercase().replace("ORANGE_NAME", "orange_name");
    assert_eq!(name(&upper).as_str(), ALICE);
    let full = "orange_name:0479be667ef9dcbbac55a06295ce870b07029bfcdb2dce28d959f2815b16f81798483ada7726a3c4655da4fbfc0e1108a8fd17b448a68554199c47d08ffb10d4b8";
    assert_eq!(name(full).as_str(), ALICE);
    assert!(name(ALICE).same(&name(full)));
    assert!(!name(ALICE).same(&name(BOB)));
    assert_eq!(name(ALICE).short(), ALICE.strip_prefix("orange_name:").unwrap());
    assert_eq!(name(ALICE).stripped(), Some(ALICE.strip_prefix("orange_name:").unwrap().to_string()));
    assert_eq!(name(ALICE).clone(), name(ALICE));
}

#[test]
fn texts_that_are_no_names_are_refused() {
    assert_eq!(OrangeName::parse(""), None);
    assert_eq!(OrangeName::parse("alice"), None);
    assert_eq!(OrangeName::parse(&ALICE["orange_name:".len()..]), None);
    assert_eq!(OrangeName::parse(&ALICE.replace("orange_name", "orange")), None);
    assert_eq!(OrangeName::parse(&format!("{}:", ALICE)), None);
    assert_eq!(OrangeName::parse(&ALICE[..ALICE.len() - 2]), None);
    assert_eq!(
        OrangeName::parse("orange_name:020000000000000000000000000000000000000000000000000000000000000005"),
        None
    );
}

#[test]
fn new_messages_are_stamped_with_the_clock() {
    let message = Message::from("hello".to_string(), name(ALICE));
    assert_eq!(message.message(), "hello");
    assert_eq!(*message.author(), name(ALICE));
    assert!(!*message.is_read());
    assert!(!message.is_joined());
    assert!(message.timestamp().secs > 1_600_000_000);
    assert!(message.timestamp().nanos < 1_000_000_000);
    let mark = Message::invisible(name(BOB));
    assert_eq!(mark.message(), "__system__joined");
    assert_eq!(*mark.author(), name(BOB));
    assert!(*mark.is_read());
    assert!(mark.is_joined());
    assert!(mark.timestamp().secs > 1_600_000_000);
}

#[test]
fn read_flag_is_set_and_cleared() {
    let mut message = Message::stamped("x".to_string(), name(ALICE), Timestamp::new(5, 6));
    assert!(!*message.is_read());
    message.read(true);
    assert!(*message.is_read());
    assert_eq!(message.message(), "x");
    assert_eq!(*message.timestamp(), Timestamp::new(5, 6));
    message.read(false);
    assert_eq!(message, Message::stamped("x".to_string(), name(ALICE), Timestamp::new(5, 6)));
}

#[test]
fn joining_messages_are_left_out_of_what_is_shown() {
    let one = Message::stamped("one".to_string(), name(ALICE), Timestamp::new(1, 0));
    let mark = Message::joined(name(BOB), Timestamp::new(2, 0));
    let two = Message::stamped("two".to_string(), name(BOB), Timestamp::new(3, 0));
    let all = vec![mark.clone(), one.clone(), mark.clone(), two.clone(), mark];
    assert_eq!(without_joined(&all), vec![one.clone(), two.clone()]);
    assert_eq!(without_joined(&vec![]), vec![]);
    let mut unread = vec![one, two];
    mark_read(&mut unread);
    assert!(unread.iter().all(|m| *m.is_read()));
    assert_eq!(unread[0].message(), "one");
    assert_eq!(unread[1].message(), "two");
}

#[test]
fn instants_compare_by_second_and_nanosecond() {
    let a = Timestamp::new(10, 5);
    assert!(a.before(&Timestamp::new(10, 6)));
    assert!(a.before(&Timestamp::new(11, 0)));
    assert!(!a.before(&a));
    assert!(!a.before(&Timestamp::new(9, 999_999_999)));
    assert!(Timestamp::new(70, 5).within(&a, 60));
    assert!(!Timestamp::new(70, 6).within(&a, 60));
    assert!(Timestamp::new(0, 0).within(&a, 60));
    assert!(a.within(&a, 0));
    assert!(Timestamp::new(-86_400, 0).within(&Timestamp::new(-86_401, 999_999_999), 0) == false);
    assert!(Timestamp::new(-86_400, 0).within(&Timestamp::new(-86_401, 999_999_999), 1));
    assert_eq!(Timestamp::unix_epoch(), Timestamp::new(0, 0));
}

#[test]
fn a_leap_second_counts_in_the_gap() {
    let leap = Timestamp::new(59, 1_000_000_000);
    let later = Timestamp::new(120, 0);
    // From 00:00:60.0 to 00:02:00.0 it is 61 seconds.
    assert!(!later.within(&leap, 60));
    assert!(later.within(&leap, 61));
    assert!(!leap.within(&later, 0) == false);
    // From 00:00:00.0 to 00:00:60.0 it is 60 seconds.
    assert!(leap.within(&Timestamp::new(0, 0), 60));
    assert!(!leap.within(&Timestamp::new(0, 0), 59));
    // From 00:00:60.5 to 00:01:00.0 it is half a second, and back it is half a second less than none.
    let half = Timestamp::new(59, 1_500_000_000);
    let minute = Timestamp::new(60, 0);
    assert!(minute.within(&half, 1));
    assert!(!minute.within(&half, 0));
    assert!(half.within(&minute, 0));
    // Within one second of the day nothing is added: 00:00:59.0 to 00:00:60.5 is 1.5 seconds.
    assert!(half.within(&Timestamp::new(59, 0), 2));
    assert!(!half.within(&Timestamp::new(59, 0), 1));
    // A leap second the day before, seen from a second early in the next day.
    let eve = Timestamp::new(86_399, 1_000_000_000);
    assert!(Timestamp::new(86_405, 0).within(&eve, 5));
    assert!(!Timestamp::new(86_405, 0).within(&eve, 4));
}

#[test]
fn stamps_that_are_no_instants_lie_within_nothing() {
    let fine = Timestamp::new(10, 0);
    assert!(!Timestamp::new(i64::MAX, 0).within(&Timestamp::new(i64::MAX, 0), u32::MAX));
    assert!(!fine.within(&Timestamp::new(i64::MIN, 0), u32::MAX));
    assert!(!Timestamp::new(10, 1_000_000_000).within(&fine, u32::MAX));
    assert!(!fine.within(&Timestamp::new(10, 2_000_000_000), u32::MAX));
    assert!(Timestamp::new(8_210_266_876_799, 999_999_999).within(&Timestamp::new(-8_334_601_228_800, 0), 0) == false);
    assert!(Timestamp::new(-8_334_601_228_800, 0).within(&Timestamp::new(8_210_266_876_799, 999_999_999), 0));
}
