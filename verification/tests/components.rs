use messages::components::avatar::{AvatarContent, AvatarContentMessages, AvatarIconStyle, AvatarMessages, AvatarRow};
use messages::components::interface::{HeaderContentMessages, HeaderMessages, HeaderTitle};
use messages::components::list_item::{ItemAvatar, ListItemGroupMessages, ListItemMessages, RoomItem};
use messages::components::message::{BubbleFill, BubbleText, MessageType, Offset, TextMessage, TextMessageGroup};
use messages::components::quick_deselect::QuickDeselect;
use messages::components::text::join;
use messages::components::text_input::TextInputMessages;
use messages::pages::{refresh, Bumper, DirectMessage, Opening, Refresh, SelectRecipients};
use messages::service::handler::RoomsRequest;
use messages::service::message::{Message, Uuid};
use messages::service::name::OrangeName;
use messages::service::path::Id;
use messages::service::rooms::{authors, Room, Rooms};
use messages::service::time::Timestamp;

const ALICE: &str = "orange_name:0279be667ef9dcbbac55a06295ce870b07029bfcdb2dce28d959f2815b16f81798";
const BOB: &str = "orange_name:02c6047f9441ed7d6d3045406e95c07cd85c778e4b8cef3ca7abac09b95c709ee5";
const CAROL: &str = "orange_name:02f9308a019258c31049344f85f89d5229b531c845836f99b08601f113bce036f9";

fn name(text: &str) -> OrangeName {
    OrangeName::parse(text).expect("a participant's name")
}

fn said(text: &str, who: &str, secs: i64) -> Message {
    Message::stamped(text.to_string(), name(who), Timestamp::new(secs, 0))
}

fn short(who: &str) -> String {
    who["orange_name:".len()..].to_string()
}

#[test]
fn messages_are_gathered_by_author_and_minute() {
    let messages = vec![
        said("a1", ALICE, 0),
        said("a2", ALICE, 60),
        said("a3", ALICE, 121),
        said("b1", BOB, 122),
        said("a4", ALICE, 123),
        said("a5", ALICE, 100),
    ];
    let group = TextMessageGroup::new(&name(ALICE), &messages, MessageType::Group);
    let expect = |style, texts: &[&str], who: &str, secs: i64| TextMessage {
        style,
        messages: texts.iter().map(|t| t.to_string()).collect(),
        author: name(who),
        timestamp: Timestamp::new(secs, 0),
    };
    assert_eq!(
        group.0,
        vec![
            expect(MessageType::You, &["a1", "a2"], ALICE, 60),
            expect(MessageType::You, &["a3"], ALICE, 121),
            expect(MessageType::Group, &["b1"], BOB, 122),
            expect(MessageType::You, &["a4", "a5"], ALICE, 100),
        ]
    );
    assert_eq!(group.count(), 6);
    let empty = TextMessageGroup::new(&name(ALICE), &vec![], MessageType::Rooms);
    assert_eq!(empty.0, vec![]);
    assert_eq!(empty.count(), 0);
}

#[test]
fn a_minute_is_counted_to_the_nanosecond() {
    let first = Message::stamped("1".to_string(), name(BOB), Timestamp::new(10, 500));
    let close = Message::stamped("2".to_string(), name(BOB), Timestamp::new(70, 500));
    let late = Message::stamped("3".to_string(), name(BOB), Timestamp::new(130, 501));
    let group = TextMessageGroup::new(&name(ALICE), &vec![first, close, late], MessageType::Contact);
    assert_eq!(group.0.len(), 2);
    assert_eq!(group.0[0].messages, vec!["1", "2"]);
    assert_eq!(group.0[0].timestamp, Timestamp::new(70, 500));
    assert_eq!(group.0[0].style, MessageType::Contact);
    assert_eq!(group.0[1].messages, vec!["3"]);
}

#[test]
fn a_leap_second_between_two_messages_counts() {
    // 00:00:60.0 and 00:02:00.0 are 61 seconds apart, 00:00:60.0 and 00:01:59.0 are 60.
    let leap = Message::stamped("1".to_string(), name(BOB), Timestamp::new(59, 1_000_000_000));
    let late = Message::stamped("2".to_string(), name(BOB), Timestamp::new(120, 0));
    let group = TextMessageGroup::new(&name(ALICE), &vec![leap.clone(), late], MessageType::Contact);
    assert_eq!(group.0.len(), 2);
    assert_eq!(group.0[0].messages, vec!["1"]);
    assert_eq!(group.0[0].timestamp, Timestamp::new(59, 1_000_000_000));
    assert_eq!(group.0[1].messages, vec!["2"]);
    assert_eq!(group.0[1].timestamp, Timestamp::new(120, 0));
    let close = Message::stamped("2".to_string(), name(BOB), Timestamp::new(119, 0));
    let group = TextMessageGroup::new(&name(ALICE), &vec![leap, close], MessageType::Contact);
    assert_eq!(group.0.len(), 1);
    assert_eq!(group.0[0].messages, vec!["1", "2"]);
    assert_eq!(group.0[0].timestamp, Timestamp::new(119, 0));
    // A stamp that is no instant opens a gathering of its own.
    let odd = Message::stamped("3".to_string(), name(BOB), Timestamp::new(120, 1_000_000_000));
    let next = Message::stamped("4".to_string(), name(BOB), Timestamp::new(121, 0));
    let group = TextMessageGroup::new(&name(ALICE), &vec![odd, next], MessageType::Contact);
    assert_eq!(group.0.len(), 2);
}

#[test]
fn styles_place_their_parts() {
    assert_eq!(MessageType::Rooms.seen_by(&name(ALICE), &name(ALICE)), MessageType::You);
    assert_eq!(MessageType::Rooms.seen_by(&name(ALICE), &name(BOB)), MessageType::Rooms);
    assert_eq!(MessageType::You.row_offset(), Offset::End);
    assert_eq!(MessageType::Rooms.row_offset(), Offset::Start);
    assert_eq!(MessageType::Group.row_offset(), Offset::End);
    assert_eq!(MessageType::Contact.row_offset(), Offset::End);
    assert!(!MessageType::You.has_avatar());
    assert!(MessageType::Contact.has_avatar() && MessageType::Group.has_avatar() && MessageType::Rooms.has_avatar());
    assert_eq!(MessageType::You.column_offset(), Offset::End);
    assert_eq!(MessageType::Group.column_offset(), Offset::Start);
    assert!(MessageType::Rooms.data_on_top());
    assert!(!MessageType::Group.data_on_top());
    assert!(MessageType::Group.shows_name() && MessageType::Rooms.shows_name());
    assert!(!MessageType::You.shows_name() && !MessageType::Contact.shows_name());
    assert!(MessageType::Group.shows_divider());
    assert!(!MessageType::Rooms.shows_divider() && !MessageType::You.shows_divider() && !MessageType::Contact.shows_divider());
    assert_eq!(MessageType::You.bubble(), (BubbleFill::BrandPrimary, BubbleText::White));
    assert_eq!(MessageType::Rooms.bubble(), (BubbleFill::BackgroundPrimary, BubbleText::White));
    assert_eq!(MessageType::Group.bubble(), (BubbleFill::BackgroundSecondary, BubbleText::Primary));
    assert_eq!(MessageType::Contact.bubble(), (BubbleFill::BackgroundSecondary, BubbleText::Primary));
    let bubbles = TextMessage::new(&name(ALICE), MessageType::Contact, vec!["x".to_string()], name(ALICE), Timestamp::new(1, 2));
    assert_eq!(bubbles.style, MessageType::You);
    assert_eq!(bubbles.messages, vec!["x"]);
}

#[test]
fn entries_of_contacts_show_the_short_name() {
    let item = ListItemMessages::contact("SaltyWeasel".to_string(), &name(ALICE));
    assert_eq!(
        item,
        ListItemMessages {
            title: "SaltyWeasel".to_string(),
            flair: false,
            subtitle: Some(short(ALICE)),
            description: None,
            avatar: ItemAvatar::Profile(name(ALICE)),
        }
    );
    assert_eq!(ListItemMessages::recipient("SaltyWeasel".to_string(), &name(ALICE)), item);
    assert_eq!(item.clone(), item);
}

#[test]
fn direct_conversation_shows_its_last_word() {
    let me = name(ALICE);
    let theirs = vec![said("hi", ALICE, 1), said("ho", BOB, 2), Message::joined(name(BOB), Timestamp::new(3, 0))];
    let item = ListItemMessages::direct_message(&me, name(BOB), "ShakyDuck".to_string(), &theirs);
    assert_eq!(item.title, "ShakyDuck");
    assert_eq!(item.subtitle, Some("ShakyDuck: ho".to_string()));
    assert!(item.flair);
    assert_eq!(item.description, None);
    assert_eq!(item.avatar, ItemAvatar::Profile(name(BOB)));
    let mut mine = said("done", ALICE, 4);
    mine.read(true);
    let item = ListItemMessages::direct_message(&me, name(BOB), "ShakyDuck".to_string(), &vec![said("ho", BOB, 2), mine]);
    assert_eq!(item.subtitle, Some("You: done".to_string()));
    assert!(!item.flair);
    let only_mark = vec![Message::joined(name(BOB), Timestamp::new(3, 0))];
    let item = ListItemMessages::direct_message(&me, name(BOB), "ShakyDuck".to_string(), &only_mark);
    assert_eq!(item.subtitle, Some("No messages yet.".to_string()));
    assert!(!item.flair);
}

#[test]
fn group_conversation_lists_the_others() {
    let me = name(ALICE);
    let members = vec![
        (name(BOB), "  ShakyDuck ".to_string()),
        (name(ALICE), "SaltyWeasel".to_string()),
        (name(CAROL), "SnappyDolphin\n".to_string()),
    ];
    let item = ListItemMessages::group_message(&me, &members, &vec![said("x", BOB, 1)]);
    assert_eq!(
        item,
        ListItemMessages {
            title: "Group Message".to_string(),
            flair: true,
            subtitle: None,
            description: Some("ShakyDuck, SnappyDolphin".to_string()),
            avatar: ItemAvatar::Group,
        }
    );
    let quiet = ListItemMessages::group_message(&me, &members, &vec![said("x", BOB, 1), Message::joined(name(BOB), Timestamp::new(3, 0))]);
    assert!(!quiet.flair);
    let alone = ListItemMessages::group_message(&me, &vec![(name(ALICE), "SaltyWeasel".to_string())], &vec![]);
    assert_eq!(alone.description, Some(String::new()));
    assert!(!alone.flair);
    assert_eq!(join(&vec![]), "");
    assert_eq!(join(&vec!["a".to_string()]), "a");
    assert_eq!(join(&vec!["a".to_string(), "".to_string(), "c".to_string()]), "a, , c");
}

#[test]
fn conversations_are_listed_latest_first() {
    let me = name(ALICE);
    let room = |id: u128, names: &[&str], messages: Vec<Message>| -> Room {
        (Id::new(0, id), names.iter().map(|n| name(n)).collect(), messages)
    };
    let rooms = vec![
        room(1, &[ALICE, BOB], vec![said("old", BOB, 10)]),
        room(2, &[], vec![]),
        room(3, &[ALICE, BOB, CAROL], vec![said("x", CAROL, 5), said("new", BOB, 30)]),
        room(4, &[BOB, CAROL], vec![said("same", CAROL, 10)]),
        room(5, &[ALICE], vec![]),
    ];
    let list = ListItemGroupMessages::new(&me, &rooms);
    assert_eq!(
        list.items,
        vec![
            RoomItem { index: 2, room: Id::new(0, 3), other: None },
            RoomItem { index: 3, room: Id::new(0, 4), other: Some(name(CAROL)) },
            RoomItem { index: 0, room: Id::new(0, 1), other: Some(name(BOB)) },
            RoomItem { index: 4, room: Id::new(0, 5), other: Some(name(ALICE)) },
            RoomItem { index: 1, room: Id::new(0, 2), other: Some(name(ALICE)) },
        ]
    );
    assert_eq!(list.items.iter().map(|item| item.navigate()).collect::<Vec<_>>(), vec![1, 2, 2, 2, 2]);
    assert_eq!(ListItemGroupMessages::new(&me, &vec![]).items, vec![]);
}

#[test]
fn head_shows_the_others() {
    let me = name(ALICE);
    let direct = HeaderContentMessages::new(&me, &vec![name(ALICE), name(BOB)]);
    assert_eq!(direct.profiles, vec![name(BOB)]);
    assert_eq!(direct.title, HeaderTitle::Profile(name(BOB)));
    assert_eq!(direct.title_text("ShakyDuck".to_string()), "ShakyDuck");
    let group = HeaderContentMessages::new(&me, &vec![name(BOB), name(ALICE), name(CAROL)]);
    assert_eq!(group.profiles, vec![name(BOB), name(CAROL)]);
    assert_eq!(group.title, HeaderTitle::Group);
    assert_eq!(group.title_text("ignored".to_string()), "Group Message");
    let alone = HeaderContentMessages::new(&me, &vec![name(ALICE)]);
    assert_eq!(alone.profiles, vec![name(ALICE)]);
    assert_eq!(alone.title, HeaderTitle::Profile(name(ALICE)));
    let nobody = HeaderContentMessages::new(&me, &vec![]);
    assert_eq!(nobody.profiles, vec![name(ALICE)]);
    let head = HeaderMessages::new(&me, &vec![name(BOB)]);
    assert_eq!((head.left, head.right), (0, 1));
    assert_eq!(head.content, HeaderContentMessages::new(&me, &vec![name(BOB)]));
}

#[test]
fn avatars_keep_to_their_sizes() {
    let door: AvatarContent<u8> = AvatarContentMessages::default();
    assert_eq!(door, AvatarContent::Icon("door".to_string(), AvatarIconStyle::Secondary));
    assert_eq!(AvatarContentMessages::room::<u8>(None), door);
    assert_eq!(AvatarContentMessages::room(Some(7u8)), AvatarContent::Image(7));
    assert_eq!(AvatarMessages::new(AvatarContent::Image(1u8)).size, 24);
    assert_eq!(AvatarMessages::room(AvatarContent::Image(1u8)).size, 128);
    let mut row = AvatarRow::new((0..7u8).map(AvatarContent::Image).collect());
    assert_eq!(row.count(), 5);
    assert_eq!(row.0[4], AvatarContent::Image(4));
    row.update(vec![AvatarContent::Image(9)]);
    assert_eq!(row.0, vec![AvatarContent::Image(9)]);
    row.update(vec![]);
    assert_eq!(row.count(), 0);
}

#[test]
fn written_text_becomes_a_message() {
    let input = TextInputMessages::new(Id::new(1, 2));
    assert_eq!(input.send(name(ALICE), &String::new()), None);
    assert_eq!(input.send_at(name(ALICE), &String::new(), Timestamp::new(1, 1)), None);
    assert_eq!(
        input.send_at(name(ALICE), &"hello".to_string(), Timestamp::new(1, 1)),
        Some(RoomsRequest::CreateMessage(
            Id::new(1, 2),
            Message::stamped("hello".to_string(), name(ALICE), Timestamp::new(1, 1))
        ))
    );
    match input.send(name(ALICE), &" ".to_string()) {
        Some(RoomsRequest::CreateMessage(room, message)) => {
            assert_eq!(room, Id::new(1, 2));
            assert_eq!(message.message(), " ");
            assert_eq!(*message.author(), name(ALICE));
        }
        other => panic!("{:?}", other),
    }
}

fn recipients() -> Vec<ListItemMessages> {
    vec![
        ListItemMessages::recipient("SaltyWeasel".to_string(), &name(ALICE)),
        ListItemMessages::recipient("ShakyDuck".to_string(), &name(BOB)),
        ListItemMessages::recipient("SnappyDolphin".to_string(), &name(CAROL)),
    ]
}

#[test]
fn search_orders_and_hides_the_entries() {
    let mut choice = QuickDeselect::new(recipients());
    assert_eq!(choice.hidden, vec![false, false, false]);
    assert_eq!(choice.get_orange_names(), None);
    choice.search("SNAP");
    assert_eq!(
        choice.items.iter().map(|i| i.title.as_str()).collect::<Vec<_>>(),
        vec!["SnappyDolphin", "SaltyWeasel", "ShakyDuck"]
    );
    assert_eq!(choice.hidden, vec![false, true, true]);
    choice.search("");
    assert_eq!(
        choice.items.iter().map(|i| i.title.as_str()).collect::<Vec<_>>(),
        vec!["SnappyDolphin", "SaltyWeasel", "ShakyDuck"]
    );
    assert_eq!(choice.hidden, vec![false, false, false]);
    // Bob's key holds "c6047f"; the titles of Alice and of Carol hold an "a".
    choice.search("C6047F");
    assert_eq!(
        choice.items.iter().map(|i| i.title.as_str()).collect::<Vec<_>>(),
        vec!["ShakyDuck", "SnappyDolphin", "SaltyWeasel"]
    );
    assert_eq!(choice.hidden, vec![false, true, true]);
    choice.search("s");
    assert_eq!(
        choice.items.iter().map(|i| i.title.as_str()).collect::<Vec<_>>(),
        vec!["ShakyDuck", "SnappyDolphin", "SaltyWeasel"]
    );
    assert_eq!(choice.hidden, vec![false, false, false]);
}

#[test]
fn recipients_are_chosen_and_dropped() {
    let mut choice = QuickDeselect::new(recipients());
    assert!(!choice.add(name(BOB)));
    assert_eq!(choice.get_orange_names(), Some(vec![name(BOB)]));
    assert_eq!(choice.items.iter().map(|i| i.flair).collect::<Vec<_>>(), vec![false, true, false]);
    assert!(!choice.add(name(CAROL)));
    assert!(choice.add(name(BOB)));
    assert_eq!(choice.get_orange_names(), Some(vec![name(BOB), name(CAROL)]));
    assert!(!choice.add(name(ALICE)));
    choice.remove(&name(BOB));
    assert_eq!(choice.get_orange_names(), Some(vec![name(CAROL), name(ALICE)]));
    assert_eq!(choice.items.iter().map(|i| i.flair).collect::<Vec<_>>(), vec![true, false, true]);
    choice.remove(&name(BOB));
    assert_eq!(choice.get_orange_names(), Some(vec![name(CAROL), name(ALICE)]));
    choice.remove(&name(ALICE));
    assert_eq!(choice.get_orange_names(), Some(vec![name(CAROL)]));
    choice.remove(&name(ALICE));
    assert_eq!(choice.selected, None);
    choice.remove(&name(CAROL));
    assert_eq!(choice.selected, None);
    assert_eq!(choice.items.iter().map(|i| i.flair).collect::<Vec<_>>(), vec![false, false, false]);
    assert_eq!(choice.hidden, vec![false, false, false]);
}

#[test]
fn drawing_is_renewed_when_messages_outnumber_bubbles() {
    assert_eq!(refresh(0, None), Refresh::Keep);
    assert_eq!(refresh(0, Some(3)), Refresh::Keep);
    assert_eq!(refresh(2, None), Refresh::Create);
    assert_eq!(refresh(2, Some(2)), Refresh::Keep);
    assert_eq!(refresh(3, Some(2)), Refresh::Rebuild);
    assert_eq!(refresh(1, Some(2)), Refresh::Keep);
}

#[test]
fn direct_conversation_names_the_other_and_its_foot() {
    let me = name(ALICE);
    assert_eq!(DirectMessage::other(&me, &vec![name(ALICE), name(BOB), name(CAROL)]), name(BOB));
    assert_eq!(DirectMessage::other(&me, &vec![name(CAROL)]), name(CAROL));
    assert_eq!(DirectMessage::other(&me, &vec![name(ALICE)]), name(ALICE));
    assert_eq!(DirectMessage::other(&me, &vec![]), name(ALICE));
    assert_eq!(DirectMessage::bumper("Duck", false, false), Bumper::Input);
    assert_eq!(
        DirectMessage::bumper("Duck", true, true),
        Bumper::Alert("You blocked Duck. Unblock to message.".to_string())
    );
    assert_eq!(
        DirectMessage::bumper("Duck", true, false),
        Bumper::Alert("You blocked Duck. Unblock to message.".to_string())
    );
    assert_eq!(DirectMessage::bumper("Duck", false, true), Bumper::Alert("Duck has blocked you.".to_string()));
    assert_eq!(DirectMessage::placeholder("Duck"), "No messages yet.\nSend Duck the first message.");
}

#[test]
fn new_conversation_opens_once_its_room_is_found() {
    let mut screen = SelectRecipients::new();
    assert!(screen.is_blocked(false));
    assert!(!screen.is_blocked(true));
    let none = Rooms(vec![]);
    assert_eq!(screen.on_tick_at(&none, &vec![name(BOB)], name(ALICE), Timestamp::new(1, 0)), None);
    assert!(!screen.is_due(&none));
    let request = screen.create_as(Uuid(42));
    assert_eq!(request, RoomsRequest::CreateRoom(Uuid(42)));
    assert!(screen.is_blocked(true));
    assert_eq!(screen.uuid, Some(Uuid(42)));
    assert_eq!(screen.on_tick_at(&none, &vec![name(BOB)], name(ALICE), Timestamp::new(1, 0)), None);
    let rooms = Rooms(vec![
        (Uuid(41), (Id::new(0, 1), vec![], vec![])),
        (Uuid(42), (Id::new(0, 2), vec![], vec![])),
        (Uuid(42), (Id::new(0, 3), vec![name(ALICE), name(BOB)], vec![])),
    ]);
    assert!(!screen.is_due(&none));
    assert!(screen.is_due(&rooms));
    let opening = screen.on_tick_at(&rooms, &vec![name(BOB), name(CAROL)], name(ALICE), Timestamp::new(9, 0));
    assert_eq!(
        opening,
        Some(Opening {
            requests: vec![
                RoomsRequest::Share(Id::new(0, 2), name(BOB)),
                RoomsRequest::Share(Id::new(0, 2), name(CAROL)),
                RoomsRequest::CreateMessage(Id::new(0, 2), Message::joined(name(ALICE), Timestamp::new(9, 0))),
            ],
            screen: 2,
        })
    );
    assert_eq!(screen.room, Some(Id::new(0, 2)));
    let crowded = Rooms(vec![(Uuid(42), (Id::new(0, 3), vec![name(ALICE), name(BOB)], vec![]))]);
    let opening = screen.on_tick(&crowded, &vec![], name(ALICE)).unwrap();
    assert_eq!(opening.screen, 1);
    assert_eq!(opening.requests.len(), 1);
    let mut other = SelectRecipients::new();
    let first = other.create();
    let mut third = SelectRecipients::new();
    assert_ne!(first, third.create());
    assert!(other.creating);
}

#[test]
fn authors_are_listed_once_in_order() {
    let messages = vec![said("1", BOB, 1), said("2", ALICE, 2), said("3", BOB, 3), said("4", CAROL, 4), said("5", ALICE, 5)];
    assert_eq!(authors(&messages), vec![name(BOB), name(ALICE), name(CAROL)]);
    assert_eq!(authors(&vec![]), vec![]);
}
