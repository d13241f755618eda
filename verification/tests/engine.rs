use std::collections::HashMap;

use messages::service::cache::{CachedRoom, RoomsCache};
use messages::service::handler::{Claim, HandlerStep, RoomsRequest, RoomsService};
use messages::service::message::{Message, Uuid};
use messages::service::name::OrangeName;
use messages::service::path::{Id, RecordPath};
use messages::service::rooms::Rooms;
use messages::service::store::{Permissions, Protocol, ServiceError, StoreCall, StoreReply};
use messages::service::sync::{RoomsSync, SyncStep};
use messages::service::time::Timestamp;

const ALICE: &str = "orange_name:0279be667ef9dcbbac55a06295ce870b07029bfcdb2dce28d959f2815b16f81798";
const BOB: &str = "orange_name:02c6047f9441ed7d6d3045406e95c07cd85c778e4b8cef3ca7abac09b95c709ee5";

fn name(text: &str) -> OrangeName {
    OrangeName::parse(text).expect("a participant's name")
}

fn at(secs: i64) -> Timestamp {
    Timestamp::new(secs, 0)
}

/// A store in memory that answers as the record store does: a slot belongs to the first
/// record created in it, and nothing is ever removed.
struct Store {
    seed: u128,
    slots: HashMap<(RecordPath, u32), Option<RecordPath>>,
    payloads: HashMap<RecordPath, Vec<u8>>,
    inbox: Vec<(Timestamp, RecordPath)>,
    shared: Vec<(OrangeName, Permissions, RecordPath)>,
    log: Vec<String>,
    fail_next: bool,
}

impl Store {
    fn new(seed: u128) -> Store {
        Store {
            seed,
            slots: HashMap::new(),
            payloads: HashMap::new(),
            inbox: Vec::new(),
            shared: Vec::new(),
            log: Vec::new(),
            fail_next: false,
        }
    }

    fn placed(&self, parent: &RecordPath, index: u32) -> RecordPath {
        parent.join(Id::new(self.seed + parent.ids().len() as u128, index as u128))
    }

    /// Puts another writer's record in a slot.
    fn occupy(&mut self, parent: &RecordPath, index: u32, payload: &[u8]) -> RecordPath {
        let path = self.placed(parent, index);
        self.slots.insert((parent.clone(), index), Some(path.clone()));
        self.payloads.insert(path.clone(), payload.to_vec());
        path
    }

    fn answer(&mut self, call: StoreCall) -> StoreReply {
        if self.fail_next {
            self.fail_next = false;
            return StoreReply::Failed;
        }
        match call {
            StoreCall::CreatePrivate { parent, protocol, index, permissions, payload } => {
                self.log.push(format!("create {:?} {} {:?}", protocol, index, permissions));
                let path = self.placed(&parent, index);
                if self.slots.contains_key(&(parent.clone(), index)) {
                    StoreReply::Created { path, occupied: true }
                } else {
                    self.slots.insert((parent, index), Some(path.clone()));
                    self.payloads.entry(path.clone()).or_insert(payload);
                    StoreReply::Created { path, occupied: false }
                }
            }
            StoreCall::CreatePointer { parent, target, index } => {
                self.log.push(format!("point {}", index));
                let path = self.placed(&parent, index);
                if self.slots.contains_key(&(parent.clone(), index)) {
                    StoreReply::Created { path, occupied: true }
                } else {
                    let found = parent.join(target.last());
                    self.slots.insert((parent, index), Some(found));
                    StoreReply::Created { path, occupied: false }
                }
            }
            StoreCall::Discover { parent, index, protocol } => {
                self.log.push(format!("discover {:?} {}", protocol, index));
                match self.slots.get(&(parent, index)) {
                    Some(found) => StoreReply::Discovered { found: found.clone(), occupied: true },
                    None => StoreReply::Discovered { found: None, occupied: false },
                }
            }
            StoreCall::ReadPrivate { path } => {
                self.log.push("read".to_string());
                StoreReply::Read { payload: self.payloads.get(&path).cloned() }
            }
            StoreCall::Share { recipient, permissions, path } => {
                self.log.push("share".to_string());
                self.shared.push((recipient, permissions, path));
                StoreReply::Shared
            }
            StoreCall::Receive { since } => {
                self.log.push("receive".to_string());
                let paths = self
                    .inbox
                    .iter()
                    .filter(|(stamp, _)| !stamp.before(&since))
                    .map(|(_, path)| path.clone())
                    .collect();
                StoreReply::Received { paths }
            }
        }
    }
}

fn serve(service: &mut RoomsService, store: &mut Store, request: RoomsRequest) -> Result<Claim, ServiceError> {
    let mut step = service.begin(request);
    loop {
        match step {
            HandlerStep::Call(call) => step = service.resume(store.answer(call)),
            HandlerStep::Done(result) => return result,
        }
    }
}

fn pass_at(sync: &mut RoomsSync, store: &mut Store, now: Timestamp) -> SyncStep {
    let mut step = SyncStep::Call(sync.start());
    loop {
        match step {
            SyncStep::Call(call) => step = sync.resume_at(store.answer(call), now),
            done => return done,
        }
    }
}

fn room_payload(id: u128) -> Vec<u8> {
    format!("\"{}\"", hyphenated(id)).into_bytes()
}

fn hyphenated(id: u128) -> String {
    let hex = format!("{:032x}", id);
    format!("{}-{}-{}-{}-{}", &hex[0..8], &hex[8..12], &hex[12..16], &hex[16..20], &hex[20..32])
}

fn cache_with_room(path: &RecordPath, uuid: Uuid, messages: Vec<Message>, cursor: u32) -> RoomsCache {
    let mut cache = RoomsCache::default();
    cache.rooms.push(CachedRoom { path: path.clone(), uuid, messages, cursor });
    cache
}

#[test]
fn create_room_claims_first_free_slot() {
    let mut store = Store::new(7);
    let root = RecordPath::root();
    store.occupy(&root, 0, &room_payload(100));
    store.occupy(&root, 1, &room_payload(101));
    let mut service = RoomsService::new(RoomsCache::default());
    let claim = serve(&mut service, &mut store, RoomsRequest::CreateRoom(Uuid(1))).unwrap();
    assert_eq!(claim.index, 2);
    assert_eq!(claim.path, store.placed(&root, 2));
    assert_eq!(service.cache().rooms_idx, 3);
    let permissions = Permissions { children: Some((true, true)), delete: None };
    assert_eq!(
        store.log,
        vec![
            format!("create Rooms 0 {:?}", permissions),
            format!("create Rooms 1 {:?}", permissions),
            format!("create Rooms 2 {:?}", permissions),
        ]
    );
    assert_eq!(store.payloads[&claim.path], room_payload(1));
    assert!(service.is_idle());
}

#[test]
fn create_room_in_an_empty_store_takes_slot_zero() {
    let mut store = Store::new(7);
    let mut service = RoomsService::new(RoomsCache::default());
    let claim = serve(&mut service, &mut store, RoomsRequest::CreateRoom(Uuid(9))).unwrap();
    assert_eq!(claim.index, 0);
    assert_eq!(service.cache().rooms_idx, 1);
    let again = serve(&mut service, &mut store, RoomsRequest::CreateRoom(Uuid(10))).unwrap();
    assert_eq!(again.index, 1);
    assert_eq!(service.cache().rooms_idx, 2);
}

#[test]
fn create_message_retries_behind_a_collision() {
    let mut store = Store::new(7);
    let root = RecordPath::root();
    let room = store.occupy(&root, 0, &room_payload(5));
    let first = Message::stamped("one".to_string(), name(ALICE), at(10));
    let second = Message::stamped("two".to_string(), name(BOB), at(20));
    let theirs = Message::stamped("theirs".to_string(), name(BOB), at(30));
    store.occupy(&room, 0, &first.encode().unwrap());
    store.occupy(&room, 1, &second.encode().unwrap());
    store.occupy(&room, 2, &theirs.encode().unwrap());
    let cache = cache_with_room(&room, Uuid(5), vec![first.clone(), second.clone()], 2);
    let mut service = RoomsService::new(cache.clone());
    let mine = Message::stamped("mine".to_string(), name(ALICE), at(25));
    let claim = serve(&mut service, &mut store, RoomsRequest::CreateMessage(room.last(), mine.clone()))
        .unwrap();
    assert_eq!(claim.index, 3);
    let none = Permissions { children: None, delete: None };
    assert_eq!(
        store.log,
        vec![format!("create Messages 2 {:?}", none), format!("create Messages 3 {:?}", none)]
    );
    assert_eq!(service.cache().rooms_idx, 0);

    let mut cache = cache;
    cache.rooms_idx = 1;
    let mut sync = RoomsSync::new(cache);
    let done = pass_at(&mut sync, &mut store, at(40));
    let rooms = match done {
        SyncStep::Finished(Some(rooms)) => rooms,
        other => panic!("no publication: {:?}", other),
    };
    assert_eq!(rooms.0.len(), 1);
    assert_eq!(rooms.0[0].1 .2, vec![first, second, theirs, mine]);
    assert_eq!(sync.cache().rooms[0].cursor, 4);
}

#[test]
fn message_for_an_unknown_room_is_refused() {
    let mut store = Store::new(7);
    let mut service = RoomsService::new(RoomsCache::default());
    let message = Message::stamped("hi".to_string(), name(ALICE), at(1));
    let result = serve(&mut service, &mut store, RoomsRequest::CreateMessage(Id::new(1, 2), message));
    assert_eq!(result, Err(ServiceError::UnknownRoom));
    assert!(store.log.is_empty());
    assert!(service.is_idle());
}

#[test]
fn store_failure_ends_the_request() {
    let mut store = Store::new(7);
    store.fail_next = true;
    let mut service = RoomsService::new(RoomsCache::default());
    let result = serve(&mut service, &mut store, RoomsRequest::CreateRoom(Uuid(1)));
    assert_eq!(result, Err(ServiceError::Store));
    assert!(store.slots.is_empty());
    assert!(service.is_idle());
}

#[test]
fn message_that_cannot_be_written_is_refused() {
    let mut store = Store::new(7);
    let room = store.occupy(&RecordPath::root(), 0, &room_payload(5));
    let mut service = RoomsService::new(cache_with_room(&room, Uuid(5), vec![], 0));
    let message = Message::stamped("late".to_string(), name(ALICE), Timestamp::new(i64::MAX, 0));
    let result = serve(&mut service, &mut store, RoomsRequest::CreateMessage(room.last(), message));
    assert_eq!(result, Err(ServiceError::Serialization));
}

#[test]
fn a_second_request_is_refused_while_one_waits() {
    let mut service = RoomsService::new(RoomsCache::default());
    let first = service.begin(RoomsRequest::CreateRoom(Uuid(1)));
    assert!(matches!(first, HandlerStep::Call(StoreCall::CreatePrivate { index: 0, .. })));
    let second = service.begin(RoomsRequest::CreateRoom(Uuid(2)));
    assert_eq!(second, HandlerStep::Done(Err(ServiceError::Busy)));
    let done = service.resume(StoreReply::Created { path: RecordPath::root(), occupied: false });
    assert_eq!(done, HandlerStep::Done(Ok(Claim { path: RecordPath::root(), index: 0 })));
}

#[test]
fn an_answer_nobody_asked_for_is_refused() {
    let mut service = RoomsService::new(RoomsCache::default());
    assert_eq!(service.resume(StoreReply::Shared), HandlerStep::Done(Err(ServiceError::Unexpected)));
    let _ = service.begin(RoomsRequest::CreateRoom(Uuid(1)));
    assert_eq!(service.resume(StoreReply::Shared), HandlerStep::Done(Err(ServiceError::Unexpected)));
    assert!(service.is_idle());
}

#[test]
fn the_last_slot_index_ends_the_search() {
    let mut cache = RoomsCache::default();
    cache.rooms_idx = u32::MAX;
    let mut service = RoomsService::new(cache);
    let _ = service.begin(RoomsRequest::CreateRoom(Uuid(1)));
    let step = service.resume(StoreReply::Created { path: RecordPath::root(), occupied: true });
    assert_eq!(step, HandlerStep::Done(Err(ServiceError::Exhausted)));
}

#[test]
fn callers_at_once_claim_different_slots() {
    let mut store = Store::new(7);
    let mut callers: Vec<RoomsService> =
        (0..3).map(|_| RoomsService::new(RoomsCache::default())).collect();
    let mut steps: Vec<HandlerStep> = callers
        .iter_mut()
        .enumerate()
        .map(|(i, caller)| caller.begin(RoomsRequest::CreateRoom(Uuid(i as u128))))
        .collect();
    let mut claims: Vec<Option<Claim>> = vec![None, None, None];
    let mut turn = 0;
    while claims.iter().any(|claim| claim.is_none()) {
        let who = [2, 0, 1, 1, 0, 2][turn % 6];
        turn += 1;
        let step = std::mem::replace(&mut steps[who], HandlerStep::Done(Err(ServiceError::Busy)));
        match step {
            HandlerStep::Call(call) => steps[who] = callers[who].resume(store.answer(call)),
            HandlerStep::Done(Ok(claim)) => claims[who] = Some(claim),
            HandlerStep::Done(Err(error)) => {
                assert_eq!(error, ServiceError::Busy);
                assert!(claims[who].is_some());
            }
        }
    }
    let mut indexes: Vec<u32> = claims.iter().map(|claim| claim.as_ref().unwrap().index).collect();
    indexes.sort();
    assert_eq!(indexes, vec![0, 1, 2]);
    let paths: Vec<RecordPath> = claims.into_iter().map(|claim| claim.unwrap().path).collect();
    assert_ne!(paths[0], paths[1]);
    assert_ne!(paths[1], paths[2]);
    assert_ne!(paths[0], paths[2]);
}

#[test]
fn first_pass_publishes_even_an_empty_store() {
    let mut store = Store::new(7);
    let mut sync = RoomsSync::new(RoomsCache::default());
    let done = pass_at(&mut sync, &mut store, at(50));
    assert_eq!(done, SyncStep::Finished(Some(Rooms(vec![]))));
    assert_eq!(sync.cache().datetime, at(50));
    assert_eq!(sync.cache().rooms_idx, 0);
    assert_eq!(store.log, vec!["receive", "discover Rooms 0"]);
}

#[test]
fn second_pass_over_an_unchanged_store_publishes_nothing() {
    let mut store = Store::new(7);
    let root = RecordPath::root();
    let room = store.occupy(&root, 0, &room_payload(5));
    let hello = Message::stamped("hello".to_string(), name(ALICE), at(10));
    store.occupy(&room, 0, &hello.encode().unwrap());
    let mut sync = RoomsSync::new(RoomsCache::default());
    let first = pass_at(&mut sync, &mut store, at(50));
    assert_eq!(
        first,
        SyncStep::Finished(Some(Rooms(vec![(
            Uuid(5),
            (room.last(), vec![name(ALICE)], vec![hello.clone()])
        )])))
    );
    let saved = sync.cache().clone();
    assert_eq!(saved.rooms_idx, 1);
    assert_eq!(saved.rooms[0].cursor, 1);
    let second = pass_at(&mut sync, &mut store, at(60));
    assert_eq!(second, SyncStep::Finished(None));
    assert_eq!(sync.cache().rooms, saved.rooms);
    assert_eq!(sync.cache().rooms_idx, saved.rooms_idx);
    assert_eq!(sync.cache().datetime, at(60));
}

#[test]
fn pass_resumes_where_the_last_one_stopped() {
    let mut store = Store::new(7);
    let root = RecordPath::root();
    let room = store.occupy(&root, 0, &room_payload(5));
    let mut sync = RoomsSync::new(RoomsCache::default());
    let _ = pass_at(&mut sync, &mut store, at(50));
    store.log.clear();
    let other = store.occupy(&root, 1, &room_payload(6));
    let word = Message::stamped("word".to_string(), name(BOB), at(55));
    store.occupy(&room, 0, &word.encode().unwrap());
    let done = pass_at(&mut sync, &mut store, at(60));
    assert_eq!(
        done,
        SyncStep::Finished(Some(Rooms(vec![
            (Uuid(5), (room.last(), vec![name(BOB)], vec![word])),
            (Uuid(6), (other.last(), vec![], vec![])),
        ])))
    );
    assert_eq!(
        store.log,
        vec![
            "receive",
            "discover Rooms 1",
            "read",
            "discover Rooms 2",
            "discover Messages 0",
            "read",
            "discover Messages 1",
            "discover Messages 0",
        ]
    );
}

#[test]
fn record_that_is_no_message_is_passed_over() {
    let mut store = Store::new(7);
    let root = RecordPath::root();
    let room = store.occupy(&root, 0, &room_payload(5));
    let good = Message::stamped("good".to_string(), name(ALICE), at(10));
    store.occupy(&room, 0, b"{\"not\":\"a message\"}");
    store.slots.insert((room.clone(), 1), None);
    store.occupy(&room, 2, &good.encode().unwrap());
    store.occupy(&root, 1, b"no uuid");
    store.occupy(&root, 2, &room_payload(8));
    let mut sync = RoomsSync::new(RoomsCache::default());
    let done = pass_at(&mut sync, &mut store, at(50));
    let rooms = match done {
        SyncStep::Finished(Some(rooms)) => rooms,
        other => panic!("no publication: {:?}", other),
    };
    assert_eq!(rooms.0.len(), 2);
    assert_eq!(rooms.0[0].0, Uuid(5));
    assert_eq!(rooms.0[0].1 .2, vec![good]);
    assert_eq!(rooms.0[1].0, Uuid(8));
    assert_eq!(sync.cache().rooms_idx, 3);
    assert_eq!(sync.cache().rooms[0].cursor, 3);
    assert!(sync.cache().is_well_formed());
}

#[test]
fn failed_pass_leaves_the_cache_as_it_was() {
    let mut store = Store::new(7);
    let root = RecordPath::root();
    let room = store.occupy(&root, 0, &room_payload(5));
    let mut sync = RoomsSync::new(RoomsCache::default());
    let call = sync.start();
    let step = sync.resume_at(store.answer(call), at(50));
    let step = match step {
        SyncStep::Call(call) => sync.resume_at(store.answer(call), at(50)),
        other => panic!("{:?}", other),
    };
    assert_eq!(step, SyncStep::Call(StoreCall::ReadPrivate { path: room.clone() }));
    let step = sync.resume_at(StoreReply::Failed, at(50));
    assert_eq!(step, SyncStep::Aborted(ServiceError::Store));
    assert_eq!(*sync.cache(), RoomsCache::default());
    let done = pass_at(&mut sync, &mut store, at(60));
    assert_eq!(
        done,
        SyncStep::Finished(Some(Rooms(vec![(Uuid(5), (room.last(), vec![], vec![]))])))
    );
}

#[test]
fn record_that_cannot_be_read_gives_the_pass_up() {
    let mut store = Store::new(7);
    let root = RecordPath::root();
    let lost = root.join(Id::new(1, 1));
    store.slots.insert((root, 0), Some(lost));
    let mut sync = RoomsSync::new(RoomsCache::default());
    let done = pass_at(&mut sync, &mut store, at(50));
    assert_eq!(done, SyncStep::Aborted(ServiceError::MissingRecord));
    assert_eq!(*sync.cache(), RoomsCache::default());
}

#[test]
fn pass_ends_at_the_last_slot_index() {
    let mut store = Store::new(7);
    store.slots.insert((RecordPath::root(), u32::MAX), None);
    let mut cache = RoomsCache::default();
    cache.rooms_idx = u32::MAX;
    let mut sync = RoomsSync::new(cache);
    assert_eq!(pass_at(&mut sync, &mut store, at(50)), SyncStep::Aborted(ServiceError::Exhausted));
    assert_eq!(sync.cache().rooms_idx, u32::MAX);
    assert_eq!(sync.cache().datetime, Timestamp::unix_epoch());

    let room = RecordPath::root().join(Id::new(0, 1));
    let mut store = Store::new(7);
    store.slots.insert((room.clone(), u32::MAX), None);
    let mut sync = RoomsSync::new(cache_with_room(&room, Uuid(1), vec![], u32::MAX));
    assert_eq!(pass_at(&mut sync, &mut store, at(50)), SyncStep::Aborted(ServiceError::Exhausted));
    assert_eq!(sync.cache().rooms[0].cursor, u32::MAX);
}

#[test]
fn pointer_slots_run_out_too() {
    let mut store = Store::new(7);
    store.slots.insert((RecordPath::root(), u32::MAX), None);
    store.inbox.push((at(1), RecordPath::root().join(Id::new(0, 9))));
    let mut cache = RoomsCache::default();
    cache.rooms_idx = u32::MAX;
    let mut sync = RoomsSync::new(cache);
    assert_eq!(pass_at(&mut sync, &mut store, at(50)), SyncStep::Aborted(ServiceError::Exhausted));
    assert_eq!(store.log, vec!["receive", "point 4294967295"]);
}

#[test]
fn answer_without_a_pass_is_refused() {
    let mut sync = RoomsSync::new(RoomsCache::default());
    assert_eq!(sync.resume(StoreReply::Shared), SyncStep::Aborted(ServiceError::Unexpected));
    let _ = sync.start();
    assert_eq!(sync.resume(StoreReply::Shared), SyncStep::Aborted(ServiceError::Unexpected));
}

#[test]
fn sharing_lets_the_recipient_in_and_tells_the_room() {
    // Alice's side: a room with one message, shared with Bob.
    let mut hers = Store::new(7);
    let root = RecordPath::root();
    let mut alice = RoomsService::new(RoomsCache::default());
    let claim = serve(&mut alice, &mut hers, RoomsRequest::CreateRoom(Uuid(77))).unwrap();
    let room = claim.path.clone();
    let mut sync = RoomsSync::new(RoomsCache::default());
    let _ = pass_at(&mut sync, &mut hers, at(10));
    let mut alice = RoomsService::new(sync.cache().clone());
    hers.log.clear();
    let joined = serve(&mut alice, &mut hers, RoomsRequest::Share(room.last(), name(BOB))).unwrap();
    assert_eq!(joined.index, 0);
    assert_eq!(hers.log[0], "share");
    assert_eq!(
        hers.shared,
        vec![(name(BOB), Permissions { children: Some((true, true)), delete: None }, room.clone())]
    );
    let stored = Message::decode(&hers.payloads[&joined.path]).unwrap();
    assert_eq!(stored.message(), "__system__joined");
    assert!(stored.is_joined());
    assert_eq!(*stored.author(), name(BOB));
    assert!(*stored.is_read());

    // Bob's side: the room arrives in the inbox; everything under it is the same store.
    let mut his = Store::new(9);
    let arrived = RecordPath::from_ids(vec![Id::new(u128::MAX, u128::MAX), room.last()]);
    his.inbox.push((at(20), arrived));
    his.payloads.insert(room.clone(), hers.payloads[&room].clone());
    for ((parent, index), found) in hers.slots.iter() {
        if *parent == room {
            his.slots.insert((parent.clone(), *index), found.clone());
            let path = found.clone().unwrap();
            his.payloads.insert(path.clone(), hers.payloads[&path].clone());
        }
    }
    his.occupy(&root, 0, &room_payload(1));
    let mut bob = RoomsSync::new(RoomsCache::default());
    let done = pass_at(&mut bob, &mut his, at(30));
    let rooms = match done {
        SyncStep::Finished(Some(rooms)) => rooms,
        other => panic!("no publication: {:?}", other),
    };
    assert_eq!(his.log[0..3], ["receive", "point 0", "point 1"]);
    assert_eq!(rooms.0.len(), 2);
    assert_eq!(rooms.0[1].0, Uuid(77));
    assert_eq!(rooms.0[1].1 .0, room.last());
    assert_eq!(rooms.0[1].1 .1, vec![name(BOB)]);
    assert_eq!(rooms.0[1].1 .2, vec![stored]);
    assert_eq!(bob.cache().rooms[1].path, room);
    assert_eq!(bob.cache().rooms_idx, 2);

    // Nothing new in the inbox since: the next pass is silent.
    assert_eq!(pass_at(&mut bob, &mut his, at(40)), SyncStep::Finished(None));
}

#[test]
fn message_round_trips_through_handler_and_synchronizer() {
    let mut store = Store::new(7);
    let room = store.occupy(&RecordPath::root(), 0, &room_payload(5));
    let mut service = RoomsService::new(cache_with_room(&room, Uuid(5), vec![], 0));
    let plain = Message::stamped("a \"quoted\" line\nand a tab\t\u{1F34A}".to_string(), name(ALICE), Timestamp::new(1_747_642_365, 123_456_789));
    let mark = Message::joined(name(BOB), at(1_747_642_366));
    serve(&mut service, &mut store, RoomsRequest::CreateMessage(room.last(), plain.clone())).unwrap();
    let mut service = RoomsService::new(cache_with_room(&room, Uuid(5), vec![], 1));
    serve(&mut service, &mut store, RoomsRequest::CreateMessage(room.last(), mark.clone())).unwrap();
    let mut sync = RoomsSync::new(RoomsCache::default());
    let done = pass_at(&mut sync, &mut store, at(1_747_642_400));
    assert_eq!(
        done,
        SyncStep::Finished(Some(Rooms(vec![(
            Uuid(5),
            (room.last(), vec![name(ALICE), name(BOB)], vec![plain, mark.clone()])
        )])))
    );
    assert!(sync.cache().rooms[0].messages[1].is_joined());
    assert_eq!(Protocol::Messages, Protocol::Messages);
}

#[test]
fn resume_stamps_the_cache_with_the_clock() {
    let mut store = Store::new(7);
    let mut sync = RoomsSync::new(RoomsCache::default());
    let mut step = SyncStep::Call(sync.start());
    while let SyncStep::Call(call) = step {
        step = sync.resume(store.answer(call));
    }
    assert!(matches!(step, SyncStep::Finished(Some(_))));
    assert!(sync.cache().datetime.secs > 1_600_000_000);
    assert!(sync.cache().datetime.nanos < 1_000_000_000);
}

#[test]
fn rooms_are_found_by_their_id() {
    let first = (Id::new(0, 1), vec![name(ALICE)], vec![]);
    let second = (Id::new(0, 2), vec![], vec![]);
    let mut rooms = Rooms(vec![(Uuid(1), first.clone()), (Uuid(2), second.clone())]);
    assert_eq!(rooms.rooms(), vec![first, second.clone()]);
    assert_eq!(rooms.position(Id::new(0, 2)), Some(1));
    assert_eq!(rooms.position(Id::new(0, 3)), None);
    assert!(rooms.get(Id::new(0, 3)).is_none());
    let room = rooms.get(Id::new(0, 2)).unwrap();
    room.2.push(Message::stamped("new".to_string(), name(BOB), at(1)));
    assert_eq!(rooms.0[1].1 .2.len(), 1);
    assert_eq!(rooms.0[0].1 .2.len(), 0);
    assert_eq!(Rooms::default(), Rooms(vec![]));
}

#[test]
fn cache_knows_its_rooms() {
    let mut cache = RoomsCache::default();
    assert_eq!(cache.rooms_idx, 0);
    assert_eq!(cache.datetime, Timestamp::unix_epoch());
    assert!(cache.rooms.is_empty());
    let one = RecordPath::root().join(Id::new(0, 1));
    let two = RecordPath::root().join(Id::new(0, 2));
    assert!(cache.insert_room(one.clone(), Uuid(1)));
    assert!(cache.insert_room(two.clone(), Uuid(2)));
    assert!(!cache.insert_room(one.clone(), Uuid(3)));
    assert_eq!(cache.rooms.len(), 2);
    assert_eq!(cache.rooms[0].uuid, Uuid(1));
    assert_eq!(cache.find(&two), Some(1));
    assert_eq!(cache.find(&RecordPath::root()), None);
    assert_eq!(cache.cursor_of(&one), Some(0));
    cache.push_message(1, Message::stamped("x".to_string(), name(ALICE), at(1)));
    assert!(!cache.is_well_formed());
    cache.set_cursor(1, 1);
    assert!(cache.is_well_formed());
    assert_eq!(cache.cursor_of(&two), Some(1));
    let kept = cache.clone().sound();
    assert_eq!(kept, cache);
    cache.rooms.push(CachedRoom { path: one, uuid: Uuid(4), messages: vec![], cursor: 0 });
    assert!(!cache.is_well_formed());
    assert_eq!(cache.sound(), RoomsCache::default());
}

#[test]
fn kinds_of_records_have_their_names_and_children() {
    assert_eq!(Protocol::Rooms.name(), "RoomsV1");
    assert_eq!(Protocol::Messages.name(), "MessagesV1");
    let under = Protocol::Rooms.children().unwrap();
    assert_eq!(under.children, vec![Protocol::Messages]);
    assert!(under.anyone_discover && under.anyone_read && !under.allow_pointers);
    assert_eq!(Protocol::Messages.children(), None);
    assert_eq!(Permissions::rooms(), Permissions { children: Some((true, true)), delete: None });
    assert_eq!(Permissions::messages(), Permissions { children: None, delete: None });
    assert_eq!(Permissions::of(Protocol::Rooms), Permissions::rooms());
    assert_eq!(Permissions::of(Protocol::Messages), Permissions::messages());
}

#[test]
fn paths_join_and_end() {
    let root = RecordPath::root();
    assert!(root.is_root());
    assert_eq!(root.last(), Id::new(0, 0));
    let child = root.join(Id::new(3, 4));
    assert!(!child.is_root());
    assert_eq!(child.last(), Id::new(3, 4));
    assert_eq!(child.ids(), &vec![Id::new(3, 4)]);
    let deeper = child.join(Id::new(5, 6));
    assert_eq!(deeper.last(), Id::new(5, 6));
    assert!(deeper.same(&RecordPath::from_ids(vec![Id::new(3, 4), Id::new(5, 6)])));
    assert!(!deeper.same(&child));
    assert!(!child.same(&root.join(Id::new(3, 5))));
}
