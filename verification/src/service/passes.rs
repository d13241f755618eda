//! What a pass of the synchronizer achieves against the model of the store.

use crate::service::cache::{CachedRoomView, RoomsCacheView};
use crate::service::ledger::{lemma_answer_keeps, lemma_messages_stay, Ledger};
use crate::service::message::MessageView;
use crate::service::path::Id;
use crate::service::rooms::Rooms;
use crate::service::store::{Protocol, StoreCallView, StoreReplyView};
use crate::service::sync::{PassView, RoomsSyncView, StageView, SyncStepView};
use crate::service::time::Timestamp;
use vstd::prelude::*;

verus! {

/// The synchronizer run against the model from the point where it has asked for
/// `call`: every call is answered by the model, for at most `fuel` calls, the clock
/// showing `now` throughout. The result is the synchronizer and the model at the end,
/// and the last step: a call where the fuel ran out first.
pub open spec fn run(
    sync: RoomsSyncView,
    ledger: Ledger,
    call: StoreCallView,
    now: Timestamp,
    fuel: nat,
) -> (RoomsSyncView, Ledger, SyncStepView)
    decreases fuel,
{
    if fuel == 0 {
        (sync, ledger, SyncStepView::Call(call))
    } else {
        let (answered, reply) = ledger.answer(call);
        let (next, step) = sync.resume(reply, now);
        match step {
            SyncStepView::Call(asked) => run(next, answered, asked, now, (fuel - 1) as nat),
            _ => (next, answered, step),
        }
    }
}

/// One pass run against the model, from its start.
pub open spec fn pass(sync: RoomsSyncView, ledger: Ledger, now: Timestamp, fuel: nat) -> (
    RoomsSyncView,
    Ledger,
    SyncStepView,
) {
    let (started, call) = sync.start();
    run(started, ledger, call, now, fuel)
}

/// A room agrees with the model when every slot below its cursor is occupied and its
/// messages are those that these slots hold, in the order of the slots.
pub open spec fn room_faithful(room: CachedRoomView, ledger: Ledger) -> bool {
    &&& ledger.filled(room.path, room.cursor as int)
    &&& room.messages == ledger.messages_in(room.path, room.cursor as int)
}

/// A cache agrees with the model when every root slot below its count is occupied and
/// every room agrees with the model.
pub open spec fn faithful(cache: RoomsCacheView, ledger: Ledger) -> bool {
    &&& cache.wf()
    &&& ledger.filled(Seq::empty(), cache.rooms_idx as int)
    &&& forall|r: int| 0 <= r < cache.rooms.len() ==> room_faithful(#[trigger] cache.rooms[r], ledger)
}

/// A room is settled when the slot at its cursor is free: the model holds no message
/// of it that the cache lacks.
pub open spec fn room_settled(room: CachedRoomView, ledger: Ledger) -> bool {
    !ledger.occupied(room.path, room.cursor as int)
}

/// A cache is settled when the root slot at its count is free and every room is
/// settled: a walk from here finds nothing.
pub open spec fn settled(cache: RoomsCacheView, ledger: Ledger) -> bool {
    &&& !ledger.occupied(Seq::empty(), cache.rooms_idx as int)
    &&& forall|r: int| 0 <= r < cache.rooms.len() ==> room_settled(#[trigger] cache.rooms[r], ledger)
}

/// A cache has grown out of another when it holds the other's rooms in their places,
/// each with the other's messages at the front of its own, and no count or cursor has
/// gone back.
pub open spec fn grown(before: RoomsCacheView, after: RoomsCacheView) -> bool {
    &&& before.rooms_idx <= after.rooms_idx
    &&& before.rooms.len() <= after.rooms.len()
    &&& forall|r: int|
        0 <= r < before.rooms.len() ==> {
            &&& (#[trigger] after.rooms[r]).path == before.rooms[r].path
            &&& after.rooms[r].uuid == before.rooms[r].uuid
            &&& before.rooms[r].cursor <= after.rooms[r].cursor
            &&& before.rooms[r].messages.is_prefix_of(after.rooms[r].messages)
        }
}

/// The cache that a synchronizer works on: that of the pass under way, or its own
/// where none is.
pub open spec fn working(sync: RoomsSyncView) -> RoomsCacheView {
    match sync.pass {
        PassView::Running { work, mutated, stage } => work,
        PassView::Idle => sync.cache,
    }
}

/// A cache has grown out of itself, and out of what it was before its count of the
/// root slots or its instant moved on.
proof fn lemma_grown_in_place(before: RoomsCacheView, after: RoomsCacheView)
    requires
        before.wf(),
        after.rooms == before.rooms,
        before.rooms_idx <= after.rooms_idx,
    ensures
        after.wf(),
        grown(before, after),
{
}

proof fn lemma_grown_by_a_room(before: RoomsCacheView, path: Seq<Id>, uuid: crate::service::message::Uuid)
    requires
        before.wf(),
    ensures
        before.with_room(path, uuid).wf(),
        grown(before, before.with_room(path, uuid)),
{
    let after = before.with_room(path, uuid);
    if !before.has(path) {
        assert forall|i: int, j: int| 0 <= i < j < after.rooms.len() implies after.rooms[i].path
            != after.rooms[j].path by {
            if j < before.rooms.len() {
                assert(before.rooms[i].path != before.rooms[j].path);
            } else {
                assert(before.rooms[i].path != path);
            }
        }
        assert forall|i: int| 0 <= i < after.rooms.len() implies (#[trigger] after.rooms[i]).messages.len()
            <= after.rooms[i].cursor by {
            if i < before.rooms.len() {
                assert(before.rooms[i].messages.len() <= before.rooms[i].cursor);
            }
        }
        assert forall|r: int| 0 <= r < before.rooms.len() implies {
            &&& (#[trigger] after.rooms[r]).path == before.rooms[r].path
            &&& after.rooms[r].uuid == before.rooms[r].uuid
            &&& before.rooms[r].cursor <= after.rooms[r].cursor
            &&& before.rooms[r].messages.is_prefix_of(after.rooms[r].messages)
        } by {}
    }
}

proof fn lemma_grown_by_a_slot(
    before: RoomsCacheView,
    held: RoomsCacheView,
    room: int,
    message: Option<MessageView>,
)
    requires
        before.wf(),
        0 <= room < before.rooms.len(),
        before.rooms[room].cursor < u32::MAX,
        held == match message {
            Some(m) => before.with_message(room, m),
            None => before,
        },
    ensures
        held.with_cursor(room, (before.rooms[room].cursor + 1) as u32).wf(),
        grown(before, held.with_cursor(room, (before.rooms[room].cursor + 1) as u32)),
{
    let after = held.with_cursor(room, (before.rooms[room].cursor + 1) as u32);
    assert(after.rooms.len() == before.rooms.len());
    assert forall|i: int, j: int| 0 <= i < j < after.rooms.len() implies after.rooms[i].path
        != after.rooms[j].path by {
        assert(after.rooms[i].path == before.rooms[i].path);
        assert(after.rooms[j].path == before.rooms[j].path);
    }
    assert forall|i: int| 0 <= i < after.rooms.len() implies (#[trigger] after.rooms[i]).messages.len()
        <= after.rooms[i].cursor by {
        assert(before.rooms[i].messages.len() <= before.rooms[i].cursor);
    }
    assert forall|r: int| 0 <= r < before.rooms.len() implies {
        &&& (#[trigger] after.rooms[r]).path == before.rooms[r].path
        &&& after.rooms[r].uuid == before.rooms[r].uuid
        &&& before.rooms[r].cursor <= after.rooms[r].cursor
        &&& before.rooms[r].messages.is_prefix_of(after.rooms[r].messages)
    } by {}
}

/// Whatever the store answers, a step loses nothing: the cache that the synchronizer
/// works on afterwards has grown out of the one before, or the pass was given up and
/// the cache is that of the last complete pass. Both caches stay well formed.
pub proof fn lemma_step_only_grows(sync: RoomsSyncView, reply: StoreReplyView, now: Timestamp)
    requires
        sync.cache.wf(),
        working(sync).wf(),
    ensures
        ({
            let (next, step) = sync.resume(reply, now);
            &&& next.cache.wf()
            &&& working(next).wf()
            &&& step is Aborted ==> next.cache == sync.cache && next.pass is Idle
            &&& !(step is Aborted) ==> grown(working(sync), working(next))
        }),
{
    match sync.pass {
        PassView::Idle => {},
        PassView::Running { work, mutated, stage } => {
            let stamped = RoomsCacheView { datetime: now, ..work };
            lemma_grown_in_place(work, work);
            lemma_grown_in_place(work, stamped);
            if work.rooms_idx < u32::MAX {
                lemma_grown_in_place(
                    work,
                    RoomsCacheView { rooms_idx: (work.rooms_idx + 1) as u32, ..work },
                );
            }
            match (stage, reply) {
                (StageView::Room { path }, StoreReplyView::Read { payload: Some(bytes) }) => {
                    match crate::service::codec::uuid_from_json(bytes) {
                        Some(id) => {
                            let held = work.with_room(path, crate::service::message::Uuid(id));
                            lemma_grown_by_a_room(work, path, crate::service::message::Uuid(id));
                            if held.rooms_idx < u32::MAX {
                                let moved = RoomsCacheView {
                                    rooms_idx: (held.rooms_idx + 1) as u32,
                                    ..held
                                };
                                lemma_grown_in_place(held, moved);
                                lemma_grown_onwards(work, held, moved);
                            }
                        },
                        None => {},
                    }
                },
                (
                    StageView::Messages { room },
                    StoreReplyView::Discovered { found: None, occupied: true },
                ) => {
                    if 0 <= room < work.rooms.len() && work.rooms[room].cursor < u32::MAX {
                        lemma_grown_by_a_slot(work, work, room, None);
                    }
                },
                (StageView::Message { room }, StoreReplyView::Read { payload: Some(bytes) }) => {
                    if 0 <= room < work.rooms.len() && work.rooms[room].cursor < u32::MAX {
                        let message = crate::service::message::Message::message_of(bytes);
                        let held = match message {
                            Some(m) => work.with_message(room, m),
                            None => work,
                        };
                        lemma_grown_by_a_slot(work, held, room, message);
                    }
                },
                _ => {},
            }
        },
    }
}

/// What holds of a pass under way that waits for the answer to `call`.
pub open spec fn on_course(
    sync: RoomsSyncView,
    ledger: Ledger,
    call: StoreCallView,
    now: Timestamp,
) -> bool {
    match sync.pass {
        PassView::Idle => false,
        PassView::Running { work, mutated, stage } => {
            &&& faithful(work, ledger)
            &&& grown(sync.cache, work)
            &&& stage is Receive || stage is Point || work.datetime == now
            &&& match stage {
                StageView::Receive => call is Receive,
                StageView::Point { shared, at, index } => {
                    &&& 0 <= at < shared.len()
                    &&& call == StoreCallView::CreatePointer {
                        parent: Seq::empty(),
                        target: shared[at],
                        index,
                    }
                },
                StageView::Rooms => call == StoreCallView::Discover {
                    parent: Seq::empty(),
                    index: work.rooms_idx,
                    protocol: Protocol::Rooms,
                },
                StageView::Room { path } => {
                    &&& call == StoreCallView::ReadPrivate { path }
                    &&& ledger.occupied(Seq::empty(), work.rooms_idx as int)
                    &&& ledger.slots[(Seq::empty(), work.rooms_idx as int)] == Some(path)
                },
                StageView::Messages { room } => {
                    &&& 0 <= room < work.rooms.len()
                    &&& call == StoreCallView::Discover {
                        parent: work.rooms[room].path,
                        index: work.rooms[room].cursor,
                        protocol: Protocol::Messages,
                    }
                    &&& settled_before(work, ledger, room)
                },
                StageView::Message { room } => {
                    &&& 0 <= room < work.rooms.len()
                    &&& ledger.occupied(work.rooms[room].path, work.rooms[room].cursor as int)
                    &&& call matches StoreCallView::ReadPrivate { path }
                    &&& ledger.slots[(work.rooms[room].path, work.rooms[room].cursor as int)]
                        == Some(path)
                    &&& settled_before(work, ledger, room)
                },
            }
        },
    }
}

/// The root and the rooms before position `room` are settled.
pub open spec fn settled_before(cache: RoomsCacheView, ledger: Ledger, room: int) -> bool {
    &&& !ledger.occupied(Seq::empty(), cache.rooms_idx as int)
    &&& forall|r: int|
        0 <= r < room && r < cache.rooms.len() ==> room_settled(#[trigger] cache.rooms[r], ledger)
}

/// What holds at the end of a step of a pass on course: on course again, or complete
/// with a cache that agrees with the model and is settled, or given up with the cache
/// untouched.
pub open spec fn well_ended(
    before: RoomsSyncView,
    after: RoomsSyncView,
    ledger: Ledger,
    step: SyncStepView,
    now: Timestamp,
) -> bool {
    match step {
        SyncStepView::Call(call) => on_course(after, ledger, call, now) && after.cache
            == before.cache && after.init == before.init,
        SyncStepView::Finished(rooms) => {
            &&& after.pass is Idle
            &&& after.init
            &&& after.cache.datetime == now
            &&& faithful(after.cache, ledger)
            &&& settled(after.cache, ledger)
            &&& grown(before.cache, after.cache)
            &&& rooms matches Some(published) ==> published == Rooms::snapshot_of(after.cache)
            &&& !before.init ==> rooms is Some
        },
        SyncStepView::Aborted(error) => after.pass is Idle && after.cache == before.cache,
    }
}

/// A cache that agrees with the store goes on agreeing with it, whatever is added to
/// the store.
pub proof fn lemma_faithful_stays(cache: RoomsCacheView, ledger: Ledger, later: Ledger)
    requires
        faithful(cache, ledger),
        ledger.within(later),
    ensures
        faithful(cache, later),
{
    lemma_messages_stay(ledger, later, Seq::empty(), cache.rooms_idx as int);
    assert forall|r: int| 0 <= r < cache.rooms.len() implies room_faithful(
        #[trigger] cache.rooms[r],
        later,
    ) by {
        assert(room_faithful(cache.rooms[r], ledger));
        lemma_messages_stay(ledger, later, cache.rooms[r].path, cache.rooms[r].cursor as int);
    }
}

proof fn lemma_grown_onwards(first: RoomsCacheView, second: RoomsCacheView, third: RoomsCacheView)
    requires
        grown(first, second),
        grown(second, third),
    ensures
        grown(first, third),
{
    assert forall|r: int| 0 <= r < first.rooms.len() implies {
        &&& (#[trigger] third.rooms[r]).path == first.rooms[r].path
        &&& third.rooms[r].uuid == first.rooms[r].uuid
        &&& first.rooms[r].cursor <= third.rooms[r].cursor
        &&& first.rooms[r].messages.is_prefix_of(third.rooms[r].messages)
    } by {
        assert(second.rooms[r].path == first.rooms[r].path);
        assert(third.rooms[r].path == second.rooms[r].path);
    }
}

proof fn lemma_look_for_message(
    sync: RoomsSyncView,
    ledger: Ledger,
    work: RoomsCacheView,
    mutated: bool,
    room: int,
    now: Timestamp,
)
    requires
        work.datetime == now,
        faithful(work, ledger),
        grown(sync.cache, work),
        settled_before(work, ledger, room),
        0 <= room,
    ensures
        ({
            let (next, step) = sync.look_for_message(work, mutated, room);
            well_ended(sync, next, ledger, step, now)
        }),
{
}

proof fn lemma_next_message_slot(
    sync: RoomsSyncView,
    ledger: Ledger,
    work: RoomsCacheView,
    held: RoomsCacheView,
    mutated: bool,
    room: int,
    now: Timestamp,
)
    requires
        work.datetime == now,
        faithful(work, ledger),
        grown(sync.cache, work),
        settled_before(work, ledger, room),
        0 <= room < work.rooms.len(),
        ledger.occupied(work.rooms[room].path, work.rooms[room].cursor as int),
        ledger.readable(work.rooms[room].path, work.rooms[room].cursor as int),
        match ledger.message_at(work.rooms[room].path, work.rooms[room].cursor as int) {
            Some(message) => held == work.with_message(room, message),
            None => held == work,
        },
    ensures
        ({
            let (next, step) = sync.next_message_slot(held, mutated, room);
            well_ended(sync, next, ledger, step, now)
        }),
{
    let old_room = work.rooms[room];
    let path = old_room.path;
    let cursor = old_room.cursor;
    if cursor < u32::MAX {
        let moved = held.with_cursor(room, (cursor + 1) as u32);
        assert(room_faithful(old_room, ledger));
        assert(moved.rooms.len() == work.rooms.len());
        assert forall|r: int| 0 <= r < moved.rooms.len() && r != room implies moved.rooms[r]
            == work.rooms[r] by {}
        assert(moved.rooms[room].path == path);
        assert(moved.rooms[room].cursor == cursor + 1);
        assert(moved.rooms[room].messages == ledger.messages_in(path, cursor + 1));
        assert forall|i: int| 0 <= i < cursor + 1 implies #[trigger] ledger.occupied(path, i)
            && ledger.readable(path, i) by {
            if i < cursor {
                assert(ledger.occupied(path, i));
            }
        }
        assert forall|r: int| 0 <= r < moved.rooms.len() implies room_faithful(
            #[trigger] moved.rooms[r],
            ledger,
        ) by {
            if r != room {
                assert(room_faithful(work.rooms[r], ledger));
            }
        }
        assert(moved.wf()) by {
            assert forall|i: int, j: int| 0 <= i < j < moved.rooms.len() implies moved.rooms[i].path
                != moved.rooms[j].path by {
                assert(moved.rooms[i].path == work.rooms[i].path);
                assert(moved.rooms[j].path == work.rooms[j].path);
            }
            assert forall|i: int| 0 <= i < moved.rooms.len() implies (#[trigger] moved.rooms[i]).messages.len()
                <= moved.rooms[i].cursor by {
                assert(work.rooms[i].messages.len() <= work.rooms[i].cursor);
            }
        }
        assert(grown(work, moved)) by {
            assert forall|r: int| 0 <= r < work.rooms.len() implies {
                &&& (#[trigger] moved.rooms[r]).path == work.rooms[r].path
                &&& moved.rooms[r].uuid == work.rooms[r].uuid
                &&& work.rooms[r].cursor <= moved.rooms[r].cursor
                &&& work.rooms[r].messages.is_prefix_of(moved.rooms[r].messages)
            } by {}
        }
        lemma_grown_onwards(sync.cache, work, moved);
        assert(settled_before(moved, ledger, room)) by {
            assert forall|r: int| 0 <= r < room && r < moved.rooms.len() implies room_settled(
                #[trigger] moved.rooms[r],
                ledger,
            ) by {
                assert(room_settled(work.rooms[r], ledger));
            }
        }
        lemma_look_for_message(sync, ledger, moved, mutated, room, now);
    }
}

proof fn lemma_next_root_slot(
    sync: RoomsSyncView,
    ledger: Ledger,
    work: RoomsCacheView,
    held: RoomsCacheView,
    mutated: bool,
    now: Timestamp,
)
    requires
        work.datetime == now,
        faithful(work, ledger),
        grown(sync.cache, work),
        ledger.occupied(Seq::empty(), work.rooms_idx as int),
        ledger.readable(Seq::empty(), work.rooms_idx as int),
        held == work || exists|path: Seq<Id>, uuid: crate::service::message::Uuid|
            held == work.with_room(path, uuid),
    ensures
        ({
            let (next, step) = sync.next_root_slot(held, mutated);
            well_ended(sync, next, ledger, step, now)
        }),
{
    if work.rooms_idx < u32::MAX {
        let moved = RoomsCacheView { rooms_idx: (work.rooms_idx + 1) as u32, ..held };
        assert(held.rooms_idx == work.rooms_idx);
        assert(work.rooms.len() <= held.rooms.len());
        assert forall|r: int| 0 <= r < work.rooms.len() implies held.rooms[r] == work.rooms[r] by {}
        assert forall|r: int| 0 <= r < moved.rooms.len() implies room_faithful(
            #[trigger] moved.rooms[r],
            ledger,
        ) by {
            if r < work.rooms.len() {
                assert(room_faithful(work.rooms[r], ledger));
            } else {
                assert(moved.rooms[r].cursor == 0);
                assert(moved.rooms[r].messages =~= ledger.messages_in(moved.rooms[r].path, 0));
            }
        }
        assert forall|i: int| 0 <= i < moved.rooms_idx implies #[trigger] ledger.occupied(
            Seq::empty(),
            i,
        ) && ledger.readable(Seq::empty(), i) by {
            if i < work.rooms_idx {
                assert(ledger.occupied(Seq::empty(), i));
            }
        }
        assert(moved.wf()) by {
            assert forall|i: int, j: int| 0 <= i < j < moved.rooms.len() implies moved.rooms[i].path
                != moved.rooms[j].path by {
                if j < work.rooms.len() {
                    assert(work.rooms[i].path != work.rooms[j].path);
                } else {
                    assert(work.rooms[i].path != moved.rooms[j].path);
                }
            }
            assert forall|i: int| 0 <= i < moved.rooms.len() implies (#[trigger] moved.rooms[i]).messages.len()
                <= moved.rooms[i].cursor by {
                if i < work.rooms.len() {
                    assert(work.rooms[i].messages.len() <= work.rooms[i].cursor);
                }
            }
        }
        assert(grown(work, moved)) by {
            assert forall|r: int| 0 <= r < work.rooms.len() implies {
                &&& (#[trigger] moved.rooms[r]).path == work.rooms[r].path
                &&& moved.rooms[r].uuid == work.rooms[r].uuid
                &&& work.rooms[r].cursor <= moved.rooms[r].cursor
                &&& work.rooms[r].messages.is_prefix_of(moved.rooms[r].messages)
            } by {}
        }
        lemma_grown_onwards(sync.cache, work, moved);
    }
}

proof fn lemma_point(
    sync: RoomsSyncView,
    ledger: Ledger,
    work: RoomsCacheView,
    mutated: bool,
    shared: Seq<Seq<Id>>,
    at: int,
    index: u32,
    now: Timestamp,
)
    requires
        faithful(work, ledger),
        grown(sync.cache, work),
        0 <= at,
    ensures
        ({
            let (next, step) = sync.point(work, mutated, shared, at, index, now);
            well_ended(sync, next, ledger, step, now)
        }),
{
    if !(at < shared.len()) {
        let stamped = RoomsCacheView { datetime: now, ..work };
        assert forall|r: int| 0 <= r < stamped.rooms.len() implies room_faithful(
            #[trigger] stamped.rooms[r],
            ledger,
        ) by {
            assert(room_faithful(work.rooms[r], ledger));
        }
        assert(grown(sync.cache, stamped)) by {
            assert forall|r: int| 0 <= r < sync.cache.rooms.len() implies {
                &&& (#[trigger] stamped.rooms[r]).path == sync.cache.rooms[r].path
                &&& stamped.rooms[r].uuid == sync.cache.rooms[r].uuid
                &&& sync.cache.rooms[r].cursor <= stamped.rooms[r].cursor
                &&& sync.cache.rooms[r].messages.is_prefix_of(stamped.rooms[r].messages)
            } by {
                assert(work.rooms[r].path == sync.cache.rooms[r].path);
            }
        }
    }
}

/// One step of a pass on course ends well: with the pass on course again, or complete
/// with a cache that agrees with the model and is settled, or given up.
pub proof fn lemma_step_ends_well(
    sync: RoomsSyncView,
    ledger: Ledger,
    call: StoreCallView,
    now: Timestamp,
)
    requires
        on_course(sync, ledger, call, now),
    ensures
        ({
            let (answered, reply) = ledger.answer(call);
            let (next, step) = sync.resume(reply, now);
            well_ended(sync, next, answered, step, now)
        }),
{
    let (answered, reply) = ledger.answer(call);
    lemma_answer_keeps(ledger, call);
    match sync.pass {
        PassView::Idle => {},
        PassView::Running { work, mutated, stage } => {
            lemma_faithful_stays(work, ledger, answered);
            match stage {
                StageView::Receive => {
                    match reply {
                        StoreReplyView::Received { paths } => {
                            lemma_point(sync, answered, work, mutated, paths, 0, work.rooms_idx, now);
                        },
                        _ => {},
                    }
                },
                StageView::Point { shared, at, index } => {
                    match reply {
                        StoreReplyView::Created { path, occupied } => {
                            if !occupied {
                                lemma_point(
                                    sync,
                                    answered,
                                    work,
                                    true,
                                    shared,
                                    at + 1,
                                    work.rooms_idx,
                                    now,
                                );
                            } else if index < u32::MAX {
                                lemma_point(
                                    sync,
                                    answered,
                                    work,
                                    mutated,
                                    shared,
                                    at,
                                    (index + 1) as u32,
                                    now,
                                );
                            }
                        },
                        _ => {},
                    }
                },
                StageView::Rooms => {
                    assert(answered == ledger);
                    match reply {
                        StoreReplyView::Discovered { found, occupied } => {
                            if !occupied {
                                lemma_look_for_message(sync, ledger, work, mutated, 0, now);
                            } else {
                                match found {
                                    Some(path) => {},
                                    None => {
                                        lemma_next_root_slot(sync, ledger, work, work, mutated, now);
                                    },
                                }
                            }
                        },
                        _ => {},
                    }
                },
                StageView::Room { path } => {
                    assert(answered == ledger);
                    match reply {
                        StoreReplyView::Read { payload } => {
                            match payload {
                                Some(bytes) => {
                                    match crate::service::codec::uuid_from_json(bytes) {
                                        Some(id) => {
                                            lemma_next_root_slot(
                                                sync,
                                                ledger,
                                                work,
                                                work.with_room(
                                                    path,
                                                    crate::service::message::Uuid(id),
                                                ),
                                                mutated || !work.has(path), now);
                                        },
                                        None => {
                                            lemma_next_root_slot(sync, ledger, work, work, mutated, now);
                                        },
                                    }
                                },
                                None => {},
                            }
                        },
                        _ => {},
                    }
                },
                StageView::Messages { room } => {
                    assert(answered == ledger);
                    match reply {
                        StoreReplyView::Discovered { found, occupied } => {
                            if !occupied {
                                assert(settled_before(work, ledger, room + 1)) by {
                                    assert(room_settled(work.rooms[room], ledger));
                                }
                                lemma_look_for_message(sync, ledger, work, mutated, room + 1, now);
                            } else {
                                match found {
                                    Some(path) => {},
                                    None => {
                                        lemma_next_message_slot(
                                            sync,
                                            ledger,
                                            work,
                                            work,
                                            mutated,
                                            room, now);
                                    },
                                }
                            }
                        },
                        _ => {},
                    }
                },
                StageView::Message { room } => {
                    assert(answered == ledger);
                    match reply {
                        StoreReplyView::Read { payload } => {
                            match payload {
                                Some(bytes) => {
                                    match crate::service::message::Message::message_of(bytes) {
                                        Some(message) => {
                                            lemma_next_message_slot(
                                                sync,
                                                ledger,
                                                work,
                                                work.with_message(room, message),
                                                true,
                                                room, now);
                                        },
                                        None => {
                                            lemma_next_message_slot(
                                                sync,
                                                ledger,
                                                work,
                                                work,
                                                mutated,
                                                room, now);
                                        },
                                    }
                                },
                                None => {},
                            }
                        },
                        _ => {},
                    }
                },
            }
        },
    }
}

/// A run of a pass on course ends well, whatever the fuel, and the model at its end
/// holds all that it held before.
pub proof fn lemma_run_ends_well(
    sync: RoomsSyncView,
    ledger: Ledger,
    call: StoreCallView,
    now: Timestamp,
    fuel: nat,
)
    requires
        on_course(sync, ledger, call, now),
    ensures
        ({
            let (end, store, step) = run(sync, ledger, call, now, fuel);
            well_ended(sync, end, store, step, now) && ledger.within(store)
        }),
    decreases fuel,
{
    if fuel > 0 {
        let (answered, reply) = ledger.answer(call);
        let (next, step) = sync.resume(reply, now);
        lemma_step_ends_well(sync, ledger, call, now);
        lemma_answer_keeps(ledger, call);
        match step {
            SyncStepView::Call(asked) => {
                lemma_run_ends_well(next, answered, asked, now, (fuel - 1) as nat);
            },
            _ => {},
        }
    }
}

/// A cache that knows nothing agrees with every store.
pub proof fn lemma_empty_cache_is_faithful(ledger: Ledger)
    ensures
        faithful(RoomsCacheView::empty(), ledger),
{
}

/// A pass keeps the cache in agreement with the store, however it ends. A complete
/// pass leaves the cache settled as well, and grown out of the cache before the pass:
/// every room keeps its place and its earlier messages at the front, below its cursor
/// every slot is occupied, its messages are exactly those that these slots hold, in
/// the order of the slots, and the slot at the cursor is free. What it publishes are
/// the rooms of that cache, and the first pass to complete does publish. A pass given
/// up leaves the cache as it was.
pub proof fn lemma_pass_is_faithful(sync: RoomsSyncView, ledger: Ledger, now: Timestamp, fuel: nat)
    requires
        faithful(sync.cache, ledger),
    ensures
        ({
            let (end, store, step) = pass(sync, ledger, now, fuel);
            &&& ledger.within(store)
            &&& faithful(end.cache, store)
            &&& step is Finished ==> settled(end.cache, store) && grown(sync.cache, end.cache)
                && end.cache.datetime == now && end.init
            &&& step matches SyncStepView::Finished(Some(published)) ==> published
                == Rooms::snapshot_of(end.cache)
            &&& step matches SyncStepView::Finished(None) ==> sync.init
            &&& !(step is Finished) ==> end.cache == sync.cache
        }),
{
    let (started, call) = sync.start();
    assert(grown(sync.cache, sync.cache));
    lemma_run_ends_well(started, ledger, call, now, fuel);
    let (end, store, step) = pass(sync, ledger, now, fuel);
    if !(step is Finished) {
        lemma_faithful_stays(sync.cache, ledger, store);
    }
}

/// What was stored is what discovery enters: when a pass reads, for the slot at the
/// cursor of a room, a payload that holds `message`, the room has `message` behind its
/// earlier messages afterwards and its cursor one further.
pub proof fn lemma_read_enters_the_stored_message(
    sync: RoomsSyncView,
    payload: Seq<u8>,
    message: MessageView,
    now: Timestamp,
)
    requires
        sync.pass matches PassView::Running { work, mutated, stage } && (
        stage matches StageView::Message { room } && 0 <= room < work.rooms.len()
            && work.rooms[room].cursor < u32::MAX),
        crate::service::message::Message::message_of(payload) == Some(message),
    ensures
        ({
            let before = sync.pass->work.rooms[sync.pass->stage->Message_room];
            let (next, step) = sync.resume(StoreReplyView::Read { payload: Some(payload) }, now);
            let after = next.pass->work.rooms[sync.pass->stage->Message_room];
            &&& step is Call
            &&& next.pass is Running
            &&& next.pass->mutated
            &&& after.messages == before.messages.push(message)
            &&& after.cursor == before.cursor + 1
            &&& after.path == before.path
        }),
{
}

/// What a pass over a settled cache comes to: the model untouched, and either the fuel
/// spent or the pass complete with nothing to publish and `work` as the cache.
pub open spec fn silent(
    end: (RoomsSyncView, Ledger, SyncStepView),
    ledger: Ledger,
    work: RoomsCacheView,
) -> bool {
    &&& end.1 == ledger
    &&& match end.2 {
        SyncStepView::Call(call) => true,
        SyncStepView::Finished(rooms) => rooms is None && end.0.cache == work && end.0.init,
        SyncStepView::Aborted(error) => false,
    }
}

proof fn lemma_settled_rooms_are_silent(
    sync: RoomsSyncView,
    ledger: Ledger,
    work: RoomsCacheView,
    room: int,
    now: Timestamp,
    fuel: nat,
)
    requires
        sync.init,
        settled(work, ledger),
        0 <= room < work.rooms.len(),
    ensures
        ({
            let (waiting, step) = sync.look_for_message(work, false, room);
            let end = run(waiting, ledger, step->Call_0, now, fuel);
            &&& step is Call
            &&& silent(end, ledger, work)
            &&& fuel >= work.rooms.len() - room ==> end.2 is Finished
        }),
    decreases fuel,
{
    if fuel > 0 {
        let (waiting, step) = sync.look_for_message(work, false, room);
        assert(room_settled(work.rooms[room], ledger));
        if room + 1 < work.rooms.len() {
            lemma_settled_rooms_are_silent(waiting, ledger, work, room + 1, now, (fuel - 1) as nat);
            let (after, then) = waiting.look_for_message(work, false, room + 1);
            assert(sync.look_for_message(work, false, room + 1) == (after, then));
        }
    }
}

/// A pass that starts from a settled cache, after a pass has been completed, with
/// nothing shared since the instant of the cache, publishes nothing: it leaves the
/// store untouched and the cache as it was but for that instant. It is never given up,
/// and it is complete after one call for the inbox, one for the root and one for each
/// room.
pub proof fn lemma_settled_pass_is_silent(
    sync: RoomsSyncView,
    ledger: Ledger,
    now: Timestamp,
    fuel: nat,
)
    requires
        sync.init,
        settled(sync.cache, ledger),
        (ledger.inbox)(sync.cache.datetime).len() == 0,
    ensures
        ({
            let end = pass(sync, ledger, now, fuel);
            &&& silent(end, ledger, RoomsCacheView { datetime: now, ..sync.cache })
            &&& fuel >= sync.cache.rooms.len() + 2 ==> end.2 is Finished
        }),
{
    let (started, call) = sync.start();
    let work = RoomsCacheView { datetime: now, ..sync.cache };
    assert(settled(work, ledger)) by {
        assert forall|r: int| 0 <= r < work.rooms.len() implies room_settled(
            #[trigger] work.rooms[r],
            ledger,
        ) by {
            assert(room_settled(sync.cache.rooms[r], ledger));
        }
    }
    if fuel > 0 {
        let (answered, reply) = ledger.answer(call);
        let (looking, step) = started.resume(reply, now);
        assert(answered == ledger);
        assert(reply == StoreReplyView::Received { paths: (ledger.inbox)(sync.cache.datetime) });
        assert((looking, step) == started.look_for_room(work, false));
        let asked = step->Call_0;
        assert(pass(sync, ledger, now, fuel) == run(looking, ledger, asked, now, (fuel - 1) as nat));
        if fuel > 1 {
            let (answered2, reply2) = ledger.answer(asked);
            let (walking, step2) = looking.resume(reply2, now);
            assert(answered2 == ledger);
            assert(reply2 == StoreReplyView::Discovered { found: None, occupied: false });
            assert((walking, step2) == looking.look_for_message(work, false, 0));
            if work.rooms.len() > 0 {
                lemma_settled_rooms_are_silent(looking, ledger, work, 0, now, (fuel - 2) as nat);
                assert(run(looking, ledger, asked, now, (fuel - 1) as nat) == run(
                    walking,
                    ledger,
                    step2->Call_0,
                    now,
                    (fuel - 2) as nat,
                ));
            } else {
                assert(step2 is Finished);
                assert(run(looking, ledger, asked, now, (fuel - 1) as nat) == (
                    walking,
                    ledger,
                    step2,
                ));
            }
        }
    }
}

/// Passing twice over an unchanged store publishes nothing the second time: after a
/// complete pass, with nothing shared since the instant at which that pass looked at
/// the inbox, the next pass leaves the store and the cache as they are, but for the
/// instant of the cache, and has no rooms to publish.
pub proof fn lemma_second_pass_is_silent(
    sync: RoomsSyncView,
    ledger: Ledger,
    first: Timestamp,
    second: Timestamp,
    fuel: nat,
    more: nat,
)
    requires
        faithful(sync.cache, ledger),
        pass(sync, ledger, first, fuel).2 is Finished,
        (ledger.inbox)(first).len() == 0,
    ensures
        ({
            let (mid, store, done) = pass(sync, ledger, first, fuel);
            let (end, after, step) = pass(mid, store, second, more);
            &&& after == store
            &&& !(step is Aborted)
            &&& step matches SyncStepView::Finished(rooms) ==> rooms is None && end.cache == (
            RoomsCacheView { datetime: second, ..mid.cache })
            &&& more >= mid.cache.rooms.len() + 2 ==> step is Finished
        }),
{
    lemma_pass_is_faithful(sync, ledger, first, fuel);
    let (mid, store, done) = pass(sync, ledger, first, fuel);
    lemma_settled_pass_is_silent(mid, store, second, more);
}

} // verus!
