//! What a pass of the synchronizer makes of the rooms that others have shared: it
//! points at each from a free root slot, and its walk over the root slots then enters
//! the room like any other.

use crate::service::cache::{CachedRoomView, RoomsCacheView};
use crate::service::codec::uuid_from_json;
use crate::service::ledger::{lemma_answer_keeps, Ledger};
use crate::service::message::Uuid;
use crate::service::passes::{
    faithful,
    grown,
    lemma_step_ends_well,
    lemma_step_only_grows,
    on_course,
    pass,
    room_faithful,
    room_settled,
    run,
    settled,
    well_ended,
    working,
};
use crate::service::path::{Id, RecordPath};
use crate::service::rooms::Rooms;
use crate::service::store::{StoreCallView, StoreReplyView};
use crate::service::sync::{PassView, RoomsSyncView, StageView, SyncStepView};
use crate::service::time::Timestamp;
use vstd::prelude::*;

verus! {

/// The room that a root slot holds for a reader: the path that a look at the slot
/// finds, where the payload there reads as the id of a room.
pub open spec fn room_at(ledger: Ledger, index: int) -> Option<Seq<Id>> {
    if ledger.occupied(Seq::empty(), index) {
        match ledger.slots[(Seq::empty(), index)] {
            Some(path) => if ledger.payloads.dom().contains(path) && uuid_from_json(
                ledger.payloads[path],
            ) is Some {
                Some(path)
            } else {
                None
            },
            None => None,
        }
    } else {
        None
    }
}

/// A room is known to the model when the payload at its path reads as its id.
pub open spec fn room_known(room: CachedRoomView, ledger: Ledger) -> bool {
    ledger.payloads.dom().contains(room.path) && uuid_from_json(ledger.payloads[room.path])
        == Some(room.uuid.0)
}

/// A cache is acquainted with the model when all its rooms are known to the model and
/// it holds every room that a root slot below its count holds.
pub open spec fn acquainted(cache: RoomsCacheView, ledger: Ledger) -> bool {
    &&& forall|r: int| 0 <= r < cache.rooms.len() ==> room_known(#[trigger] cache.rooms[r], ledger)
    &&& forall|i: int|
        0 <= i < cache.rooms_idx ==> (#[trigger] room_at(ledger, i) matches Some(path)
            ==> cache.has(path))
}

/// The path under which a pointer at `target` is found below the root.
pub open spec fn pointer_path(target: Seq<Id>) -> Seq<Id> {
    Seq::empty().push(RecordPath::spec_last(target))
}

/// The root slot `slot` points at `target`, and every root slot from `from` up to it
/// is occupied.
pub open spec fn points_at(ledger: Ledger, target: Seq<Id>, from: int, slot: int) -> bool {
    &&& from <= slot
    &&& forall|i: int| from <= i <= slot ==> #[trigger] ledger.occupied(Seq::empty(), i)
    &&& ledger.slots[(Seq::empty(), slot)] == Some(pointer_path(target))
}

/// Some root slot at or behind `from` points at `target`, with no free slot before it.
pub open spec fn pointed(ledger: Ledger, target: Seq<Id>, from: int) -> bool {
    exists|slot: int| #[trigger] points_at(ledger, target, from, slot)
}

/// The first `upto` of the shared paths are pointed at.
pub open spec fn all_pointed(ledger: Ledger, shared: Seq<Seq<Id>>, from: int, upto: int) -> bool {
    forall|k: int| 0 <= k < upto ==> pointed(ledger, #[trigger] shared[k], from)
}

/// What holds, beyond being on course, of a pass under way that waits for the answer
/// to `call`: its cache is acquainted with the model, and the shared rooms that it has
/// dealt with are pointed at.
pub open spec fn on_track(
    sync: RoomsSyncView,
    ledger: Ledger,
    call: StoreCallView,
    now: Timestamp,
) -> bool {
    &&& on_course(sync, ledger, call, now)
    &&& sync.pass matches PassView::Running { work, mutated, stage }
    &&& acquainted(work, ledger)
    &&& {
        let shared = (ledger.inbox)(sync.cache.datetime);
        let from = sync.cache.rooms_idx as int;
        match stage {
            StageView::Receive => call == StoreCallView::Receive { since: sync.cache.datetime }
                && work.rooms_idx == sync.cache.rooms_idx,
            StageView::Point { shared: asked, at, index } => {
                &&& asked == shared
                &&& work.rooms_idx == sync.cache.rooms_idx
                &&& from <= index
                &&& forall|i: int| from <= i < index ==> #[trigger] ledger.occupied(Seq::empty(), i)
                &&& all_pointed(ledger, shared, from, at)
                &&& at > 0 ==> mutated
            },
            _ => all_pointed(ledger, shared, from, shared.len() as int) && (shared.len() > 0
                ==> mutated),
        }
    }
}

/// What holds at the end of a step of a pass on track.
pub open spec fn well_tracked(
    before: RoomsSyncView,
    after: RoomsSyncView,
    ledger: Ledger,
    step: SyncStepView,
    now: Timestamp,
) -> bool {
    match step {
        SyncStepView::Call(call) => on_track(after, ledger, call, now),
        SyncStepView::Finished(rooms) => {
            let shared = (ledger.inbox)(before.cache.datetime);
            &&& acquainted(after.cache, ledger)
            &&& all_pointed(ledger, shared, before.cache.rooms_idx as int, shared.len() as int)
            &&& shared.len() > 0 ==> rooms is Some
        },
        SyncStepView::Aborted(error) => true,
    }
}

proof fn lemma_pointed_stays(ledger: Ledger, later: Ledger, target: Seq<Id>, from: int)
    requires
        ledger.within(later),
        pointed(ledger, target, from),
    ensures
        pointed(later, target, from),
{
    let slot = choose|slot: int| #[trigger] points_at(ledger, target, from, slot);
    assert forall|i: int| from <= i <= slot implies #[trigger] later.occupied(Seq::empty(), i) by {
        assert(ledger.occupied(Seq::empty(), i));
    }
    assert(ledger.occupied(Seq::empty(), slot));
    assert(ledger.slots.dom().contains((Seq::<Id>::empty(), slot)));
    assert(points_at(later, target, from, slot));
}

proof fn lemma_all_pointed_stays(
    ledger: Ledger,
    later: Ledger,
    shared: Seq<Seq<Id>>,
    from: int,
    upto: int,
)
    requires
        ledger.within(later),
        all_pointed(ledger, shared, from, upto),
    ensures
        all_pointed(later, shared, from, upto),
{
    assert forall|k: int| 0 <= k < upto implies pointed(later, #[trigger] shared[k], from) by {
        lemma_pointed_stays(ledger, later, shared[k], from);
    }
}

proof fn lemma_acquainted_stays(cache: RoomsCacheView, ledger: Ledger, later: Ledger)
    requires
        faithful(cache, ledger),
        acquainted(cache, ledger),
        ledger.within(later),
    ensures
        acquainted(cache, later),
{
    assert forall|r: int| 0 <= r < cache.rooms.len() implies room_known(
        #[trigger] cache.rooms[r],
        later,
    ) by {
        assert(room_known(cache.rooms[r], ledger));
    }
    assert forall|i: int| 0 <= i < cache.rooms_idx implies (#[trigger] room_at(later, i) matches Some(
        path,
    ) ==> cache.has(path)) by {
        assert(ledger.occupied(Seq::empty(), i) && ledger.readable(Seq::empty(), i));
        assert(ledger.slots.dom().contains((Seq::<Id>::empty(), i)));
        assert(room_at(later, i) == room_at(ledger, i));
    }
}

/// A cache that has grown out of an acquainted one without new rooms, its count of the
/// root slots unmoved, is acquainted.
proof fn lemma_acquainted_in_place(before: RoomsCacheView, after: RoomsCacheView, ledger: Ledger)
    requires
        acquainted(before, ledger),
        grown(before, after),
        after.rooms.len() == before.rooms.len(),
        after.rooms_idx == before.rooms_idx,
    ensures
        acquainted(after, ledger),
{
    assert forall|r: int| 0 <= r < after.rooms.len() implies room_known(
        #[trigger] after.rooms[r],
        ledger,
    ) by {
        assert(room_known(before.rooms[r], ledger));
    }
    assert forall|i: int| 0 <= i < after.rooms_idx implies (#[trigger] room_at(ledger, i) matches Some(
        path,
    ) ==> after.has(path)) by {
        match room_at(ledger, i) {
            Some(path) => {
                assert(before.has(path));
                let r = choose|r: int|
                    0 <= r < before.rooms.len() && (#[trigger] before.rooms[r]).path == path;
                assert(after.rooms[r].path == path);
            },
            None => {},
        }
    }
}

/// A cache moved on by one root slot stays acquainted when it holds the room of the
/// slot passed, if the slot holds one.
proof fn lemma_acquainted_past_a_slot(
    before: RoomsCacheView,
    entered: Option<(Seq<Id>, Uuid)>,
    ledger: Ledger,
)
    requires
        acquainted(before, ledger),
        before.rooms_idx < u32::MAX,
        entered matches Some((path, uuid)) ==> ledger.payloads.dom().contains(path)
            && uuid_from_json(ledger.payloads[path]) == Some(uuid.0),
        room_at(ledger, before.rooms_idx as int) matches Some(path) ==> (entered matches Some(
            (held, uuid),
        ) && held == path),
    ensures
        ({
            let held = match entered {
                Some((path, uuid)) => before.with_room(path, uuid),
                None => before,
            };
            acquainted(RoomsCacheView { rooms_idx: (before.rooms_idx + 1) as u32, ..held }, ledger)
        }),
{
    let held = match entered {
        Some((path, uuid)) => before.with_room(path, uuid),
        None => before,
    };
    let after = RoomsCacheView { rooms_idx: (before.rooms_idx + 1) as u32, ..held };
    assert forall|r: int| 0 <= r < after.rooms.len() implies room_known(
        #[trigger] after.rooms[r],
        ledger,
    ) by {
        if r < before.rooms.len() {
            assert(after.rooms[r] == before.rooms[r]);
            assert(room_known(before.rooms[r], ledger));
        }
    }
    assert forall|i: int| 0 <= i < after.rooms_idx implies (#[trigger] room_at(ledger, i) matches Some(
        path,
    ) ==> after.has(path)) by {
        match room_at(ledger, i) {
            None => {},
            Some(path) => if i < before.rooms_idx {
                assert(before.has(path));
                let r = choose|r: int|
                    0 <= r < before.rooms.len() && (#[trigger] before.rooms[r]).path == path;
                assert(after.rooms[r].path == path);
            } else {
                if before.has(path) {
                    let r = choose|r: int|
                        0 <= r < before.rooms.len() && (#[trigger] before.rooms[r]).path == path;
                    assert(after.rooms[r].path == path);
                } else {
                    assert(after.rooms[before.rooms.len() as int].path == path);
                }
            },
        }
    }
}

/// One step of a pass on track ends well and on track.
pub proof fn lemma_step_stays_on_track(
    sync: RoomsSyncView,
    ledger: Ledger,
    call: StoreCallView,
    now: Timestamp,
)
    requires
        sync.cache.wf(),
        on_track(sync, ledger, call, now),
    ensures
        ({
            let (answered, reply) = ledger.answer(call);
            let (next, step) = sync.resume(reply, now);
            well_ended(sync, next, answered, step, now) && well_tracked(
                sync,
                next,
                answered,
                step,
                now,
            )
        }),
{
    let (answered, reply) = ledger.answer(call);
    let (next, step) = sync.resume(reply, now);
    lemma_step_ends_well(sync, ledger, call, now);
    lemma_answer_keeps(ledger, call);
    lemma_step_only_grows(sync, reply, now);
    let shared = (ledger.inbox)(sync.cache.datetime);
    let from = sync.cache.rooms_idx as int;
    match sync.pass {
        PassView::Idle => {},
        PassView::Running { work, mutated, stage } => {
            lemma_acquainted_stays(work, ledger, answered);
            let stamped = RoomsCacheView { datetime: now, ..work };
            lemma_acquainted_in_place(work, stamped, answered);
            match stage {
                StageView::Receive => {
                    assert(reply == StoreReplyView::Received { paths: shared });
                    assert(answered == ledger);
                },
                StageView::Point { shared: asked, at, index } => {
                    lemma_all_pointed_stays(ledger, answered, shared, from, at);
                    if !ledger.occupied(Seq::empty(), index as int) {
                        assert(answered == ledger.occupy(
                            Seq::empty(),
                            index as int,
                            pointer_path(shared[at]),
                        ));
                        assert forall|i: int| from <= i <= index implies #[trigger] answered.occupied(
                            Seq::empty(),
                            i,
                        ) by {
                            if i < index {
                                assert(ledger.occupied(Seq::empty(), i));
                            }
                        }
                        assert(points_at(answered, shared[at], from, index as int));
                        assert(all_pointed(answered, shared, from, at + 1));
                    } else {
                        assert(answered == ledger);
                        if index < u32::MAX {
                            assert forall|i: int| from <= i < index + 1 implies #[trigger] ledger.occupied(
                                Seq::empty(),
                                i,
                            ) by {}
                        }
                    }
                },
                _ => {
                    assert(answered == ledger);
                    if !(step is Aborted) {
                        let after = working(next);
                        match (stage, reply) {
                            (
                                StageView::Rooms,
                                StoreReplyView::Discovered { found: None, occupied: true },
                            ) => {
                                lemma_acquainted_past_a_slot(work, None, ledger);
                            },
                            (StageView::Room { path }, StoreReplyView::Read { payload: Some(bytes) }) => {
                                match uuid_from_json(bytes) {
                                    Some(id) => {
                                        lemma_acquainted_past_a_slot(
                                            work,
                                            Some((path, Uuid(id))),
                                            ledger,
                                        );
                                    },
                                    None => {
                                        lemma_acquainted_past_a_slot(work, None, ledger);
                                    },
                                }
                            },
                            _ => {
                                assert(after.rooms.len() == work.rooms.len());
                                assert(after.rooms_idx == work.rooms_idx);
                                lemma_acquainted_in_place(work, after, ledger);
                            },
                        }
                    }
                },
            }
        },
    }
}

/// A run of a pass on track ends well and on track, whatever the fuel.
pub proof fn lemma_run_stays_on_track(
    sync: RoomsSyncView,
    ledger: Ledger,
    call: StoreCallView,
    now: Timestamp,
    fuel: nat,
)
    requires
        sync.cache.wf(),
        on_track(sync, ledger, call, now),
    ensures
        ({
            let (end, store, step) = run(sync, ledger, call, now, fuel);
            &&& ledger.within(store)
            &&& well_ended(sync, end, store, step, now)
            &&& well_tracked(sync, end, store, step, now)
        }),
    decreases fuel,
{
    if fuel > 0 {
        let (answered, reply) = ledger.answer(call);
        let (next, step) = sync.resume(reply, now);
        lemma_step_stays_on_track(sync, ledger, call, now);
        lemma_answer_keeps(ledger, call);
        match step {
            SyncStepView::Call(asked) => {
                lemma_run_stays_on_track(next, answered, asked, now, (fuel - 1) as nat);
                let (end, store, last) = run(next, answered, asked, now, (fuel - 1) as nat);
                assert(answered.inbox == ledger.inbox);
            },
            _ => {},
        }
    }
}

/// A cache that knows nothing is acquainted with every store.
pub proof fn lemma_empty_cache_is_acquainted(ledger: Ledger)
    ensures
        acquainted(RoomsCacheView::empty(), ledger),
{
}

/// A pass keeps the cache acquainted with the store, however it ends: its rooms are
/// rooms of the store under their ids, and it holds every room that a root slot below
/// its count holds.
pub proof fn lemma_pass_stays_acquainted(
    sync: RoomsSyncView,
    ledger: Ledger,
    now: Timestamp,
    fuel: nat,
)
    requires
        faithful(sync.cache, ledger),
        acquainted(sync.cache, ledger),
    ensures
        ({
            let (end, store, step) = pass(sync, ledger, now, fuel);
            acquainted(end.cache, store)
        }),
{
    let (started, call) = sync.start();
    assert(grown(sync.cache, sync.cache));
    lemma_run_stays_on_track(started, ledger, call, now, fuel);
    let (end, store, step) = pass(sync, ledger, now, fuel);
    if !(step is Finished) {
        lemma_acquainted_stays(sync.cache, ledger, store);
    }
}

/// A shared room comes in like any other: when a pass is complete, every path that the
/// inbox gave it is pointed at from a root slot that the walk of this pass has passed,
/// under the id that the shared path ends in; the payload there can be read; and where
/// it reads as the id of a room, the cache holds a room at that path under that id,
/// with the messages that the slots below its cursor hold, in the order of the slots,
/// and nothing left to find. The pass publishes the rooms of its cache, this one among
/// them.
pub proof fn lemma_shared_room_is_entered(
    sync: RoomsSyncView,
    ledger: Ledger,
    now: Timestamp,
    fuel: nat,
    k: int,
)
    requires
        faithful(sync.cache, ledger),
        acquainted(sync.cache, ledger),
        pass(sync, ledger, now, fuel).2 is Finished,
        0 <= k < (ledger.inbox)(sync.cache.datetime).len(),
    ensures
        ({
            let (end, store, step) = pass(sync, ledger, now, fuel);
            let path = pointer_path((ledger.inbox)(sync.cache.datetime)[k]);
            &&& exists|slot: int|
                sync.cache.rooms_idx <= slot < end.cache.rooms_idx && #[trigger] store.occupied(
                    Seq::empty(),
                    slot,
                ) && store.slots[(Seq::empty(), slot)] == Some(path)
            &&& store.payloads.dom().contains(path)
            &&& uuid_from_json(store.payloads[path]) matches Some(id) ==> exists|r: int|
                0 <= r < end.cache.rooms.len() && (#[trigger] end.cache.rooms[r]).path == path
                    && end.cache.rooms[r].uuid == Uuid(id) && room_faithful(
                    end.cache.rooms[r],
                    store,
                ) && room_settled(end.cache.rooms[r], store)
            &&& step == SyncStepView::Finished(Some(Rooms::snapshot_of(end.cache)))
        }),
{
    let (started, call) = sync.start();
    assert(grown(sync.cache, sync.cache));
    lemma_run_stays_on_track(started, ledger, call, now, fuel);
    let (end, store, step) = pass(sync, ledger, now, fuel);
    let shared = (ledger.inbox)(sync.cache.datetime);
    let path = pointer_path(shared[k]);
    let from = sync.cache.rooms_idx as int;
    assert(store.inbox == ledger.inbox);
    assert(pointed(store, shared[k], from));
    let slot = choose|slot: int| #[trigger] points_at(store, shared[k], from, slot);
    assert(slot < end.cache.rooms_idx) by {
        if slot >= end.cache.rooms_idx {
            assert(store.occupied(Seq::empty(), end.cache.rooms_idx as int));
        }
    }
    assert(store.occupied(Seq::empty(), slot));
    assert(store.occupied(Seq::empty(), slot) && store.readable(Seq::empty(), slot));
    match uuid_from_json(store.payloads[path]) {
        Some(id) => {
            assert(room_at(store, slot) == Some(path));
            assert(end.cache.has(path));
            let r = choose|r: int|
                0 <= r < end.cache.rooms.len() && (#[trigger] end.cache.rooms[r]).path == path;
            assert(room_known(end.cache.rooms[r], store));
            assert(room_faithful(end.cache.rooms[r], store));
            assert(room_settled(end.cache.rooms[r], store));
        },
        None => {},
    }
}

} // verus!
