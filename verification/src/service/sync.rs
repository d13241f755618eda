//! The synchronizer: pass by pass it brings the cache up to what the store holds and
//! publishes the rooms when something has changed.
//!
//! A pass takes in the rooms that others have shared, by pointing at each from a free
//! root slot; walks the root slots from where the last pass stopped and enters every
//! room found; walks the message slots of every room in the same way; and stops each
//! walk at the first empty slot. A pass that the store fails leaves the cache as it
//! was.

use crate::service::cache::{RoomsCache, RoomsCacheView};
use crate::service::codec::{read_uuid, uuid_from_json};
use crate::service::message::{Message, Uuid};
use crate::service::path::{path_views, Id, RecordPath};
use crate::service::rooms::{RoomView, Rooms};
use crate::service::store::{
    Protocol,
    ServiceError,
    StoreCall,
    StoreCallView,
    StoreReply,
    StoreReplyView,
};
use crate::service::time::{now, Timestamp};
use vstd::prelude::*;

verus! {

/// The pause of the synchronizer between two passes, in milliseconds.
pub const PASS_INTERVAL_MILLIS: u64 = 1000;

/// What the synchronizer wants next.
#[derive(Debug, PartialEq, Eq)]
pub enum SyncStep {
    /// Make this call and hand the answer to `resume`.
    Call(StoreCall),
    /// The pass is complete. The rooms are to be published where some are given, and
    /// the cache is to be saved in either case.
    Finished(Option<Rooms>),
    /// The pass was given up and the cache is as before the pass.
    Aborted(ServiceError),
}

/// A step as contracts speak of it.
pub enum SyncStepView {
    Call(StoreCallView),
    Finished(Option<Seq<(Uuid, RoomView)>>),
    Aborted(ServiceError),
}

impl View for SyncStep {
    type V = SyncStepView;

    open spec fn view(&self) -> SyncStepView {
        match *self {
            SyncStep::Call(call) => SyncStepView::Call(call@),
            SyncStep::Finished(Some(rooms)) => SyncStepView::Finished(Some(rooms@)),
            SyncStep::Finished(None) => SyncStepView::Finished(None),
            SyncStep::Aborted(error) => SyncStepView::Aborted(error),
        }
    }
}

/// Where a pass stands: the call whose answer it waits for.
#[derive(Debug)]
enum Stage {
    Receive,
    Point { shared: Vec<RecordPath>, at: usize, index: u32 },
    Rooms,
    Room { path: RecordPath },
    Messages { room: usize },
    Message { room: usize },
}

/// Where a pass stands, as contracts speak of it.
pub enum StageView {
    /// The inbox was asked for the rooms shared since the last pass.
    Receive,
    /// A pointer at `shared[at]` is being created in root slot `index`.
    Point { shared: Seq<Seq<Id>>, at: int, index: u32 },
    /// The next root slot is being looked at.
    Rooms,
    /// The payload of the room found at `path` is being read.
    Room { path: Seq<Id> },
    /// The next message slot of the room at position `room` is being looked at.
    Messages { room: int },
    /// The payload of a message found in the room at position `room` is being read.
    Message { room: int },
}

impl View for Stage {
    type V = StageView;

    closed spec fn view(&self) -> StageView {
        match *self {
            Stage::Receive => StageView::Receive,
            Stage::Point { shared, at, index } => StageView::Point {
                shared: path_views(shared@),
                at: at as int,
                index,
            },
            Stage::Rooms => StageView::Rooms,
            Stage::Room { path } => StageView::Room { path: path@ },
            Stage::Messages { room } => StageView::Messages { room: room as int },
            Stage::Message { room } => StageView::Message { room: room as int },
        }
    }
}

#[derive(Debug)]
enum Pass {
    Idle,
    Running { work: RoomsCache, mutated: bool, stage: Stage },
}

/// The pass under way, as contracts speak of it.
pub enum PassView {
    /// No pass is under way.
    Idle,
    /// A pass is under way: `work` is the cache as the pass has it so far, and
    /// `mutated` says whether the pass has entered anything yet.
    Running { work: RoomsCacheView, mutated: bool, stage: StageView },
}

impl View for Pass {
    type V = PassView;

    closed spec fn view(&self) -> PassView {
        match *self {
            Pass::Idle => PassView::Idle,
            Pass::Running { work, mutated, stage } => PassView::Running {
                work: work@,
                mutated,
                stage: stage@,
            },
        }
    }
}

/// The synchronizer. It owns the cache and is the only one to change it.
#[derive(Debug)]
pub struct RoomsSync {
    cache: RoomsCache,
    init: bool,
    pass: Pass,
}

/// The synchronizer as contracts speak of it: the cache as the last complete pass left
/// it, whether a pass has been completed since the start, and the pass under way.
pub struct RoomsSyncView {
    pub cache: RoomsCacheView,
    pub init: bool,
    pub pass: PassView,
}

impl View for RoomsSync {
    type V = RoomsSyncView;

    closed spec fn view(&self) -> RoomsSyncView {
        RoomsSyncView { cache: self.cache@, init: self.init, pass: self.pass@ }
    }
}

impl RoomsSyncView {
    /// The synchronizer waiting in `stage` for the answer to `call`.
    pub open spec fn wait(
        self,
        work: RoomsCacheView,
        mutated: bool,
        stage: StageView,
        call: StoreCallView,
    ) -> (RoomsSyncView, SyncStepView) {
        (
            RoomsSyncView { pass: PassView::Running { work, mutated, stage }, ..self },
            SyncStepView::Call(call),
        )
    }

    /// The synchronizer giving the pass up: the cache stays as the last complete pass
    /// left it.
    pub open spec fn abort(self, error: ServiceError) -> (RoomsSyncView, SyncStepView) {
        (RoomsSyncView { pass: PassView::Idle, ..self }, SyncStepView::Aborted(error))
    }

    /// The synchronizer completing the pass: `work` becomes the cache, and the rooms
    /// are published if the pass entered anything or is the first to complete.
    pub open spec fn finish(self, work: RoomsCacheView, mutated: bool) -> (
        RoomsSyncView,
        SyncStepView,
    ) {
        (
            RoomsSyncView { cache: work, init: true, pass: PassView::Idle },
            SyncStepView::Finished(
                if mutated || !self.init {
                    Some(Rooms::snapshot_of(work))
                } else {
                    None
                },
            ),
        )
    }

    /// The synchronizer pointing at the shared room `shared[at]` from root slot
    /// `index`; with no shared room left, stamping the cache with `now` and turning to
    /// the root slots.
    pub open spec fn point(
        self,
        work: RoomsCacheView,
        mutated: bool,
        shared: Seq<Seq<Id>>,
        at: int,
        index: u32,
        now: Timestamp,
    ) -> (RoomsSyncView, SyncStepView) {
        if 0 <= at < shared.len() {
            self.wait(
                work,
                mutated,
                StageView::Point { shared, at, index },
                StoreCallView::CreatePointer { parent: Seq::empty(), target: shared[at], index },
            )
        } else {
            self.look_for_room(RoomsCacheView { datetime: now, ..work }, mutated)
        }
    }

    /// The synchronizer looking at the root slot that the cache names.
    pub open spec fn look_for_room(self, work: RoomsCacheView, mutated: bool) -> (
        RoomsSyncView,
        SyncStepView,
    ) {
        self.wait(
            work,
            mutated,
            StageView::Rooms,
            StoreCallView::Discover {
                parent: Seq::empty(),
                index: work.rooms_idx,
                protocol: Protocol::Rooms,
            },
        )
    }

    /// The synchronizer moving on to the root slot behind the one looked at.
    pub open spec fn next_root_slot(self, work: RoomsCacheView, mutated: bool) -> (
        RoomsSyncView,
        SyncStepView,
    ) {
        if work.rooms_idx == u32::MAX {
            self.abort(ServiceError::Exhausted)
        } else {
            self.look_for_room(
                RoomsCacheView { rooms_idx: (work.rooms_idx + 1) as u32, ..work },
                mutated,
            )
        }
    }

    /// The synchronizer looking at the message slot that the room at position `room`
    /// names; with no room left, completing the pass.
    pub open spec fn look_for_message(self, work: RoomsCacheView, mutated: bool, room: int) -> (
        RoomsSyncView,
        SyncStepView,
    ) {
        if 0 <= room < work.rooms.len() {
            self.wait(
                work,
                mutated,
                StageView::Messages { room },
                StoreCallView::Discover {
                    parent: work.rooms[room].path,
                    index: work.rooms[room].cursor,
                    protocol: Protocol::Messages,
                },
            )
        } else {
            self.finish(work, mutated)
        }
    }

    /// The synchronizer moving on to the message slot behind the one looked at.
    pub open spec fn next_message_slot(self, work: RoomsCacheView, mutated: bool, room: int) -> (
        RoomsSyncView,
        SyncStepView,
    ) {
        if !(0 <= room < work.rooms.len()) {
            self.abort(ServiceError::Unexpected)
        } else if work.rooms[room].cursor == u32::MAX {
            self.abort(ServiceError::Exhausted)
        } else {
            self.look_for_message(
                work.with_cursor(room, (work.rooms[room].cursor + 1) as u32),
                mutated,
                room,
            )
        }
    }

    /// The synchronizer starting a pass: from the cache as the last complete pass left
    /// it, with the inbox asked for what was shared since that pass.
    pub open spec fn start(self) -> (RoomsSyncView, StoreCallView) {
        (
            RoomsSyncView {
                pass: PassView::Running {
                    work: self.cache,
                    mutated: false,
                    stage: StageView::Receive,
                },
                ..self
            },
            StoreCallView::Receive { since: self.cache.datetime },
        )
    }

    /// The synchronizer taking the store's answer to the call it asked for, at the
    /// instant `now`.
    pub open spec fn resume(self, reply: StoreReplyView, now: Timestamp) -> (
        RoomsSyncView,
        SyncStepView,
    ) {
        match self.pass {
            PassView::Idle => self.abort(ServiceError::Unexpected),
            PassView::Running { work, mutated, stage } => match (stage, reply) {
                (_, StoreReplyView::Failed) => self.abort(ServiceError::Store),
                (StageView::Receive, StoreReplyView::Received { paths }) => self.point(
                    work,
                    mutated,
                    paths,
                    0,
                    work.rooms_idx,
                    now,
                ),
                (
                    StageView::Point { shared, at, index },
                    StoreReplyView::Created { path, occupied },
                ) => if !occupied {
                    self.point(work, true, shared, at + 1, work.rooms_idx, now)
                } else if index == u32::MAX {
                    self.abort(ServiceError::Exhausted)
                } else {
                    self.point(work, mutated, shared, at, (index + 1) as u32, now)
                },
                (StageView::Rooms, StoreReplyView::Discovered { found, occupied }) => if !occupied {
                    self.look_for_message(work, mutated, 0)
                } else {
                    match found {
                        Some(path) => self.wait(
                            work,
                            mutated,
                            StageView::Room { path },
                            StoreCallView::ReadPrivate { path },
                        ),
                        None => self.next_root_slot(work, mutated),
                    }
                },
                (StageView::Room { path }, StoreReplyView::Read { payload }) => match payload {
                    None => self.abort(ServiceError::MissingRecord),
                    Some(bytes) => match uuid_from_json(bytes) {
                        Some(id) => self.next_root_slot(
                            work.with_room(path, Uuid(id)),
                            mutated || !work.has(path),
                        ),
                        None => self.next_root_slot(work, mutated),
                    },
                },
                (StageView::Messages { room }, StoreReplyView::Discovered { found, occupied }) => {
                    if !occupied {
                        self.look_for_message(work, mutated, room + 1)
                    } else {
                        match found {
                            Some(path) => self.wait(
                                work,
                                mutated,
                                StageView::Message { room },
                                StoreCallView::ReadPrivate { path },
                            ),
                            None => self.next_message_slot(work, mutated, room),
                        }
                    }
                },
                (StageView::Message { room }, StoreReplyView::Read { payload }) => match payload {
                    None => self.abort(ServiceError::MissingRecord),
                    Some(bytes) => if !(0 <= room < work.rooms.len()) {
                        self.abort(ServiceError::Unexpected)
                    } else {
                        match Message::message_of(bytes) {
                            Some(message) => self.next_message_slot(
                                work.with_message(room, message),
                                true,
                                room,
                            ),
                            None => self.next_message_slot(work, mutated, room),
                        }
                    },
                },
                _ => self.abort(ServiceError::Unexpected),
            },
        }
    }
}

impl RoomsSync {
    /// A synchronizer that owns the given cache and has completed no pass yet.
    pub fn new(cache: RoomsCache) -> (sync: RoomsSync)
        ensures
            sync@ == (RoomsSyncView { cache: cache@, init: false, pass: PassView::Idle }),
    {
        RoomsSync { cache, init: false, pass: Pass::Idle }
    }

    /// The cache as the last complete pass left it: what is to be saved.
    pub fn cache(&self) -> (cache: &RoomsCache)
        ensures
            cache@ == self@.cache,
    {
        &self.cache
    }

    fn wait(&mut self, work: RoomsCache, mutated: bool, stage: Stage, call: StoreCall) -> (step:
        SyncStep)
        ensures
            (final(self)@, step@) == old(self)@.wait(work@, mutated, stage@, call@),
    {
        self.pass = Pass::Running { work, mutated, stage };
        SyncStep::Call(call)
    }

    fn finish(&mut self, work: RoomsCache, mutated: bool) -> (step: SyncStep)
        requires
            old(self)@.pass is Idle,
        ensures
            (final(self)@, step@) == old(self)@.finish(work@, mutated),
    {
        let publish = if mutated || !self.init {
            Some(Rooms::snapshot(&work))
        } else {
            None
        };
        self.cache = work;
        self.init = true;
        SyncStep::Finished(publish)
    }

    fn look_for_room(&mut self, work: RoomsCache, mutated: bool) -> (step: SyncStep)
        ensures
            (final(self)@, step@) == old(self)@.look_for_room(work@, mutated),
    {
        let call = StoreCall::Discover {
            parent: RecordPath::root(),
            index: work.rooms_idx,
            protocol: Protocol::Rooms,
        };
        self.wait(work, mutated, Stage::Rooms, call)
    }

    fn next_root_slot(&mut self, work: RoomsCache, mutated: bool) -> (step: SyncStep)
        requires
            old(self)@.pass is Idle,
        ensures
            (final(self)@, step@) == old(self)@.next_root_slot(work@, mutated),
    {
        let mut work = work;
        if work.rooms_idx == u32::MAX {
            SyncStep::Aborted(ServiceError::Exhausted)
        } else {
            work.rooms_idx = work.rooms_idx + 1;
            self.look_for_room(work, mutated)
        }
    }

    fn point(
        &mut self,
        work: RoomsCache,
        mutated: bool,
        shared: Vec<RecordPath>,
        at: usize,
        index: u32,
        now: Timestamp,
    ) -> (step: SyncStep)
        ensures
            (final(self)@, step@) == old(self)@.point(
                work@,
                mutated,
                path_views(shared@),
                at as int,
                index,
                now,
            ),
    {
        let mut work = work;
        if at < shared.len() {
            let call = StoreCall::CreatePointer {
                parent: RecordPath::root(),
                target: shared[at].clone(),
                index,
            };
            self.wait(work, mutated, Stage::Point { shared, at, index }, call)
        } else {
            work.datetime = now;
            self.look_for_room(work, mutated)
        }
    }

    fn look_for_message(&mut self, work: RoomsCache, mutated: bool, room: usize) -> (step:
        SyncStep)
        requires
            old(self)@.pass is Idle,
        ensures
            (final(self)@, step@) == old(self)@.look_for_message(work@, mutated, room as int),
    {
        if room < work.rooms.len() {
            let call = StoreCall::Discover {
                parent: work.rooms[room].path.clone(),
                index: work.rooms[room].cursor,
                protocol: Protocol::Messages,
            };
            assert(work@.rooms[room as int] == work.rooms@[room as int]@);
            self.wait(work, mutated, Stage::Messages { room }, call)
        } else {
            self.finish(work, mutated)
        }
    }

    fn next_message_slot(&mut self, work: RoomsCache, mutated: bool, room: usize) -> (step:
        SyncStep)
        requires
            old(self)@.pass is Idle,
        ensures
            (final(self)@, step@) == old(self)@.next_message_slot(work@, mutated, room as int),
    {
        let mut work = work;
        if room >= work.rooms.len() {
            SyncStep::Aborted(ServiceError::Unexpected)
        } else {
            let cursor = work.rooms[room].cursor;
            assert(work@.rooms[room as int] == work.rooms@[room as int]@);
            if cursor == u32::MAX {
                SyncStep::Aborted(ServiceError::Exhausted)
            } else {
                work.set_cursor(room, cursor + 1);
                self.look_for_message(work, mutated, room)
            }
        }
    }

    /// Starts a pass and says what to ask the store first. A pass that was under way
    /// is given up.
    pub fn start(&mut self) -> (call: StoreCall)
        ensures
            (final(self)@, call@) == old(self)@.start(),
    {
        let work = self.cache.clone();
        self.pass = Pass::Running { work, mutated: false, stage: Stage::Receive };
        StoreCall::Receive { since: self.cache.datetime }
    }

    /// Takes the store's answer to the call asked for, as of the instant `now`, and
    /// says what comes next.
    pub fn resume_at(&mut self, reply: StoreReply, now: Timestamp) -> (step: SyncStep)
        ensures
            (final(self)@, step@) == old(self)@.resume(reply@, now),
    {
        let mut pass = Pass::Idle;
        core::mem::swap(&mut self.pass, &mut pass);
        match pass {
            Pass::Idle => SyncStep::Aborted(ServiceError::Unexpected),
            Pass::Running { work, mutated, stage } => {
                let mut work = work;
                match (stage, reply) {
                    (_, StoreReply::Failed) => SyncStep::Aborted(ServiceError::Store),
                    (Stage::Receive, StoreReply::Received { paths }) => {
                        let index = work.rooms_idx;
                        self.point(work, mutated, paths, 0, index, now)
                    },
                    (Stage::Point { shared, at, index }, StoreReply::Created { path, occupied }) => {
                        if !occupied {
                            let first = work.rooms_idx;
                            if at == usize::MAX {
                                assert(path_views(shared@).len() == shared.len());
                                work.datetime = now;
                                self.look_for_room(work, true)
                            } else {
                                self.point(work, true, shared, at + 1, first, now)
                            }
                        } else if index == u32::MAX {
                            SyncStep::Aborted(ServiceError::Exhausted)
                        } else {
                            self.point(work, mutated, shared, at, index + 1, now)
                        }
                    },
                    (Stage::Rooms, StoreReply::Discovered { found, occupied }) => {
                        if !occupied {
                            self.look_for_message(work, mutated, 0)
                        } else {
                            match found {
                                Some(path) => {
                                    let call = StoreCall::ReadPrivate { path: path.clone() };
                                    self.wait(work, mutated, Stage::Room { path }, call)
                                },
                                None => self.next_root_slot(work, mutated),
                            }
                        }
                    },
                    (Stage::Room { path }, StoreReply::Read { payload }) => match payload {
                        None => SyncStep::Aborted(ServiceError::MissingRecord),
                        Some(bytes) => match read_uuid(&bytes) {
                            Some(id) => {
                                let inserted = work.insert_room(path, Uuid(id));
                                self.next_root_slot(work, mutated || inserted)
                            },
                            None => self.next_root_slot(work, mutated),
                        },
                    },
                    (Stage::Messages { room }, StoreReply::Discovered { found, occupied }) => {
                        if !occupied {
                            if room == usize::MAX {
                                assert(work@.rooms.len() == work.rooms.len());
                                self.finish(work, mutated)
                            } else {
                                self.look_for_message(work, mutated, room + 1)
                            }
                        } else {
                            match found {
                                Some(path) => {
                                    let call = StoreCall::ReadPrivate { path: path.clone() };
                                    self.wait(work, mutated, Stage::Message { room }, call)
                                },
                                None => self.next_message_slot(work, mutated, room),
                            }
                        }
                    },
                    (Stage::Message { room }, StoreReply::Read { payload }) => match payload {
                        None => SyncStep::Aborted(ServiceError::MissingRecord),
                        Some(bytes) => {
                            if room >= work.rooms.len() {
                                SyncStep::Aborted(ServiceError::Unexpected)
                            } else {
                                match Message::decode(&bytes) {
                                    Some(message) => {
                                        work.push_message(room, message);
                                        self.next_message_slot(work, true, room)
                                    },
                                    None => self.next_message_slot(work, mutated, room),
                                }
                            }
                        },
                    },
                    _ => SyncStep::Aborted(ServiceError::Unexpected),
                }
            },
        }
    }

    /// Takes the store's answer to the call asked for and says what comes next. The
    /// instant of the call enters the cache as the time of the last look at the inbox.
    pub fn resume(&mut self, reply: StoreReply) -> (step: SyncStep)
        ensures
            exists|at: Timestamp|
                at.secs >= 0 && at.nanos < 1_000_000_000 && (final(self)@, step@) == old(
                    self,
                )@.resume(reply@, at),
    {
        let at = now();
        self.resume_at(reply, at)
    }
}

} // verus!
