//! The request handler: it turns each request into calls for the store and claims one
//! free slot for the record that the request creates.
//!
//! A slot is claimed by trying to create the record in it. Where the store answers that
//! the slot was occupied, the next slot is tried; the first answer that it was free
//! ends the request.

use crate::service::cache::{RoomsCache, RoomsCacheView};
use crate::service::codec::{uuid_from_json, uuid_json, write_uuid};
use crate::service::message::{joined_text, Message, MessageView, Uuid};
use crate::service::name::OrangeName;
use crate::service::path::{Id, RecordPath};
use crate::service::store::{
    Permissions,
    Protocol,
    ServiceError,
    StoreCall,
    StoreCallView,
    StoreReply,
    StoreReplyView,
};
use crate::service::time::{now, Timestamp};
use vstd::prelude::*;

verus! {

/// The pause of the handler between two looks at its queue, in milliseconds.
pub const HANDLER_INTERVAL_MILLIS: u64 = 16;

/// What the application asks of the handler.
#[derive(Debug, PartialEq, Eq)]
pub enum RoomsRequest {
    /// Create a room that carries the given correlation id.
    CreateRoom(Uuid),
    /// Append the message to the room with the given id.
    CreateMessage(Id, Message),
    /// Let the named participant into the room with the given id.
    Share(Id, OrangeName),
}

/// A request as contracts speak of it.
pub enum RoomsRequestView {
    CreateRoom(Uuid),
    CreateMessage(Id, MessageView),
    Share(Id, Seq<char>),
}

impl View for RoomsRequest {
    type V = RoomsRequestView;

    open spec fn view(&self) -> RoomsRequestView {
        match *self {
            RoomsRequest::CreateRoom(uuid) => RoomsRequestView::CreateRoom(uuid),
            RoomsRequest::CreateMessage(room, message) => RoomsRequestView::CreateMessage(
                room,
                message@,
            ),
            RoomsRequest::Share(room, name) => RoomsRequestView::Share(room, name@),
        }
    }
}

/// The slot that a request claimed, and the path that the store gave the new record.
#[derive(Debug, PartialEq, Eq)]
pub struct Claim {
    pub path: RecordPath,
    pub index: u32,
}

/// A claim as contracts speak of it.
pub struct ClaimView {
    pub path: Seq<Id>,
    pub index: u32,
}

impl View for Claim {
    type V = ClaimView;

    open spec fn view(&self) -> ClaimView {
        ClaimView { path: self.path@, index: self.index }
    }
}

/// What the handler wants next: a call to be made, or nothing more.
#[derive(Debug, PartialEq, Eq)]
pub enum HandlerStep {
    /// Make this call and hand the answer to `resume`.
    Call(StoreCall),
    /// The request has ended: with the slot it claimed, or with the reason why not.
    Done(Result<Claim, ServiceError>),
}

/// A step as contracts speak of it.
pub enum HandlerStepView {
    Call(StoreCallView),
    Done(Result<ClaimView, ServiceError>),
}

impl View for HandlerStep {
    type V = HandlerStepView;

    open spec fn view(&self) -> HandlerStepView {
        match *self {
            HandlerStep::Call(call) => HandlerStepView::Call(call@),
            HandlerStep::Done(Ok(claim)) => HandlerStepView::Done(Ok(claim@)),
            HandlerStep::Done(Err(error)) => HandlerStepView::Done(Err(error)),
        }
    }
}

/// What the handler waits for.
#[derive(Debug, PartialEq, Eq)]
enum Pending {
    Idle,
    Share { room: RecordPath, message: Message },
    Claim { parent: RecordPath, protocol: Protocol, payload: Vec<u8>, index: u32 },
}

/// What the handler waits for, as contracts speak of it.
pub enum PendingView {
    /// No request is under way.
    Idle,
    /// The store was asked to share `room`; `message` is to be appended once it has.
    Share { room: Seq<Id>, message: MessageView },
    /// The store was asked to create a record with `payload` in slot `index` under
    /// `parent`.
    Claim { parent: Seq<Id>, protocol: Protocol, payload: Seq<u8>, index: u32 },
}

impl View for Pending {
    type V = PendingView;

    closed spec fn view(&self) -> PendingView {
        match *self {
            Pending::Idle => PendingView::Idle,
            Pending::Share { room, message } => PendingView::Share {
                room: room@,
                message: message@,
            },
            Pending::Claim { parent, protocol, payload, index } => PendingView::Claim {
                parent: parent@,
                protocol,
                payload: payload@,
                index,
            },
        }
    }
}

/// The request handler. It reads the cache for the slot to start from and keeps its own
/// count of the root slots; it saves nothing.
#[derive(Debug)]
pub struct RoomsService {
    cache: RoomsCache,
    pending: Pending,
}

/// The handler as contracts speak of it.
pub struct RoomsServiceView {
    pub cache: RoomsCacheView,
    pub pending: PendingView,
}

impl View for RoomsService {
    type V = RoomsServiceView;

    closed spec fn view(&self) -> RoomsServiceView {
        RoomsServiceView { cache: self.cache@, pending: self.pending@ }
    }
}

impl RoomsServiceView {
    /// The handler with no request under way.
    pub open spec fn idle(self) -> RoomsServiceView {
        RoomsServiceView { pending: PendingView::Idle, ..self }
    }

    /// The handler ending its request with `error`.
    pub open spec fn fail(self, error: ServiceError) -> (RoomsServiceView, HandlerStepView) {
        (self.idle(), HandlerStepView::Done(Err(error)))
    }

    /// The handler trying slot `index` under `parent`. Its count of the root slots
    /// follows the slot tried for a room.
    pub open spec fn attempt(
        self,
        parent: Seq<Id>,
        protocol: Protocol,
        payload: Seq<u8>,
        index: u32,
    ) -> (RoomsServiceView, HandlerStepView) {
        (
            RoomsServiceView {
                cache: if protocol == Protocol::Rooms {
                    RoomsCacheView { rooms_idx: index, ..self.cache }
                } else {
                    self.cache
                },
                pending: PendingView::Claim { parent, protocol, payload, index },
            },
            HandlerStepView::Call(
                StoreCallView::CreatePrivate {
                    parent,
                    protocol,
                    index,
                    permissions: Permissions::spec_of(protocol),
                    payload,
                },
            ),
        )
    }

    /// The handler starting to append `message` to the room at `room`: from the slot
    /// that the cache names for that room.
    pub open spec fn append(self, room: Seq<Id>, message: MessageView) -> (
        RoomsServiceView,
        HandlerStepView,
    ) {
        match self.cache.cursor_of(room) {
            None => self.fail(ServiceError::UnknownRoom),
            Some(cursor) => match Message::payload_of(message) {
                None => self.fail(ServiceError::Serialization),
                Some(payload) => self.attempt(room, Protocol::Messages, payload, cursor),
            },
        }
    }

    /// The handler taking up `request` at the instant `now`.
    pub open spec fn begin(self, request: RoomsRequestView, now: Timestamp) -> (
        RoomsServiceView,
        HandlerStepView,
    ) {
        if !(self.pending is Idle) {
            (self, HandlerStepView::Done(Err(ServiceError::Busy)))
        } else {
            match request {
                RoomsRequestView::CreateRoom(uuid) => self.attempt(
                    Seq::empty(),
                    Protocol::Rooms,
                    uuid_json(uuid.0),
                    self.cache.rooms_idx,
                ),
                RoomsRequestView::CreateMessage(room, message) => self.append(
                    Seq::empty().push(room),
                    message,
                ),
                RoomsRequestView::Share(room, name) => (
                    RoomsServiceView {
                        pending: PendingView::Share {
                            room: Seq::empty().push(room),
                            message: MessageView {
                                text: joined_text(),
                                at: now,
                                author: name,
                                read: true,
                            },
                        },
                        ..self
                    },
                    HandlerStepView::Call(
                        StoreCallView::Share {
                            recipient: name,
                            permissions: Permissions::spec_rooms(),
                            path: Seq::empty().push(room),
                        },
                    ),
                ),
            }
        }
    }

    /// The handler after a slot was claimed: a claimed root slot moves its count of the
    /// root slots to the slot behind it.
    pub open spec fn claimed(self, protocol: Protocol, index: u32) -> RoomsServiceView {
        RoomsServiceView {
            cache: if protocol == Protocol::Rooms && index < u32::MAX {
                RoomsCacheView { rooms_idx: (index + 1) as u32, ..self.cache }
            } else {
                self.cache
            },
            pending: PendingView::Idle,
        }
    }

    /// The handler taking the store's answer to the call it asked for.
    pub open spec fn resume(self, reply: StoreReplyView) -> (RoomsServiceView, HandlerStepView) {
        match self.pending {
            PendingView::Idle => self.fail(ServiceError::Unexpected),
            PendingView::Share { room, message } => match reply {
                StoreReplyView::Shared => self.idle().append(room, message),
                StoreReplyView::Failed => self.fail(ServiceError::Store),
                _ => self.fail(ServiceError::Unexpected),
            },
            PendingView::Claim { parent, protocol, payload, index } => match reply {
                StoreReplyView::Created { path, occupied } => if !occupied {
                    (
                        self.claimed(protocol, index),
                        HandlerStepView::Done(Ok(ClaimView { path, index })),
                    )
                } else if index == u32::MAX {
                    self.fail(ServiceError::Exhausted)
                } else {
                    self.attempt(parent, protocol, payload, (index + 1) as u32)
                },
                StoreReplyView::Failed => self.fail(ServiceError::Store),
                _ => self.fail(ServiceError::Unexpected),
            },
        }
    }
}

impl RoomsService {
    /// A handler that reads the given cache.
    pub fn new(cache: RoomsCache) -> (service: RoomsService)
        ensures
            service@ == (RoomsServiceView { cache: cache@, pending: PendingView::Idle }),
    {
        RoomsService { cache, pending: Pending::Idle }
    }

    /// The cache as the handler holds it.
    pub fn cache(&self) -> (cache: &RoomsCache)
        ensures
            cache@ == self@.cache,
    {
        &self.cache
    }

    /// Whether no request is under way.
    pub fn is_idle(&self) -> (b: bool)
        ensures
            b == (self@.pending is Idle),
    {
        match self.pending {
            Pending::Idle => true,
            _ => false,
        }
    }

    fn attempt(&mut self, parent: RecordPath, protocol: Protocol, payload: Vec<u8>, index: u32) -> (step:
        HandlerStep)
        ensures
            (final(self)@, step@) == old(self)@.attempt(parent@, protocol, payload@, index),
    {
        let call = StoreCall::CreatePrivate {
            parent: parent.clone(),
            protocol,
            index,
            permissions: Permissions::of(protocol),
            payload: payload.clone(),
        };
        if protocol == Protocol::Rooms {
            self.cache.rooms_idx = index;
        }
        self.pending = Pending::Claim { parent, protocol, payload, index };
        HandlerStep::Call(call)
    }

    fn append(&mut self, room: RecordPath, message: &Message) -> (step: HandlerStep)
        requires
            old(self)@.pending is Idle,
        ensures
            (final(self)@, step@) == old(self)@.append(room@, message@),
            step@ matches HandlerStepView::Call(StoreCallView::CreatePrivate { payload, .. })
                ==> Message::message_of(payload) == Some(message@),
    {
        match self.cache.cursor_of(&room) {
            None => HandlerStep::Done(Err(ServiceError::UnknownRoom)),
            Some(cursor) => match message.encode() {
                None => HandlerStep::Done(Err(ServiceError::Serialization)),
                Some(payload) => self.attempt(room, Protocol::Messages, payload, cursor),
            },
        }
    }

    /// Takes up `request` as of the instant `now` and says what to ask the store.
    ///
    /// A room is claimed from the handler's count of the root slots, a message from the
    /// slot that the cache names for its room; sharing asks the store to let the
    /// participant in and appends the joining message afterwards. A message whose
    /// author is a name is stored under a payload that holds this same message.
    pub fn begin_at(&mut self, request: RoomsRequest, now: Timestamp) -> (step: HandlerStep)
        ensures
            (final(self)@, step@) == old(self)@.begin(request@, now),
            request@ matches RoomsRequestView::CreateMessage(_, message) ==> (
            step@ matches HandlerStepView::Call(StoreCallView::CreatePrivate { payload, .. })
                ==> Message::message_of(payload) == Some(message)),
            request@ matches RoomsRequestView::CreateRoom(uuid) ==> (step@ matches HandlerStepView::Call(
                StoreCallView::CreatePrivate { payload, .. },
            ) ==> uuid_from_json(payload) == Some(uuid.0)),
    {
        if !self.is_idle() {
            return HandlerStep::Done(Err(ServiceError::Busy));
        }
        match request {
            RoomsRequest::CreateRoom(uuid) => {
                let index = self.cache.rooms_idx;
                self.attempt(RecordPath::root(), Protocol::Rooms, write_uuid(uuid.0), index)
            },
            RoomsRequest::CreateMessage(room, message) => {
                self.append(RecordPath::root().join(room), &message)
            },
            RoomsRequest::Share(room, name) => {
                let path = RecordPath::root().join(room);
                let call = StoreCall::Share {
                    recipient: name.clone(),
                    permissions: Permissions::rooms(),
                    path: path.clone(),
                };
                self.pending = Pending::Share { room: path, message: Message::joined(name, now) };
                HandlerStep::Call(call)
            },
        }
    }

    /// Takes up `request` now. The instant enters only the joining message of a share;
    /// the payload of a message or of a room reads back as what was asked to be stored.
    pub fn begin(&mut self, request: RoomsRequest) -> (step: HandlerStep)
        ensures
            exists|at: Timestamp|
                at.secs >= 0 && at.nanos < 1_000_000_000 && (final(self)@, step@) == old(
                    self,
                )@.begin(request@, at),
            request@ matches RoomsRequestView::CreateMessage(_, message) ==> (
            step@ matches HandlerStepView::Call(StoreCallView::CreatePrivate { payload, .. })
                ==> Message::message_of(payload) == Some(message)),
            request@ matches RoomsRequestView::CreateRoom(uuid) ==> (step@ matches HandlerStepView::Call(
                StoreCallView::CreatePrivate { payload, .. },
            ) ==> uuid_from_json(payload) == Some(uuid.0)),
    {
        let at = now();
        self.begin_at(request, at)
    }

    /// Takes the store's answer to the call asked for and says what comes next.
    ///
    /// An occupied slot leads to the slot behind it; the free slot ends the request
    /// with the claim, and a claimed root slot leaves the handler's count of the root
    /// slots one behind it. A failure of the store ends the request with the error.
    pub fn resume(&mut self, reply: StoreReply) -> (step: HandlerStep)
        ensures
            (final(self)@, step@) == old(self)@.resume(reply@),
    {
        let mut pending = Pending::Idle;
        core::mem::swap(&mut self.pending, &mut pending);
        match pending {
            Pending::Idle => HandlerStep::Done(Err(ServiceError::Unexpected)),
            Pending::Share { room, message } => match reply {
                StoreReply::Shared => self.append(room, &message),
                StoreReply::Failed => HandlerStep::Done(Err(ServiceError::Store)),
                _ => HandlerStep::Done(Err(ServiceError::Unexpected)),
            },
            Pending::Claim { parent, protocol, payload, index } => match reply {
                StoreReply::Created { path, occupied } => {
                    if !occupied {
                        if protocol == Protocol::Rooms && index < u32::MAX {
                            self.cache.rooms_idx = index + 1;
                        }
                        HandlerStep::Done(Ok(Claim { path, index }))
                    } else if index == u32::MAX {
                        HandlerStep::Done(Err(ServiceError::Exhausted))
                    } else {
                        self.attempt(parent, protocol, payload, index + 1)
                    }
                },
                StoreReply::Failed => HandlerStep::Done(Err(ServiceError::Store)),
                _ => HandlerStep::Done(Err(ServiceError::Unexpected)),
            },
        }
    }
}

} // verus!
