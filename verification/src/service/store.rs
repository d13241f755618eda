//! The calls that the engine asks of the record store, and the store's answers.
//!
//! The store is append-only. Under every path its records sit in numbered slots; a
//! slot is claimed by whoever first creates a record in it and is never given up.

use crate::service::name::OrangeName;
use crate::service::path::{path_views, Id, RecordPath};
use crate::service::time::Timestamp;
use vstd::prelude::*;

verus! {

/// The kind of a record: a room under the root, or a message under a room.
#[derive(Clone, Copy, Debug, PartialEq, Eq, Structural, Hash)]
pub enum Protocol {
    Rooms,
    Messages,
}

/// What a kind of record lets lie under its records.
#[derive(Debug, PartialEq, Eq)]
pub struct ChildrenValidation {
    /// The kinds of the records that may lie there.
    pub children: Vec<Protocol>,
    /// Whether whoever holds the record may discover all that lies there.
    pub anyone_discover: bool,
    /// Whether whoever holds the record may read all that lies there.
    pub anyone_read: bool,
    /// Whether pointers may lie there.
    pub allow_pointers: bool,
}

impl Protocol {
    /// The name of the kind. The store knows a kind by the hash of its name.
    pub fn name(self) -> (name: &'static str)
        ensures
            name@ == match self {
                Protocol::Rooms => "RoomsV1"@,
                Protocol::Messages => "MessagesV1"@,
            },
    {
        match self {
            Protocol::Rooms => "RoomsV1",
            Protocol::Messages => "MessagesV1",
        }
    }

    /// What may lie under a record of the kind: under a room messages, which whoever
    /// holds the room may discover and read, and no pointers; under a message nothing.
    pub fn children(self) -> (under: Option<ChildrenValidation>)
        ensures
            match self {
                Protocol::Rooms => under matches Some(v) && v.children@ == seq![Protocol::Messages]
                    && v.anyone_discover && v.anyone_read && !v.allow_pointers,
                Protocol::Messages => under is None,
            },
    {
        match self {
            Protocol::Rooms => {
                let mut children: Vec<Protocol> = Vec::new();
                children.push(Protocol::Messages);
                Some(
                    ChildrenValidation {
                        children,
                        anyone_discover: true,
                        anyone_read: true,
                        allow_pointers: false,
                    },
                )
            },
            Protocol::Messages => None,
        }
    }
}

/// What the holder of a record may do: discover and read its children, and delete it.
#[derive(Clone, Copy, Debug, PartialEq, Eq, Hash)]
pub struct Permissions {
    pub children: Option<(bool, bool)>,
    pub delete: Option<bool>,
}

impl Permissions {
    /// A room's permissions: its children may be discovered and read.
    pub open spec fn spec_rooms() -> Permissions {
        Permissions { children: Some((true, true)), delete: None }
    }

    /// A message's permissions: none.
    pub open spec fn spec_messages() -> Permissions {
        Permissions { children: None, delete: None }
    }

    /// The permissions of a record of the given kind.
    pub open spec fn spec_of(protocol: Protocol) -> Permissions {
        match protocol {
            Protocol::Rooms => Self::spec_rooms(),
            Protocol::Messages => Self::spec_messages(),
        }
    }

    pub fn rooms() -> (p: Permissions)
        ensures
            p == Self::spec_rooms(),
    {
        Permissions { children: Some((true, true)), delete: None }
    }

    pub fn messages() -> (p: Permissions)
        ensures
            p == Self::spec_messages(),
    {
        Permissions { children: None, delete: None }
    }

    pub fn of(protocol: Protocol) -> (p: Permissions)
        ensures
            p == Self::spec_of(protocol),
    {
        match protocol {
            Protocol::Rooms => Permissions::rooms(),
            Protocol::Messages => Permissions::messages(),
        }
    }
}

/// A call for the store.
#[derive(Debug, PartialEq, Eq)]
pub enum StoreCall {
    /// Create a record of kind `protocol` in slot `index` under `parent`.
    CreatePrivate {
        parent: RecordPath,
        protocol: Protocol,
        index: u32,
        permissions: Permissions,
        payload: Vec<u8>,
    },
    /// Create in slot `index` under `parent` a pointer to the record at `target`.
    CreatePointer { parent: RecordPath, target: RecordPath, index: u32 },
    /// Look at slot `index` under `parent` for a record of kind `protocol`.
    Discover { parent: RecordPath, index: u32, protocol: Protocol },
    /// Read the payload of the record at `path`.
    ReadPrivate { path: RecordPath },
    /// Grant `recipient` the given permissions on the record at `path`.
    Share { recipient: OrangeName, permissions: Permissions, path: RecordPath },
    /// List the records shared with this identity since the given instant.
    Receive { since: Timestamp },
}

/// A call as contracts speak of it.
pub enum StoreCallView {
    CreatePrivate {
        parent: Seq<Id>,
        protocol: Protocol,
        index: u32,
        permissions: Permissions,
        payload: Seq<u8>,
    },
    CreatePointer { parent: Seq<Id>, target: Seq<Id>, index: u32 },
    Discover { parent: Seq<Id>, index: u32, protocol: Protocol },
    ReadPrivate { path: Seq<Id> },
    Share { recipient: Seq<char>, permissions: Permissions, path: Seq<Id> },
    Receive { since: Timestamp },
}

impl View for StoreCall {
    type V = StoreCallView;

    open spec fn view(&self) -> StoreCallView {
        match *self {
            StoreCall::CreatePrivate { parent, protocol, index, permissions, payload } => {
                StoreCallView::CreatePrivate {
                    parent: parent@,
                    protocol,
                    index,
                    permissions,
                    payload: payload@,
                }
            },
            StoreCall::CreatePointer { parent, target, index } => StoreCallView::CreatePointer {
                parent: parent@,
                target: target@,
                index,
            },
            StoreCall::Discover { parent, index, protocol } => StoreCallView::Discover {
                parent: parent@,
                index,
                protocol,
            },
            StoreCall::ReadPrivate { path } => StoreCallView::ReadPrivate { path: path@ },
            StoreCall::Share { recipient, permissions, path } => StoreCallView::Share {
                recipient: recipient@,
                permissions,
                path: path@,
            },
            StoreCall::Receive { since } => StoreCallView::Receive { since },
        }
    }
}

/// The store's answer to a call.
#[derive(Debug, PartialEq, Eq)]
pub enum StoreReply {
    /// To `CreatePrivate` and `CreatePointer`: the path that the record of the call
    /// has in the slot, and whether the slot was occupied before the call. Where it
    /// was, the call created nothing.
    Created { path: RecordPath, occupied: bool },
    /// To `Discover`: whether the slot is occupied, and the path of the record in it,
    /// where the slot holds one that this identity can read.
    Discovered { found: Option<RecordPath>, occupied: bool },
    /// To `ReadPrivate`: the payload of the record, if there is one at the path.
    Read { payload: Option<Vec<u8>> },
    /// To `Share`: done.
    Shared,
    /// To `Receive`: the paths of the shared records.
    Received { paths: Vec<RecordPath> },
    /// To any call: the store could not be reached or refused the call.
    Failed,
}

/// An answer as contracts speak of it.
pub enum StoreReplyView {
    Created { path: Seq<Id>, occupied: bool },
    Discovered { found: Option<Seq<Id>>, occupied: bool },
    Read { payload: Option<Seq<u8>> },
    Shared,
    Received { paths: Seq<Seq<Id>> },
    Failed,
}

impl View for StoreReply {
    type V = StoreReplyView;

    open spec fn view(&self) -> StoreReplyView {
        match *self {
            StoreReply::Created { path, occupied } => StoreReplyView::Created {
                path: path@,
                occupied,
            },
            StoreReply::Discovered { found, occupied } => StoreReplyView::Discovered {
                found: match found {
                    Some(p) => Some(p@),
                    None => None,
                },
                occupied,
            },
            StoreReply::Read { payload } => StoreReplyView::Read {
                payload: match payload {
                    Some(p) => Some(p@),
                    None => None,
                },
            },
            StoreReply::Shared => StoreReplyView::Shared,
            StoreReply::Received { paths } => StoreReplyView::Received {
                paths: path_views(paths@),
            },
            StoreReply::Failed => StoreReplyView::Failed,
        }
    }
}

/// Why a request or a pass ended without its result.
#[derive(Clone, Copy, Debug, PartialEq, Eq, Structural, Hash)]
pub enum ServiceError {
    /// The store failed a call.
    Store,
    /// A payload could not be written.
    Serialization,
    /// A message was addressed to a room that the cache does not hold.
    UnknownRoom,
    /// The store named a record that it then could not give.
    MissingRecord,
    /// No slot index is left under the path.
    Exhausted,
    /// The answer given is none to the call that was asked, or nothing was asked.
    Unexpected,
    /// A request was begun while another still waits for the store.
    Busy,
}

} // verus!
