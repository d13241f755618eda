//! A model of the record store, for stating what the two tasks achieve against it.
//!
//! The model keeps what the engine can observe: which slots are occupied, what a look
//! at an occupied slot finds, and what reading a path gives. It never frees a slot and
//! never changes a payload.

use crate::service::message::{Message, MessageView};
use crate::service::path::{Id, RecordPath};
use crate::service::store::{StoreCallView, StoreReplyView};
use crate::service::time::Timestamp;
use vstd::prelude::*;

verus! {

/// The store as one identity sees it.
pub struct Ledger {
    /// The occupied slots, by parent path and index, each with the path that a look at
    /// it finds: `None` for a record that this identity cannot read.
    pub slots: Map<(Seq<Id>, int), Option<Seq<Id>>>,
    /// The payloads of the records that can be read, by path.
    pub payloads: Map<Seq<Id>, Seq<u8>>,
    /// The paths shared with this identity since an instant.
    pub inbox: spec_fn(Timestamp) -> Seq<Seq<Id>>,
    /// The path that the store gives to a record created in a slot.
    pub placed: spec_fn(Seq<Id>, int) -> Seq<Id>,
}

impl Ledger {
    /// Whether the slot is occupied.
    pub open spec fn occupied(self, parent: Seq<Id>, index: int) -> bool {
        self.slots.dom().contains((parent, index))
    }

    /// Whether a look at the slot finds nothing that cannot be read afterwards.
    pub open spec fn readable(self, parent: Seq<Id>, index: int) -> bool {
        self.slots[(parent, index)] matches Some(path) ==> self.payloads.dom().contains(path)
    }

    /// The model with the slot occupied by a record that a look finds at `found`.
    pub open spec fn occupy(self, parent: Seq<Id>, index: int, found: Seq<Id>) -> Ledger {
        Ledger { slots: self.slots.insert((parent, index), Some(found)), ..self }
    }

    /// The model with `payload` readable at `path`, unless a payload is there already.
    pub open spec fn store(self, path: Seq<Id>, payload: Seq<u8>) -> Ledger {
        if self.payloads.dom().contains(path) {
            self
        } else {
            Ledger { payloads: self.payloads.insert(path, payload), ..self }
        }
    }

    /// The model after a call, and its answer. The first call for a free slot claims
    /// it; a call for an occupied slot changes nothing. A pointer is found under its
    /// parent at the id of the record it points to.
    pub open spec fn answer(self, call: StoreCallView) -> (Ledger, StoreReplyView) {
        match call {
            StoreCallView::CreatePrivate { parent, protocol, index, permissions, payload } => {
                let path = (self.placed)(parent, index as int);
                if self.occupied(parent, index as int) {
                    (self, StoreReplyView::Created { path, occupied: true })
                } else {
                    (
                        self.occupy(parent, index as int, path).store(path, payload),
                        StoreReplyView::Created { path, occupied: false },
                    )
                }
            },
            StoreCallView::CreatePointer { parent, target, index } => {
                let path = (self.placed)(parent, index as int);
                if self.occupied(parent, index as int) {
                    (self, StoreReplyView::Created { path, occupied: true })
                } else {
                    (
                        self.occupy(parent, index as int, parent.push(RecordPath::spec_last(target))),
                        StoreReplyView::Created { path, occupied: false },
                    )
                }
            },
            StoreCallView::Discover { parent, index, protocol } => {
                if self.occupied(parent, index as int) {
                    (
                        self,
                        StoreReplyView::Discovered {
                            found: self.slots[(parent, index as int)],
                            occupied: true,
                        },
                    )
                } else {
                    (self, StoreReplyView::Discovered { found: None, occupied: false })
                }
            },
            StoreCallView::ReadPrivate { path } => (
                self,
                StoreReplyView::Read {
                    payload: if self.payloads.dom().contains(path) {
                        Some(self.payloads[path])
                    } else {
                        None
                    },
                },
            ),
            StoreCallView::Share { recipient, permissions, path } => (self, StoreReplyView::Shared),
            StoreCallView::Receive { since } => (
                self,
                StoreReplyView::Received { paths: (self.inbox)(since) },
            ),
        }
    }

    /// The message that the slot holds for a reader: none where the slot is free, the
    /// record cannot be read, or its payload is no message.
    pub open spec fn message_at(self, path: Seq<Id>, index: int) -> Option<MessageView> {
        if self.occupied(path, index) {
            match self.slots[(path, index)] {
                Some(found) => if self.payloads.dom().contains(found) {
                    Message::message_of(self.payloads[found])
                } else {
                    None
                },
                None => None,
            }
        } else {
            None
        }
    }

    /// The messages that the slots below `upto` under `path` hold, in the order of the
    /// slots.
    pub open spec fn messages_in(self, path: Seq<Id>, upto: int) -> Seq<MessageView>
        decreases upto,
    {
        if upto <= 0 {
            Seq::empty()
        } else {
            let before = self.messages_in(path, upto - 1);
            match self.message_at(path, upto - 1) {
                Some(message) => before.push(message),
                None => before,
            }
        }
    }

    /// Whether every slot below `upto` under `path` is occupied by something that stays
    /// as it is read.
    pub open spec fn filled(self, path: Seq<Id>, upto: int) -> bool {
        forall|i: int|
            0 <= i < upto ==> #[trigger] self.occupied(path, i) && self.readable(path, i)
    }

    /// Whether `later` holds all that this model holds, unchanged.
    pub open spec fn within(self, later: Ledger) -> bool {
        &&& forall|key: (Seq<Id>, int)| #[trigger]
            self.slots.dom().contains(key) ==> later.slots.dom().contains(key)
                && later.slots[key] == self.slots[key]
        &&& forall|path: Seq<Id>| #[trigger]
            self.payloads.dom().contains(path) ==> later.payloads.dom().contains(path)
                && later.payloads[path] == self.payloads[path]
        &&& later.inbox == self.inbox
        &&& later.placed == self.placed
    }
}

/// The store is append-only: whatever the call, the model afterwards holds all it held
/// before, unchanged.
pub proof fn lemma_answer_keeps(ledger: Ledger, call: StoreCallView)
    ensures
        ledger.within(ledger.answer(call).0),
{
}

/// What was read below filled slots stays what is read there, however the store grows.
pub proof fn lemma_messages_stay(ledger: Ledger, later: Ledger, path: Seq<Id>, upto: int)
    requires
        ledger.within(later),
        ledger.filled(path, upto),
    ensures
        later.filled(path, upto),
        later.messages_in(path, upto) == ledger.messages_in(path, upto),
    decreases upto,
{
    assert forall|i: int| 0 <= i < upto implies #[trigger] later.occupied(path, i)
        && later.readable(path, i) by {
        assert(ledger.occupied(path, i));
        assert(ledger.slots.dom().contains((path, i)));
    }
    if upto > 0 {
        assert forall|i: int| 0 <= i < upto - 1 implies #[trigger] ledger.occupied(path, i)
            && ledger.readable(path, i) by {
            assert(ledger.occupied(path, i));
        }
        lemma_messages_stay(ledger, later, path, upto - 1);
        assert(ledger.occupied(path, upto - 1));
        assert(ledger.slots.dom().contains((path, upto - 1)));
    }
}

} // verus!
