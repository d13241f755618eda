//! The local cache: the rooms known so far and how far discovery has come.

use crate::service::message::{copy_messages, message_views, Message, MessageView, Uuid};
use crate::service::path::{Id, RecordPath};
use crate::service::time::Timestamp;
use vstd::prelude::*;

verus! {

/// A room in the cache: where it lies in the store, the id its creator gave it, its
/// messages in the order of their slots, and the first slot not yet looked at.
#[derive(Debug, PartialEq, Eq)]
pub struct CachedRoom {
    pub path: RecordPath,
    pub uuid: Uuid,
    pub messages: Vec<Message>,
    pub cursor: u32,
}

/// A cached room as contracts speak of it.
pub struct CachedRoomView {
    pub path: Seq<Id>,
    pub uuid: Uuid,
    pub messages: Seq<MessageView>,
    pub cursor: u32,
}

impl View for CachedRoom {
    type V = CachedRoomView;

    open spec fn view(&self) -> CachedRoomView {
        CachedRoomView {
            path: self.path@,
            uuid: self.uuid,
            messages: message_views(self.messages@),
            cursor: self.cursor,
        }
    }
}

impl Clone for CachedRoom {
    fn clone(&self) -> (copy: Self)
        ensures
            copy@ == self@,
    {
        CachedRoom {
            path: self.path.clone(),
            uuid: self.uuid,
            messages: copy_messages(&self.messages),
            cursor: self.cursor,
        }
    }
}

impl CachedRoomView {
    /// A room as discovery first enters it: no message yet, no slot looked at.
    pub open spec fn fresh(path: Seq<Id>, uuid: Uuid) -> CachedRoomView {
        CachedRoomView { path, uuid, messages: Seq::empty(), cursor: 0 }
    }
}

/// The rooms of a list, each as contracts speak of it.
pub open spec fn room_views(rooms: Seq<CachedRoom>) -> Seq<CachedRoomView> {
    rooms.map_values(|r: CachedRoom| r@)
}

/// The cache: the first root slot not yet looked at, the rooms in the order in which
/// they were found, and the instant of the last look at the inbox.
#[derive(Debug, PartialEq, Eq)]
pub struct RoomsCache {
    pub rooms_idx: u32,
    pub rooms: Vec<CachedRoom>,
    pub datetime: Timestamp,
}

/// The cache as contracts speak of it.
pub struct RoomsCacheView {
    pub rooms_idx: u32,
    pub rooms: Seq<CachedRoomView>,
    pub datetime: Timestamp,
}

impl View for RoomsCache {
    type V = RoomsCacheView;

    open spec fn view(&self) -> RoomsCacheView {
        RoomsCacheView {
            rooms_idx: self.rooms_idx,
            rooms: room_views(self.rooms@),
            datetime: self.datetime,
        }
    }
}

impl RoomsCacheView {
    /// The cache of a first run: nothing known, everything still to discover.
    pub open spec fn empty() -> RoomsCacheView {
        RoomsCacheView { rooms_idx: 0, rooms: Seq::empty(), datetime: Timestamp::epoch() }
    }

    /// A cache is well formed when no path occurs twice in it and no room holds more
    /// messages than slots were looked at.
    pub open spec fn wf(self) -> bool {
        &&& forall|i: int, j: int|
            0 <= i < j < self.rooms.len() ==> self.rooms[i].path != self.rooms[j].path
        &&& forall|i: int|
            0 <= i < self.rooms.len() ==> (#[trigger] self.rooms[i]).messages.len()
                <= self.rooms[i].cursor
    }

    /// Whether the cache holds a room at `path`.
    pub open spec fn has(self, path: Seq<Id>) -> bool {
        exists|i: int| 0 <= i < self.rooms.len() && (#[trigger] self.rooms[i]).path == path
    }

    /// The position of the first room at `path`.
    pub open spec fn position(self, path: Seq<Id>) -> int
        recommends
            self.has(path),
    {
        choose|i: int|
            0 <= i < self.rooms.len() && (#[trigger] self.rooms[i]).path == path && forall|j: int|
                0 <= j < i ==> (#[trigger] self.rooms[j]).path != path
    }

    /// The first message slot not yet looked at in the room at `path`, if it is cached.
    pub open spec fn cursor_of(self, path: Seq<Id>) -> Option<u32> {
        if self.has(path) {
            Some(self.rooms[self.position(path)].cursor)
        } else {
            None
        }
    }

    /// The cache with a fresh room at `path` behind the others, unless it holds a room
    /// there already.
    pub open spec fn with_room(self, path: Seq<Id>, uuid: Uuid) -> RoomsCacheView {
        if self.has(path) {
            self
        } else {
            RoomsCacheView { rooms: self.rooms.push(CachedRoomView::fresh(path, uuid)), ..self }
        }
    }

    /// The cache with `message` behind the messages of the room at position `room`.
    pub open spec fn with_message(self, room: int, message: MessageView) -> RoomsCacheView
        recommends
            0 <= room < self.rooms.len(),
    {
        RoomsCacheView {
            rooms: self.rooms.update(
                room,
                CachedRoomView {
                    messages: self.rooms[room].messages.push(message),
                    ..self.rooms[room]
                },
            ),
            ..self
        }
    }

    /// The cache with the room at position `room` looking at slot `cursor` next.
    pub open spec fn with_cursor(self, room: int, cursor: u32) -> RoomsCacheView
        recommends
            0 <= room < self.rooms.len(),
    {
        RoomsCacheView {
            rooms: self.rooms.update(room, CachedRoomView { cursor, ..self.rooms[room] }),
            ..self
        }
    }
}

impl Default for RoomsCache {
    fn default() -> (cache: Self)
        ensures
            cache@ == RoomsCacheView::empty(),
            cache@.wf(),
    {
        let cache = RoomsCache {
            rooms_idx: 0,
            rooms: Vec::new(),
            datetime: Timestamp::unix_epoch(),
        };
        assert(cache@.rooms =~= Seq::empty());
        cache
    }
}

impl Clone for RoomsCache {
    fn clone(&self) -> (copy: Self)
        ensures
            copy@ == self@,
    {
        let mut rooms: Vec<CachedRoom> = Vec::new();
        let mut i: usize = 0;
        while i < self.rooms.len()
            invariant
                i <= self.rooms.len(),
                rooms.len() == i,
                forall|k: int| 0 <= k < i ==> rooms@[k]@ == self.rooms@[k]@,
            decreases self.rooms.len() - i,
        {
            rooms.push(self.rooms[i].clone());
            i += 1;
        }
        assert(room_views(rooms@) =~= room_views(self.rooms@));
        RoomsCache { rooms_idx: self.rooms_idx, rooms, datetime: self.datetime }
    }
}

impl RoomsCache {
    /// The position of the first room at `path`, if the cache holds one there.
    pub fn find(&self, path: &RecordPath) -> (found: Option<usize>)
        ensures
            match found {
                Some(i) => i < self.rooms.len() && self@.has(path@) && i == self@.position(
                    path@,
                ) && self@.rooms[i as int].path == path@ && forall|k: int|
                    0 <= k < i ==> (#[trigger] self@.rooms[k]).path != path@,
                None => !self@.has(path@),
            },
    {
        let mut i: usize = 0;
        while i < self.rooms.len()
            invariant
                i <= self.rooms.len(),
                forall|k: int| 0 <= k < i ==> (#[trigger] self@.rooms[k]).path != path@,
            decreases self.rooms.len() - i,
        {
            if self.rooms[i].path.same(path) {
                assert(self@.rooms[i as int].path == path@);
                let ghost at = self@.position(path@);
                assert(at == i) by {
                    if at < i {
                        assert(self@.rooms[at].path != path@);
                    }
                }
                return Some(i);
            }
            i += 1;
        }
        None
    }

    /// The first message slot not yet looked at in the room at `path`.
    pub fn cursor_of(&self, path: &RecordPath) -> (cursor: Option<u32>)
        ensures
            cursor == self@.cursor_of(path@),
            cursor is Some <==> self@.has(path@),
    {
        match self.find(path) {
            Some(i) => Some(self.rooms[i].cursor),
            None => None,
        }
    }

    /// Enters a fresh room at `path` behind the others, unless the cache holds a room
    /// there already, and says whether it entered one.
    pub fn insert_room(&mut self, path: RecordPath, uuid: Uuid) -> (inserted: bool)
        ensures
            final(self)@ == old(self)@.with_room(path@, uuid),
            inserted == !old(self)@.has(path@),
    {
        match self.find(&path) {
            Some(_) => false,
            None => {
                let ghost before = self@.rooms;
                let room = CachedRoom { path, uuid, messages: Vec::new(), cursor: 0 };
                assert(room@.messages =~= Seq::empty());
                self.rooms.push(room);
                assert(self@.rooms =~= before.push(CachedRoomView::fresh(path@, uuid)));
                true
            },
        }
    }

    /// Puts `message` behind the messages of the room at position `room`; where the
    /// cache has no such position, nothing is done.
    pub fn push_message(&mut self, room: usize, message: Message)
        ensures
            final(self)@ == if room < old(self)@.rooms.len() {
                old(self)@.with_message(room as int, message@)
            } else {
                old(self)@
            },
    {
        if room < self.rooms.len() {
            let ghost before = self@;
            let ghost messages = self.rooms@[room as int].messages@;
            self.rooms[room].messages.push(message);
            assert(message_views(self.rooms@[room as int].messages@) =~= message_views(
                messages,
            ).push(message@));
            assert(self@.rooms =~= before.with_message(room as int, message@).rooms);
        }
    }

    /// Lets the room at position `room` look at slot `cursor` next; where the cache
    /// has no such position, nothing is done.
    pub fn set_cursor(&mut self, room: usize, cursor: u32)
        ensures
            final(self)@ == if room < old(self)@.rooms.len() {
                old(self)@.with_cursor(room as int, cursor)
            } else {
                old(self)@
            },
    {
        if room < self.rooms.len() {
            let ghost before = self@;
            self.rooms[room].cursor = cursor;
            assert(self@.rooms =~= before.with_cursor(room as int, cursor).rooms);
        }
    }

    /// The cache if it is well formed, and else the cache of a first run: a cache that
    /// no pass can have left is given up, and discovery starts anew.
    pub fn sound(self) -> (cache: RoomsCache)
        ensures
            cache@.wf(),
            cache@ == if self@.wf() {
                self@
            } else {
                RoomsCacheView::empty()
            },
    {
        if self.is_well_formed() {
            self
        } else {
            RoomsCache::default()
        }
    }

    /// Whether no path occurs twice and no room holds more messages than slots were
    /// looked at. A cache read from outside is to be tested so before it is used.
    pub fn is_well_formed(&self) -> (b: bool)
        ensures
            b == self@.wf(),
    {
        let mut i: usize = 0;
        while i < self.rooms.len()
            invariant
                i <= self.rooms.len(),
                forall|a: int, b: int|
                    0 <= a < b < self.rooms.len() && a < i ==> self@.rooms[a].path
                        != self@.rooms[b].path,
                forall|a: int|
                    0 <= a < i ==> (#[trigger] self@.rooms[a]).messages.len()
                        <= self@.rooms[a].cursor,
            decreases self.rooms.len() - i,
        {
            if self.rooms[i].messages.len() > self.rooms[i].cursor as usize {
                assert(self@.rooms[i as int].messages.len() > self@.rooms[i as int].cursor);
                return false;
            }
            let mut j: usize = i + 1;
            while j < self.rooms.len()
                invariant
                    i < j <= self.rooms.len(),
                    forall|b: int| i < b < j ==> self@.rooms[i as int].path != self@.rooms[b].path,
                decreases self.rooms.len() - j,
            {
                if self.rooms[i].path.same(&self.rooms[j].path) {
                    assert(self@.rooms[i as int].path == self@.rooms[j as int].path);
                    return false;
                }
                j += 1;
            }
            i += 1;
        }
        true
    }
}

} // verus!
