//! The rooms as the application sees them.

use crate::service::cache::{RoomsCache, RoomsCacheView};
use crate::service::message::{copy_messages, message_views, Message, MessageView, Uuid};
use crate::service::name::OrangeName;
use crate::service::path::{Id, RecordPath};
use vstd::prelude::*;

verus! {

/// A room as published: the id that its path ends in, the authors of its messages, and
/// the messages in the order of their slots.
pub type Room = (Id, Vec<OrangeName>, Vec<Message>);

/// A published room as contracts speak of it.
pub struct RoomView {
    pub id: Id,
    pub authors: Seq<Seq<char>>,
    pub messages: Seq<MessageView>,
}

/// The names of a list, each as contracts speak of it.
pub open spec fn name_views(names: Seq<OrangeName>) -> Seq<Seq<char>> {
    names.map_values(|n: OrangeName| n@)
}

/// A published room as contracts speak of it.
pub open spec fn room_view(room: Room) -> RoomView {
    RoomView { id: room.0, authors: name_views(room.1@), messages: message_views(room.2@) }
}

/// The authors of the messages, each once, in the order in which they first wrote.
pub open spec fn authors_of(messages: Seq<MessageView>) -> Seq<Seq<char>>
    decreases messages.len(),
{
    if messages.len() == 0 {
        Seq::empty()
    } else {
        let before = authors_of(messages.drop_last());
        if before.contains(messages.last().author) {
            before
        } else {
            before.push(messages.last().author)
        }
    }
}

/// The list of authors names nobody twice, and names exactly those who wrote a message.
pub proof fn lemma_authors_are_the_distinct_authors(messages: Seq<MessageView>)
    ensures
        authors_of(messages).no_duplicates(),
        forall|name: Seq<char>|
            authors_of(messages).contains(name) <==> exists|i: int|
                0 <= i < messages.len() && (#[trigger] messages[i]).author == name,
    decreases messages.len(),
{
    if messages.len() > 0 {
        let earlier = messages.drop_last();
        let before = authors_of(earlier);
        let last = messages.last().author;
        lemma_authors_are_the_distinct_authors(earlier);
        assert forall|name: Seq<char>|
            authors_of(messages).contains(name) <==> exists|i: int|
                0 <= i < messages.len() && (#[trigger] messages[i]).author == name by {
            if authors_of(messages).contains(name) {
                if before.contains(name) {
                    let i = choose|i: int|
                        0 <= i < earlier.len() && (#[trigger] earlier[i]).author == name;
                    assert(messages[i].author == name);
                } else {
                    let k = choose|k: int|
                        0 <= k < authors_of(messages).len() && authors_of(messages)[k] == name;
                    assert(name == last);
                    assert(messages[messages.len() - 1].author == name);
                }
            }
            if exists|i: int| 0 <= i < messages.len() && (#[trigger] messages[i]).author == name {
                let i = choose|i: int|
                    0 <= i < messages.len() && (#[trigger] messages[i]).author == name;
                if i < earlier.len() {
                    assert(earlier[i].author == name);
                    assert(before.contains(name));
                    let k = choose|k: int| 0 <= k < before.len() && before[k] == name;
                    assert(authors_of(messages)[k] == name);
                } else {
                    assert(name == last);
                    if before.contains(last) {
                    } else {
                        assert(before.push(last)[before.len() as int] == last);
                    }
                }
            }
        }
    }
}

/// The authors of the messages, each once, in the order in which they first wrote.
pub fn authors(messages: &Vec<Message>) -> (names: Vec<OrangeName>)
    ensures
        name_views(names@) == authors_of(message_views(messages@)),
{
    let ghost all = message_views(messages@);
    let mut names: Vec<OrangeName> = Vec::new();
    let mut i: usize = 0;
    assert(all.take(0) =~= Seq::empty());
    assert(name_views(names@) =~= Seq::empty());
    while i < messages.len()
        invariant
            i <= messages.len(),
            all == message_views(messages@),
            name_views(names@) == authors_of(all.take(i as int)),
        decreases messages.len() - i,
    {
        let author = messages[i].author();
        let mut known = false;
        let mut k: usize = 0;
        while k < names.len()
            invariant
                k <= names.len(),
                known == exists|j: int| 0 <= j < k && name_views(names@)[j] == author@,
            decreases names.len() - k,
        {
            if names[k].same(author) {
                assert(name_views(names@)[k as int] == author@);
                known = true;
            }
            k += 1;
        }
        proof {
            assert(all.take(i + 1).drop_last() =~= all.take(i as int));
            assert(all.take(i + 1).last().author == author@);
            assert(known == name_views(names@).contains(author@));
        }
        if !known {
            let ghost before = name_views(names@);
            names.push(author.clone());
            assert(name_views(names@) =~= before.push(author@));
        }
        i += 1;
    }
    assert(all.take(messages.len() as int) =~= all);
    names
}

/// The rooms of the last publication, each with the id that its creator gave it.
#[derive(Debug, PartialEq, Eq)]
pub struct Rooms(pub Vec<(Uuid, Room)>);

impl View for Rooms {
    type V = Seq<(Uuid, RoomView)>;

    open spec fn view(&self) -> Seq<(Uuid, RoomView)> {
        self.0@.map_values(|entry: (Uuid, Room)| (entry.0, room_view(entry.1)))
    }
}

impl Default for Rooms {
    fn default() -> (rooms: Self)
        ensures
            rooms@ == Seq::<(Uuid, RoomView)>::empty(),
    {
        let rooms = Rooms(Vec::new());
        assert(rooms@ =~= Seq::empty());
        rooms
    }
}

/// A copy of a list of names.
pub fn copy_names(names: &Vec<OrangeName>) -> (copy: Vec<OrangeName>)
    ensures
        name_views(copy@) == name_views(names@),
{
    let mut copy: Vec<OrangeName> = Vec::new();
    let mut i: usize = 0;
    while i < names.len()
        invariant
            i <= names.len(),
            copy.len() == i,
            forall|k: int| 0 <= k < i ==> copy@[k]@ == names@[k]@,
        decreases names.len() - i,
    {
        copy.push(names[i].clone());
        i += 1;
    }
    assert(name_views(copy@) =~= name_views(names@));
    copy
}

impl Rooms {
    /// What the cache publishes: every room in the order of the cache, under the id
    /// that its path ends in, with the authors of its messages.
    pub open spec fn snapshot_of(cache: RoomsCacheView) -> Seq<(Uuid, RoomView)> {
        Seq::new(
            cache.rooms.len(),
            |i: int|
                (
                    cache.rooms[i].uuid,
                    RoomView {
                        id: RecordPath::spec_last(cache.rooms[i].path),
                        authors: authors_of(cache.rooms[i].messages),
                        messages: cache.rooms[i].messages,
                    },
                ),
        )
    }

    /// The rooms of the cache as they are published.
    pub fn snapshot(cache: &RoomsCache) -> (rooms: Rooms)
        ensures
            rooms@ == Self::snapshot_of(cache@),
    {
        let mut out: Vec<(Uuid, Room)> = Vec::new();
        let mut i: usize = 0;
        while i < cache.rooms.len()
            invariant
                i <= cache.rooms.len(),
                out.len() == i,
                forall|k: int|
                    0 <= k < i ==> (out@[k].0, room_view(out@[k].1)) == Self::snapshot_of(
                        cache@,
                    )[k],
            decreases cache.rooms.len() - i,
        {
            let room = &cache.rooms[i];
            let entry = (room.path.last(), authors(&room.messages), copy_messages(&room.messages));
            assert(cache@.rooms[i as int] == room@);
            out.push((room.uuid, entry));
            i += 1;
        }
        let rooms = Rooms(out);
        assert(rooms@ =~= Self::snapshot_of(cache@));
        rooms
    }

    /// The published rooms without the ids that their creators gave them.
    pub fn rooms(&self) -> (rooms: Vec<Room>)
        ensures
            rooms.len() == self@.len(),
            forall|i: int| 0 <= i < rooms.len() ==> room_view(#[trigger] rooms@[i]) == self@[i].1,
    {
        let mut out: Vec<Room> = Vec::new();
        let mut i: usize = 0;
        while i < self.0.len()
            invariant
                i <= self.0.len(),
                out.len() == i,
                forall|k: int| 0 <= k < i ==> room_view(#[trigger] out@[k]) == self@[k].1,
            decreases self.0.len() - i,
        {
            let room = &self.0[i].1;
            out.push((room.0, copy_names(&room.1), copy_messages(&room.2)));
            i += 1;
        }
        out
    }

    /// The first published room with the given id, to be changed in place.
    pub fn get(&mut self, id: Id) -> (room: Option<&mut Room>)
        ensures
            match room {
                Some(r) => {
                    let at = old(self).first(id);
                    &&& old(self).has(id)
                    &&& 0 <= at < old(self).0@.len()
                    &&& r.0 == id
                    &&& forall|k: int| 0 <= k < at ==> (#[trigger] old(self)@[k]).1.id != id
                    &&& *r == old(self).0@[at].1
                    &&& final(self).0@ == old(self).0@.update(at, (old(self).0@[at].0, *final(r)))
                },
                None => !old(self).has(id) && *final(self) == *old(self),
            },
    {
        match self.position(id) {
            Some(i) => Some(&mut self.0[i].1),
            None => None,
        }
    }

    /// Whether a room with the given id is published.
    pub open spec fn has(self, id: Id) -> bool {
        exists|i: int| 0 <= i < self@.len() && (#[trigger] self@[i]).1.id == id
    }

    /// The position of the first published room with the given id.
    pub open spec fn first(self, id: Id) -> int
        recommends
            self.has(id),
    {
        choose|i: int|
            0 <= i < self@.len() && (#[trigger] self@[i]).1.id == id && forall|k: int|
                0 <= k < i ==> (#[trigger] self@[k]).1.id != id
    }

    /// The position of the first published room with the given id.
    pub fn position(&self, id: Id) -> (found: Option<usize>)
        ensures
            match found {
                Some(i) => i < self@.len() && self.has(id) && i == self.first(id)
                    && self@[i as int].1.id == id && forall|k: int|
                    0 <= k < i ==> (#[trigger] self@[k]).1.id != id,
                None => !self.has(id),
            },
    {
        let mut i: usize = 0;
        while i < self.0.len()
            invariant
                i <= self.0.len(),
                forall|k: int| 0 <= k < i ==> (#[trigger] self@[k]).1.id != id,
            decreases self.0.len() - i,
        {
            if self.0[i].1.0 == id {
                assert(self@[i as int].1.id == id);
                let ghost at = self.first(id);
                assert(at == i) by {
                    if at < i {
                        assert(self@[at].1.id != id);
                    }
                }
                return Some(i);
            }
            i += 1;
        }
        None
    }
}

} // verus!
