//! What the screens decide: when a conversation is drawn anew, who a direct
//! conversation is with, and how a new conversation comes about.

use crate::service::handler::{RoomsRequest, RoomsRequestView};
use crate::service::message::{fresh_uuid, joined_text, Message, MessageView, Uuid};
use crate::service::name::OrangeName;
use crate::service::path::Id;
use crate::service::rooms::{name_views, Rooms};
use crate::service::time::{now, Timestamp};
use vstd::prelude::*;
use vstd::string::StringExecFns;

verus! {

/// What a tick does to the drawing of a conversation.
#[derive(Clone, Copy, Debug, PartialEq, Eq, Structural, Hash)]
pub enum Refresh {
    /// Nothing.
    Keep,
    /// The bubbles are drawn anew from the messages.
    Rebuild,
    /// The remark that there are no messages gives way to the first bubbles.
    Create,
}

/// What a tick does to a conversation that has `shown` messages to show, where
/// `drawn` is the number of bubbles on the screen, if any bubbles are: with nothing to
/// show nothing is done; without bubbles they are created; and they are drawn anew
/// when there are more messages than bubbles.
pub fn refresh(shown: usize, drawn: Option<usize>) -> (what: Refresh)
    ensures
        what == if shown == 0 {
            Refresh::Keep
        } else {
            match drawn {
                Some(n) => if shown > n {
                    Refresh::Rebuild
                } else {
                    Refresh::Keep
                },
                None => Refresh::Create,
            }
        },
{
    if shown == 0 {
        Refresh::Keep
    } else {
        match drawn {
            Some(n) => if shown > n {
                Refresh::Rebuild
            } else {
                Refresh::Keep
            },
            None => Refresh::Create,
        }
    }
}

/// What stands at the foot of a direct conversation.
#[derive(Debug, PartialEq, Eq)]
pub enum Bumper {
    /// The line in which a message is written.
    Input,
    /// A remark in place of the line: one of the two has blocked the other.
    Alert(String),
}

/// A direct conversation: with whom it is, and what stands at its foot.
#[derive(Debug)]
pub struct DirectMessage;

impl DirectMessage {
    /// The other party of a direct conversation: the first of the authors who is not
    /// `me`, and `me` where there is no other.
    pub open spec fn spec_other(me: Seq<char>, authors: Seq<Seq<char>>) -> Seq<char> {
        let others = authors.filter(|name: Seq<char>| name != me);
        if others.len() == 0 {
            me
        } else {
            others.first()
        }
    }

    pub fn other(me: &OrangeName, authors: &Vec<OrangeName>) -> (name: OrangeName)
        ensures
            name@ == Self::spec_other(me@, name_views(authors@)),
    {
        let ghost all = name_views(authors@);
        let ghost not_me = |name: Seq<char>| name != me@;
        let mut i: usize = 0;
        proof {
            reveal(Seq::filter);
            assert(all.take(0) =~= Seq::empty());
        }
        while i < authors.len()
            invariant
                i <= authors.len(),
                all == name_views(authors@),
                not_me == |name: Seq<char>| name != me@,
                all.take(i as int).filter(not_me).len() == 0,
            decreases authors.len() - i,
        {
            proof {
                reveal(Seq::filter);
                assert(all.take(i + 1).drop_last() =~= all.take(i as int));
                assert(all.take(i + 1).last() == authors@[i as int]@);
            }
            if !authors[i].same(me) {
                proof {
                    let found = all.take(i + 1);
                    let rest = all.skip(i + 1);
                    assert(found + rest =~= all);
                    vstd::seq::Seq::filter_distributes_over_add(found, rest, not_me);
                    assert(found.filter(not_me) =~= Seq::empty().push(authors@[i as int]@));
                }
                return authors[i].clone();
            }
            i += 1;
        }
        assert(all.take(authors.len() as int) =~= all);
        me.clone()
    }

    /// The remark at the foot where I have blocked the other.
    pub open spec fn blocked_text(name: Seq<char>) -> Seq<char> {
        "You blocked "@ + name + ". Unblock to message."@
    }

    /// The remark at the foot where the other has blocked me.
    pub open spec fn blocked_me_text(name: Seq<char>) -> Seq<char> {
        name + " has blocked you."@
    }

    /// What stands at the foot of a conversation with the participant whose profile
    /// gives the name `username`: a remark where I have blocked them, else a remark
    /// where they have blocked me, else the line to write in.
    pub fn bumper(username: &str, is_blocked: bool, blocked_me: bool) -> (foot: Bumper)
        ensures
            match foot {
                Bumper::Alert(text) => if is_blocked {
                    text@ == Self::blocked_text(username@)
                } else {
                    blocked_me && text@ == Self::blocked_me_text(username@)
                },
                Bumper::Input => !is_blocked && !blocked_me,
            },
    {
        if is_blocked {
            let mut text = String::from_str("You blocked ");
            text.append(username);
            text.append(". Unblock to message.");
            Bumper::Alert(text)
        } else if blocked_me {
            let mut text = String::from_str(username);
            text.append(" has blocked you.");
            Bumper::Alert(text)
        } else {
            Bumper::Input
        }
    }

    /// The remark in an empty conversation with the participant whose profile gives
    /// the name `username`.
    pub fn placeholder(username: &str) -> (text: String)
        ensures
            text@ == "No messages yet.\nSend "@ + username@ + " the first message."@,
    {
        let mut text = String::from_str("No messages yet.\nSend ");
        text.append(username);
        text.append(" the first message.");
        text
    }
}

/// The screen on which the recipients of a new conversation are chosen: the room that
/// came of it, the id under which the room was asked for, and whether it was asked
/// for.
#[derive(Debug, PartialEq, Eq)]
pub struct SelectRecipients {
    pub room: Option<Id>,
    pub uuid: Option<Uuid>,
    pub creating: bool,
}

/// What is asked once the room of a new conversation has been found.
#[derive(Debug, PartialEq, Eq)]
pub struct Opening {
    /// The requests, in their order.
    pub requests: Vec<RoomsRequest>,
    /// The screen to go to: 1 for a group, 2 for a direct conversation.
    pub screen: usize,
}

/// The requests of a list, each as contracts speak of it.
pub open spec fn request_views(requests: Seq<RoomsRequest>) -> Seq<RoomsRequestView> {
    requests.map_values(|r: RoomsRequest| r@)
}

impl SelectRecipients {
    /// The screen before anything has been asked for.
    pub fn new() -> (screen: SelectRecipients)
        ensures
            screen == (SelectRecipients { room: None, uuid: None, creating: false }),
    {
        SelectRecipients { room: None, uuid: None, creating: false }
    }

    /// Whether the button to go on is out of use: while nobody is chosen, and once the
    /// room has been asked for.
    pub fn is_blocked(&self, chosen: bool) -> (blocked: bool)
        ensures
            blocked == (!chosen || self.creating),
    {
        !chosen || self.creating
    }

    /// Takes note that a room is asked for under `uuid`, and gives the request.
    pub fn create_as(&mut self, uuid: Uuid) -> (request: RoomsRequest)
        ensures
            *final(self) == (SelectRecipients {
                uuid: Some(uuid),
                creating: true,
                room: old(self).room,
            }),
            request@ == RoomsRequestView::CreateRoom(uuid),
    {
        self.creating = true;
        self.uuid = Some(uuid);
        RoomsRequest::CreateRoom(uuid)
    }

    /// Asks for a room under an id drawn at random.
    pub fn create(&mut self) -> (request: RoomsRequest)
        ensures
            final(self).creating,
            final(self).room == old(self).room,
            request@ matches RoomsRequestView::CreateRoom(uuid) && final(self).uuid == Some(uuid),
    {
        self.create_as(fresh_uuid())
    }

    /// Whether the rooms hold one under the id `uuid`.
    pub open spec fn found(rooms: Rooms, uuid: Uuid) -> bool {
        exists|i: int| 0 <= i < rooms@.len() && (#[trigger] rooms@[i]).0 == uuid
    }

    /// The place of the first room under the id `uuid`.
    pub open spec fn place(rooms: Rooms, uuid: Uuid) -> int {
        choose|i: int|
            0 <= i < rooms@.len() && (#[trigger] rooms@[i]).0 == uuid && forall|k: int|
                0 <= k < i ==> (#[trigger] rooms@[k]).0 != uuid
    }

    /// What opening the room `room` asks for: that it be shared with each of the
    /// recipients, in their order, and that the message of `me` joining be appended.
    pub open spec fn opening(room: Id, recipients: Seq<Seq<char>>, me: Seq<char>, at: Timestamp) -> Seq<
        RoomsRequestView,
    > {
        recipients.map_values(|name: Seq<char>| RoomsRequestView::Share(room, name)).push(
            RoomsRequestView::CreateMessage(
                room,
                MessageView { text: joined_text(), at, author: me, read: true },
            ),
        )
    }

    /// Whether a tick opens the room now: a room has been asked for and the rooms hold
    /// one under its id.
    pub fn is_due(&self, rooms: &Rooms) -> (due: bool)
        ensures
            due == (self.uuid matches Some(uuid) && Self::found(*rooms, uuid)),
    {
        match self.uuid {
            None => false,
            Some(uuid) => {
                let mut i: usize = 0;
                while i < rooms.0.len()
                    invariant
                        i <= rooms.0.len(),
                        self.uuid == Some(uuid),
                        forall|k: int| 0 <= k < i ==> (#[trigger] rooms@[k]).0 != uuid,
                    decreases rooms.0.len() - i,
                {
                    if rooms.0[i].0 == uuid {
                        assert(0 <= i < rooms@.len() && rooms@[i as int].0 == uuid);
                        return true;
                    }
                    i += 1;
                }
                false
            },
        }
    }

    /// What a tick at the instant `at` brings: nothing until a room has been asked for
    /// and the rooms hold one under its id; then the requests that open the room for
    /// the recipients, and the screen to go to, which is that of a group where the
    /// room has more than one author.
    pub fn on_tick_at(
        &mut self,
        rooms: &Rooms,
        recipients: &Vec<OrangeName>,
        me: OrangeName,
        at: Timestamp,
    ) -> (opening: Option<Opening>)
        ensures
            final(self).uuid == old(self).uuid,
            final(self).creating == old(self).creating,
            match opening {
                Some(o) => {
                    let uuid = old(self).uuid->Some_0;
                    let room = rooms@[Self::place(*rooms, uuid)].1;
                    &&& old(self).uuid is Some
                    &&& Self::found(*rooms, uuid)
                    &&& final(self).room == Some(room.id)
                    &&& request_views(o.requests@) == Self::opening(
                        room.id,
                        name_views(recipients@),
                        me@,
                        at,
                    )
                    &&& o.screen == if room.authors.len() > 1 {
                        1usize
                    } else {
                        2usize
                    }
                },
                None => final(self).room == old(self).room && (old(self).uuid matches Some(uuid)
                    ==> !Self::found(*rooms, uuid)),
            },
    {
        let uuid = match self.uuid {
            Some(uuid) => uuid,
            None => return None,
        };
        let mut i: usize = 0;
        while i < rooms.0.len()
            invariant
                i <= rooms.0.len(),
                forall|k: int| 0 <= k < i ==> (#[trigger] rooms@[k]).0 != uuid,
                *self == *old(self),
                self.uuid == Some(uuid),
            decreases rooms.0.len() - i,
        {
            if rooms.0[i].0 == uuid {
                let room = &rooms.0[i].1;
                proof {
                    assert(rooms@[i as int].0 == uuid);
                    let at_place = Self::place(*rooms, uuid);
                    if at_place < i {
                        assert(rooms@[at_place].0 != uuid);
                    }
                    assert(at_place == i);
                }
                let id = room.0;
                let screen: usize = if room.1.len() > 1 {
                    1
                } else {
                    2
                };
                let ghost names = name_views(recipients@);
                let mut requests: Vec<RoomsRequest> = Vec::new();
                let mut k: usize = 0;
                while k < recipients.len()
                    invariant
                        k <= recipients.len(),
                        names == name_views(recipients@),
                        requests.len() == k,
                        forall|j: int|
                            0 <= j < k ==> (#[trigger] requests@[j])@ == RoomsRequestView::Share(
                                id,
                                names[j],
                            ),
                    decreases recipients.len() - k,
                {
                    requests.push(RoomsRequest::Share(id, recipients[k].clone()));
                    k += 1;
                }
                requests.push(RoomsRequest::CreateMessage(id, Message::joined(me, at)));
                assert(request_views(requests@) =~= Self::opening(id, names, me@, at));
                self.room = Some(id);
                return Some(Opening { requests, screen });
            }
            i += 1;
        }
        None
    }

    /// What a tick brings now.
    pub fn on_tick(&mut self, rooms: &Rooms, recipients: &Vec<OrangeName>, me: OrangeName) -> (opening:
        Option<Opening>)
        ensures
            final(self).uuid == old(self).uuid,
            final(self).creating == old(self).creating,
            opening is Some <==> (old(self).uuid matches Some(uuid) && Self::found(*rooms, uuid)),
            opening is None ==> final(self).room == old(self).room,
            opening matches Some(o) ==> {
                let room = rooms@[Self::place(*rooms, old(self).uuid->Some_0)].1;
                &&& final(self).room == Some(room.id)
                &&& o.screen == if room.authors.len() > 1 {
                    1usize
                } else {
                    2usize
                }
            },
            opening matches Some(o) ==> exists|at: Timestamp|
                request_views(o.requests@) == Self::opening(
                    rooms@[Self::place(*rooms, old(self).uuid->Some_0)].1.id,
                    name_views(recipients@),
                    me@,
                    at,
                ),
    {
        let at = now();
        self.on_tick_at(rooms, recipients, me, at)
    }
}

} // verus!
