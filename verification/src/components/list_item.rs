//! The entries of the lists: contacts, recipients, and conversations with their last
//! word.

use crate::components::text::{join, listed, string_views, trim, trimmed};
use crate::service::message::{message_views, shown, without_joined, Message, MessageView};
use crate::service::name::OrangeName;
use crate::service::path::Id;
use crate::service::rooms::{name_views, room_view, Room, RoomView};
use crate::service::time::Timestamp;
use vstd::prelude::*;
use vstd::string::StringExecFns;

verus! {

/// The picture of an entry: that of a participant, or the sign of a group.
#[derive(Debug, PartialEq, Eq)]
pub enum ItemAvatar {
    Profile(OrangeName),
    Group,
}

/// An entry of a list: its title, whether it carries the mark of something unread, the
/// line under the title, the line under that, and its picture.
#[derive(Debug, PartialEq, Eq)]
pub struct ListItemMessages {
    pub title: String,
    pub flair: bool,
    pub subtitle: Option<String>,
    pub description: Option<String>,
    pub avatar: ItemAvatar,
}

/// An entry as contracts speak of it; the picture is the name of the participant, or
/// nothing for a group.
pub struct ListItemView {
    pub title: Seq<char>,
    pub flair: bool,
    pub subtitle: Option<Seq<char>>,
    pub description: Option<Seq<char>>,
    pub avatar: Option<Seq<char>>,
}

impl View for ListItemMessages {
    type V = ListItemView;

    open spec fn view(&self) -> ListItemView {
        ListItemView {
            title: self.title@,
            flair: self.flair,
            subtitle: match self.subtitle {
                Some(text) => Some(text@),
                None => None,
            },
            description: match self.description {
                Some(text) => Some(text@),
                None => None,
            },
            avatar: match self.avatar {
                ItemAvatar::Profile(name) => Some(name@),
                ItemAvatar::Group => None,
            },
        }
    }
}

impl Clone for ItemAvatar {
    fn clone(&self) -> (copy: Self)
        ensures
            match (*self, copy) {
                (ItemAvatar::Profile(a), ItemAvatar::Profile(b)) => a@ == b@,
                (ItemAvatar::Group, ItemAvatar::Group) => true,
                _ => false,
            },
    {
        match self {
            ItemAvatar::Profile(name) => ItemAvatar::Profile(name.clone()),
            ItemAvatar::Group => ItemAvatar::Group,
        }
    }
}

impl Clone for ListItemMessages {
    fn clone(&self) -> (copy: Self)
        ensures
            copy@ == self@,
    {
        ListItemMessages {
            title: self.title.clone(),
            flair: self.flair,
            subtitle: match &self.subtitle {
                Some(text) => Some(text.clone()),
                None => None,
            },
            description: match &self.description {
                Some(text) => Some(text.clone()),
                None => None,
            },
            avatar: self.avatar.clone(),
        }
    }
}

/// The entries of a list, each as contracts speak of it.
pub open spec fn item_views(items: Seq<ListItemMessages>) -> Seq<ListItemView> {
    items.map_values(|item: ListItemMessages| item@)
}

/// A participant with the name that the profile gives: as contracts speak of them.
pub open spec fn member_views(members: Seq<(OrangeName, String)>) -> Seq<(Seq<char>, Seq<char>)> {
    members.map_values(|m: (OrangeName, String)| (m.0@, m.1@))
}

impl ListItemMessages {
    /// The last word of a direct conversation and whether it has been read: of the
    /// messages that are shown the last, behind `You` where `me` wrote it and behind
    /// the other's name where not; with none shown, the remark that there is none, as
    /// read.
    pub open spec fn preview(me: Seq<char>, other_name: Seq<char>, messages: Seq<MessageView>) -> (
        Seq<char>,
        bool,
    ) {
        let kept = shown(messages);
        if kept.len() == 0 {
            ("No messages yet."@, true)
        } else {
            let last = kept.last();
            (
                (if last.author == me {
                    "You"@
                } else {
                    other_name
                }) + ": "@ + last.text,
                last.read,
            )
        }
    }

    /// The names that a group shows: those of all members but `me`, trimmed, in their
    /// order.
    pub open spec fn others(me: Seq<char>, members: Seq<(Seq<char>, Seq<char>)>) -> Seq<Seq<char>> {
        members.filter(|m: (Seq<char>, Seq<char>)| m.0 != me).map_values(
            |m: (Seq<char>, Seq<char>)| trimmed(m.1),
        )
    }

    /// Whether the last of the messages has been read; with no message, yes.
    pub open spec fn last_read(messages: Seq<MessageView>) -> bool {
        messages.len() == 0 || messages.last().read
    }

    /// The entry of a contact: the profile's name over the participant's short name.
    pub fn contact(name: String, orange_name: &OrangeName) -> (item: ListItemMessages)
        ensures
            item@ == (ListItemView {
                title: name@,
                flair: false,
                subtitle: Some(OrangeName::spec_short(orange_name@)),
                description: None,
                avatar: Some(orange_name@),
            }),
    {
        ListItemMessages {
            title: name,
            flair: false,
            subtitle: Some(orange_name.short()),
            description: None,
            avatar: ItemAvatar::Profile(orange_name.clone()),
        }
    }

    /// The entry of a participant who can be chosen as a recipient: as that of a
    /// contact.
    pub fn recipient(name: String, orange_name: &OrangeName) -> (item: ListItemMessages)
        ensures
            item@ == (ListItemView {
                title: name@,
                flair: false,
                subtitle: Some(OrangeName::spec_short(orange_name@)),
                description: None,
                avatar: Some(orange_name@),
            }),
    {
        ListItemMessages::contact(name, orange_name)
    }

    /// The entry of a direct conversation of `me` with `other`, whose profile gives the
    /// name `other_name`: the name over the last word, marked while that is unread.
    pub fn direct_message(
        me: &OrangeName,
        other: OrangeName,
        other_name: String,
        messages: &Vec<Message>,
    ) -> (item: ListItemMessages)
        ensures
            item@ == (ListItemView {
                title: other_name@,
                flair: !Self::preview(me@, other_name@, message_views(messages@)).1,
                subtitle: Some(Self::preview(me@, other_name@, message_views(messages@)).0),
                description: None,
                avatar: Some(other@),
            }),
    {
        let kept = without_joined(messages);
        let n = kept.len();
        let (recent, read) = if n == 0 {
            (String::from_str("No messages yet."), true)
        } else {
            let last = &kept[n - 1];
            assert(message_views(kept@).last() == last@);
            let mut line = if last.author().same(me) {
                String::from_str("You")
            } else {
                other_name.clone()
            };
            line.append(": ");
            line.append(last.message().as_str());
            (line, *last.is_read())
        };
        ListItemMessages {
            title: other_name,
            flair: !read,
            subtitle: Some(recent),
            description: None,
            avatar: ItemAvatar::Profile(other),
        }
    }

    /// The entry of a group conversation of `me` with `members`, each given with the
    /// name of their profile: the names of the others in a row, marked while the last
    /// message is unread.
    pub fn group_message(
        me: &OrangeName,
        members: &Vec<(OrangeName, String)>,
        messages: &Vec<Message>,
    ) -> (item: ListItemMessages)
        ensures
            item@ == (ListItemView {
                title: "Group Message"@,
                flair: !Self::last_read(message_views(messages@)),
                subtitle: None,
                description: Some(listed(Self::others(me@, member_views(members@)))),
                avatar: None,
            }),
    {
        let n = messages.len();
        let read = if n == 0 {
            true
        } else {
            assert(message_views(messages@).last() == messages@[n - 1]@);
            *messages[n - 1].is_read()
        };
        let ghost all = member_views(members@);
        let ghost not_me = |m: (Seq<char>, Seq<char>)| m.0 != me@;
        let ghost trimming = |m: (Seq<char>, Seq<char>)| trimmed(m.1);
        let mut names: Vec<String> = Vec::new();
        let mut i: usize = 0;
        proof {
            reveal(Seq::filter);
            assert(all.take(0) =~= Seq::empty());
            assert(string_views(names@) =~= all.take(0).filter(not_me).map_values(trimming));
        }
        while i < members.len()
            invariant
                i <= members.len(),
                all == member_views(members@),
                not_me == |m: (Seq<char>, Seq<char>)| m.0 != me@,
                trimming == |m: (Seq<char>, Seq<char>)| trimmed(m.1),
                string_views(names@) == all.take(i as int).filter(not_me).map_values(trimming),
            decreases members.len() - i,
        {
            proof {
                reveal(Seq::filter);
                assert(all.take(i + 1).drop_last() =~= all.take(i as int));
                assert(all.take(i + 1).last() == (members@[i as int].0@, members@[i as int].1@));
            }
            if !members[i].0.same(me) {
                let ghost before = string_views(names@);
                let ghost kept = all.take(i as int).filter(not_me);
                names.push(trim(members[i].1.as_str()));
                proof {
                    assert(string_views(names@) =~= before.push(trimmed(members@[i as int].1@)));
                    assert(kept.push(all[i as int]).map_values(trimming) =~= kept.map_values(
                        trimming,
                    ).push(trimmed(members@[i as int].1@)));
                }
            }
            i += 1;
        }
        assert(all.take(members.len() as int) =~= all);
        ListItemMessages {
            title: String::from_str("Group Message"),
            flair: !read,
            subtitle: None,
            description: Some(join(&names)),
            avatar: ItemAvatar::Group,
        }
    }
}

/// A conversation in the list of conversations: its place in the rooms given, the id
/// of the room, and the other party of a direct conversation; a group has none.
#[derive(Debug, PartialEq, Eq)]
pub struct RoomItem {
    pub index: usize,
    pub room: Id,
    pub other: Option<OrangeName>,
}

/// An item as contracts speak of it.
pub struct RoomItemView {
    pub index: int,
    pub room: Id,
    pub other: Option<Seq<char>>,
}

impl View for RoomItem {
    type V = RoomItemView;

    open spec fn view(&self) -> RoomItemView {
        RoomItemView {
            index: self.index as int,
            room: self.room,
            other: match self.other {
                Some(name) => Some(name@),
                None => None,
            },
        }
    }
}

impl RoomItem {
    /// The screen that a tap on the item leads to: 1 for a group, 2 for a direct
    /// conversation.
    pub fn navigate(&self) -> (screen: usize)
        ensures
            screen == if self@.other is None {
                1usize
            } else {
                2usize
            },
    {
        match self.other {
            None => 1,
            Some(_) => 2,
        }
    }
}

/// The rooms of a list, each as contracts speak of it.
pub open spec fn room_views(rooms: Seq<Room>) -> Seq<RoomView> {
    rooms.map_values(|r: Room| room_view(r))
}

/// The list of conversations: the rooms in the order in which they are shown.
#[derive(Debug, PartialEq, Eq)]
pub struct ListItemGroupMessages {
    pub items: Vec<RoomItem>,
}

impl View for ListItemGroupMessages {
    type V = Seq<RoomItemView>;

    open spec fn view(&self) -> Seq<RoomItemView> {
        self.items@.map_values(|item: RoomItem| item@)
    }
}

impl ListItemGroupMessages {
    /// The instant by which a room is ranked: that of its last message, if it has one.
    pub open spec fn key_of(room: RoomView) -> Option<Timestamp> {
        if room.messages.len() == 0 {
            None
        } else {
            Some(room.messages.last().at)
        }
    }

    /// Whether the key `a` comes after the key `b`: an instant after none, and an
    /// instant after an earlier one.
    pub open spec fn key_after(a: Option<Timestamp>, b: Option<Timestamp>) -> bool {
        match (a, b) {
            (Some(x), Some(y)) => y.spec_before(x),
            (Some(x), None) => true,
            _ => false,
        }
    }

    /// Whether the room at place `x` is shown before the room at place `y`: the one
    /// with the later last message first, and of two with the same, the one that was
    /// given later.
    pub open spec fn shown_before(rooms: Seq<RoomView>, x: int, y: int) -> bool {
        Self::key_after(Self::key_of(rooms[x]), Self::key_of(rooms[y])) || (Self::key_of(rooms[x])
            == Self::key_of(rooms[y]) && x > y)
    }

    /// The other party of a direct conversation: the last of the authors who is not
    /// `me`, and `me` where there is no other.
    pub open spec fn other_party(me: Seq<char>, authors: Seq<Seq<char>>) -> Seq<char> {
        let others = authors.filter(|name: Seq<char>| name != me);
        if others.len() == 0 {
            me
        } else {
            others.last()
        }
    }

    /// The item of a room: a group where more than two have written, and else a direct
    /// conversation with the other party.
    pub open spec fn item_of(me: Seq<char>, rooms: Seq<RoomView>, index: int) -> RoomItemView {
        RoomItemView {
            index,
            room: rooms[index].id,
            other: if rooms[index].authors.len() > 2 {
                None
            } else {
                Some(Self::other_party(me, rooms[index].authors))
            },
        }
    }

    /// Whether the list shows the room at place `index`.
    pub open spec fn shows(list: Seq<RoomItemView>, index: int) -> bool {
        exists|j: int| 0 <= j < list.len() && (#[trigger] list[j]).index == index
    }

    spec fn holds(order: Seq<usize>, index: int) -> bool {
        exists|a: int| 0 <= a < order.len() && #[trigger] order[a] == index
    }

    fn key(room: &Room) -> (key: Option<Timestamp>)
        ensures
            key == Self::key_of(room_view(*room)),
    {
        let n = room.2.len();
        if n == 0 {
            None
        } else {
            assert(message_views(room.2@).last() == room.2@[n - 1]@);
            Some(*room.2[n - 1].timestamp())
        }
    }

    fn after(a: &Option<Timestamp>, b: &Option<Timestamp>) -> (later: bool)
        ensures
            later == Self::key_after(*a, *b),
    {
        match (a, b) {
            (Some(x), Some(y)) => y.before(x),
            (Some(_), None) => true,
            _ => false,
        }
    }

    fn party(me: &OrangeName, authors: &Vec<OrangeName>) -> (other: OrangeName)
        ensures
            other@ == Self::other_party(me@, name_views(authors@)),
    {
        let ghost all = name_views(authors@);
        let ghost not_me = |name: Seq<char>| name != me@;
        let mut other = me.clone();
        let mut i: usize = 0;
        proof {
            reveal(Seq::filter);
            assert(all.take(0) =~= Seq::empty());
        }
        while i < authors.len()
            invariant
                i <= authors.len(),
                all == name_views(authors@),
                not_me == |name: Seq<char>| name != me@,
                other@ == if all.take(i as int).filter(not_me).len() == 0 {
                    me@
                } else {
                    all.take(i as int).filter(not_me).last()
                },
            decreases authors.len() - i,
        {
            proof {
                reveal(Seq::filter);
                assert(all.take(i + 1).drop_last() =~= all.take(i as int));
                assert(all.take(i + 1).last() == authors@[i as int]@);
            }
            if !authors[i].same(me) {
                other = authors[i].clone();
            }
            i += 1;
        }
        assert(all.take(authors.len() as int) =~= all);
        other
    }

    /// The list of the conversations of `me`: every room once, the one with the latest
    /// last message first, rooms without a message last, and of two that rank alike
    /// the one given later first.
    pub fn new(me: &OrangeName, rooms: &Vec<Room>) -> (list: ListItemGroupMessages)
        ensures
            list@.len() == rooms.len(),
            forall|k: int| 0 <= k < rooms.len() ==> #[trigger] Self::shows(list@, k),
            forall|j: int|
                0 <= j < list@.len() ==> 0 <= (#[trigger] list@[j]).index < rooms.len() && list@[j]
                    == Self::item_of(me@, room_views(rooms@), list@[j].index),
            forall|j: int|
                0 <= j < list@.len() - 1 ==> Self::shown_before(
                    room_views(rooms@),
                    (#[trigger] list@[j]).index,
                    list@[j + 1].index,
                ),
    {
        let ghost all = room_views(rooms@);
        let mut order: Vec<usize> = Vec::new();
        let mut i: usize = 0;
        while i < rooms.len()
            invariant
                i <= rooms.len(),
                all == room_views(rooms@),
                order.len() == i,
                forall|a: int| 0 <= a < order.len() ==> (#[trigger] order@[a]) < i,
                forall|k: int| 0 <= k < i ==> #[trigger] Self::holds(order@, k),
                forall|a: int|
                    0 <= a < order.len() - 1 ==> Self::shown_before(
                        all,
                        (#[trigger] order@[a]) as int,
                        order@[a + 1] as int,
                    ),
            decreases rooms.len() - i,
        {
            let key = Self::key(&rooms[i]);
            assert(all[i as int] == room_view(rooms@[i as int]));
            let mut p: usize = 0;
            while p < order.len() && Self::after(&Self::key(&rooms[order[p]]), &key)
                invariant
                    p <= order.len(),
                    i < rooms.len(),
                    all == room_views(rooms@),
                    key == Self::key_of(all[i as int]),
                    forall|a: int| 0 <= a < order.len() ==> (#[trigger] order@[a]) < i,
                    forall|a: int|
                        0 <= a < p ==> Self::key_after(
                            Self::key_of(all[(#[trigger] order@[a]) as int]),
                            key,
                        ),
                decreases order.len() - p,
            {
                assert(all[order@[p as int] as int] == room_view(rooms@[order@[p as int] as int]));
                p += 1;
            }
            let ghost before = order@;
            proof {
                if p < order.len() {
                    assert(all[order@[p as int] as int] == room_view(
                        rooms@[order@[p as int] as int],
                    ));
                }
            }
            order.insert(p, i);
            proof {
                assert forall|k: int| 0 <= k < i + 1 implies #[trigger] Self::holds(order@, k) by {
                    if k == i {
                        assert(order@[p as int] == k);
                    } else {
                        assert(Self::holds(before, k));
                        let a = choose|a: int| 0 <= a < before.len() && #[trigger] before[a] == k;
                        if a < p {
                            assert(order@[a] == k);
                        } else {
                            assert(order@[a + 1] == k);
                        }
                    }
                }
                assert forall|a: int| 0 <= a < order.len() - 1 implies Self::shown_before(
                    all,
                    (#[trigger] order@[a]) as int,
                    order@[a + 1] as int,
                ) by {
                    if a + 1 < p {
                        assert(order@[a] == before[a] && order@[a + 1] == before[a + 1]);
                    } else if a + 1 == p {
                        assert(order@[a] == before[a]);
                    } else if a == p {
                        assert(order@[a + 1] == before[a]);
                        assert(before[a] < i);
                    } else {
                        assert(order@[a] == before[a - 1] && order@[a + 1] == before[a]);
                    }
                }
            }
            i += 1;
        }
        let mut items: Vec<RoomItem> = Vec::new();
        let mut j: usize = 0;
        while j < order.len()
            invariant
                j <= order.len(),
                order.len() == rooms.len(),
                all == room_views(rooms@),
                items.len() == j,
                forall|a: int| 0 <= a < order.len() ==> (#[trigger] order@[a]) < rooms.len(),
                forall|k: int| 0 <= k < rooms.len() ==> #[trigger] Self::holds(order@, k),
                forall|a: int|
                    0 <= a < j ==> (#[trigger] items@[a])@ == Self::item_of(
                        me@,
                        all,
                        order@[a] as int,
                    ),
            decreases order.len() - j,
        {
            let index = order[j];
            let room = &rooms[index];
            assert(all[index as int] == room_view(*room));
            let other = if room.1.len() > 2 {
                None
            } else {
                Some(Self::party(me, &room.1))
            };
            items.push(RoomItem { index, room: room.0, other });
            j += 1;
        }
        let list = ListItemGroupMessages { items };
        proof {
            assert forall|k: int| 0 <= k < rooms.len() implies #[trigger] Self::shows(list@, k) by {
                assert(Self::holds(order@, k));
                let a = choose|a: int| 0 <= a < order.len() && #[trigger] order@[a] == k;
                assert(list@[a].index == k);
            }
            assert forall|j: int| 0 <= j < list@.len() - 1 implies Self::shown_before(
                room_views(rooms@),
                (#[trigger] list@[j]).index,
                list@[j + 1].index,
            ) by {
                assert(list@[j].index == order@[j]);
                assert(list@[j + 1].index == order@[j + 1]);
            }
        }
        list
    }
}

} // verus!
