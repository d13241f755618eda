//! The head of a conversation: who it is with.

use crate::service::name::OrangeName;
use crate::service::rooms::name_views;
use vstd::prelude::*;

verus! {

/// The title of a conversation: the name of the one other party, or that of a group.
#[derive(Debug, PartialEq, Eq)]
pub enum HeaderTitle {
    /// The name that the profile of this participant gives.
    Profile(OrangeName),
    /// `Group Message`.
    Group,
}

/// The middle of the head of a conversation: the participants whose avatars are shown,
/// and the title.
#[derive(Debug, PartialEq, Eq)]
pub struct HeaderContentMessages {
    pub profiles: Vec<OrangeName>,
    pub title: HeaderTitle,
}

impl HeaderContentMessages {
    /// The participants that the head shows: all but `me`, and `me` alone where there
    /// is no other.
    pub open spec fn shown(me: Seq<char>, profiles: Seq<Seq<char>>) -> Seq<Seq<char>> {
        let others = profiles.filter(|name: Seq<char>| name != me);
        if others.len() == 0 {
            Seq::empty().push(me)
        } else {
            others
        }
    }

    /// The text of the title of a group.
    pub open spec fn group_title() -> Seq<char> {
        "Group Message"@
    }

    /// The head of a conversation of `me` with `profiles`: titled with the one
    /// participant shown, or as a group where several are.
    pub fn new(me: &OrangeName, profiles: &Vec<OrangeName>) -> (head: HeaderContentMessages)
        ensures
            name_views(head.profiles@) == Self::shown(me@, name_views(profiles@)),
            match head.title {
                HeaderTitle::Profile(name) => head.profiles@.len() == 1 && name@
                    == head.profiles@[0]@,
                HeaderTitle::Group => head.profiles@.len() != 1,
            },
    {
        let ghost all = name_views(profiles@);
        let ghost not_me = |name: Seq<char>| name != me@;
        let mut kept: Vec<OrangeName> = Vec::new();
        let mut i: usize = 0;
        proof {
            reveal(Seq::filter);
            assert(all.take(0) =~= Seq::empty());
            assert(name_views(kept@) =~= Seq::empty());
        }
        while i < profiles.len()
            invariant
                i <= profiles.len(),
                all == name_views(profiles@),
                not_me == |name: Seq<char>| name != me@,
                name_views(kept@) == all.take(i as int).filter(not_me),
            decreases profiles.len() - i,
        {
            proof {
                reveal(Seq::filter);
                assert(all.take(i + 1).drop_last() =~= all.take(i as int));
                assert(all.take(i + 1).last() == profiles@[i as int]@);
            }
            if !profiles[i].same(me) {
                let ghost before = name_views(kept@);
                kept.push(profiles[i].clone());
                assert(name_views(kept@) =~= before.push(profiles@[i as int]@));
            }
            i += 1;
        }
        assert(all.take(profiles.len() as int) =~= all);
        if kept.len() == 0 {
            let ghost before = name_views(kept@);
            kept.push(me.clone());
            assert(name_views(kept@) =~= before.push(me@));
            assert(before =~= Seq::empty());
        }
        let title = if kept.len() == 1 {
            HeaderTitle::Profile(kept[0].clone())
        } else {
            HeaderTitle::Group
        };
        HeaderContentMessages { profiles: kept, title }
    }

    /// The title as it is written, given the name that the profile of the one
    /// participant gives.
    pub fn title_text(&self, profile_name: String) -> (text: String)
        ensures
            text@ == match self.title {
                HeaderTitle::Profile(name) => profile_name@,
                HeaderTitle::Group => Self::group_title(),
            },
    {
        match self.title {
            HeaderTitle::Profile(_) => profile_name,
            HeaderTitle::Group => "Group Message".to_owned(),
        }
    }
}

/// The head of a conversation: the way back on the left, the way to the details on
/// the right, and between them who the conversation is with.
#[derive(Debug, PartialEq, Eq)]
pub struct HeaderMessages {
    pub left: usize,
    pub right: usize,
    pub content: HeaderContentMessages,
}

impl HeaderMessages {
    /// The head of a conversation of `me` with `profiles`. The arrow on the left
    /// leads to screen 0, the sign on the right to screen 1.
    pub fn new(me: &OrangeName, profiles: &Vec<OrangeName>) -> (head: HeaderMessages)
        ensures
            head.left == 0,
            head.right == 1,
            name_views(head.content.profiles@) == HeaderContentMessages::shown(
                me@,
                name_views(profiles@),
            ),
    {
        HeaderMessages { left: 0, right: 1, content: HeaderContentMessages::new(me, profiles) }
    }
}

} // verus!
