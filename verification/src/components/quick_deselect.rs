//! The choice of recipients: a list that can be searched, and above it the
//! participants chosen so far, each to be dropped again with one tap.

use crate::components::list_item::{item_views, ListItemMessages, ListItemView};
use crate::components::text::{contains, lowercased, occurs, to_lowercase};
use crate::service::name::OrangeName;
use crate::service::rooms::{copy_names, name_views};
use vstd::prelude::*;

verus! {

/// The choice of recipients: the participants chosen, if any is; the entries of the
/// list in the order shown; and for each entry whether it is hidden.
#[derive(Debug, PartialEq, Eq)]
pub struct QuickDeselect {
    pub selected: Option<Vec<OrangeName>>,
    pub items: Vec<ListItemMessages>,
    pub hidden: Vec<bool>,
}

impl QuickDeselect {
    /// How well an entry answers a search, the search given in lower case: 0 where
    /// nothing is searched for or the title holds it, 1 where only the line under the
    /// title holds it, 2 where neither does.
    pub open spec fn rank(item: ListItemView, query: Seq<char>) -> int {
        let orange = match item.subtitle {
            Some(text) => lowercased(text),
            None => Seq::empty(),
        };
        if query.len() == 0 || occurs(query, lowercased(item.title)) {
            0
        } else if occurs(query, orange) {
            1
        } else {
            2
        }
    }

    /// The test whether an entry has the given rank.
    pub open spec fn of_rank(query: Seq<char>, rank: int) -> spec_fn(ListItemView) -> bool {
        |item: ListItemView| Self::rank(item, query) == rank
    }

    /// The entries of the given rank, in their order.
    pub open spec fn ranked(items: Seq<ListItemView>, query: Seq<char>, rank: int) -> Seq<
        ListItemView,
    > {
        items.filter(Self::of_rank(query, rank))
    }

    /// Whether the entry is that of the participant: the line under its title is the
    /// participant's short name.
    pub open spec fn is_entry_of(item: ListItemView, name: Seq<char>) -> bool {
        "orange_name:"@.is_prefix_of(name) && item.subtitle == Some(OrangeName::spec_short(name))
    }

    /// The entries with the mark of the participant's entries set to `select`.
    pub open spec fn marked(items: Seq<ListItemView>, name: Seq<char>, select: bool) -> Seq<
        ListItemView,
    > {
        items.map_values(
            |item: ListItemView|
                if Self::is_entry_of(item, name) {
                    ListItemView { flair: select, ..item }
                } else {
                    item
                },
        )
    }

    /// A choice among the given entries, with nobody chosen and nothing hidden.
    pub fn new(list_items: Vec<ListItemMessages>) -> (choice: QuickDeselect)
        ensures
            choice.selected is None,
            choice.items@ == list_items@,
            choice.hidden@ == Seq::new(list_items@.len(), |i: int| false),
    {
        let mut hidden: Vec<bool> = Vec::new();
        let mut i: usize = 0;
        while i < list_items.len()
            invariant
                i <= list_items.len(),
                hidden@ == Seq::new(i as nat, |k: int| false),
            decreases list_items.len() - i,
        {
            hidden.push(false);
            assert(hidden@ =~= Seq::new((i + 1) as nat, |k: int| false));
            i += 1;
        }
        QuickDeselect { selected: None, items: list_items, hidden }
    }

    /// The participants chosen, if any is.
    pub fn get_orange_names(&self) -> (names: Option<Vec<OrangeName>>)
        ensures
            match (names, self.selected) {
                (Some(n), Some(s)) => name_views(n@) == name_views(s@),
                (None, None) => true,
                _ => false,
            },
    {
        match &self.selected {
            Some(names) => Some(copy_names(names)),
            None => None,
        }
    }

    fn rank_of(item: &ListItemMessages, query: &String) -> (rank: u8)
        ensures
            rank == Self::rank(item@, query@),
    {
        if query.as_str().is_empty() {
            return 0;
        }
        let name = to_lowercase(item.title.as_str());
        if contains(name.as_str(), query.as_str()) {
            return 0;
        }
        let orange = match &item.subtitle {
            Some(text) => to_lowercase(text.as_str()),
            None => String::new(),
        };
        if contains(orange.as_str(), query.as_str()) {
            1
        } else {
            2
        }
    }

    fn gather(&self, query: &String, rank: u8, into: &mut Vec<ListItemMessages>)
        ensures
            item_views(final(into)@) == item_views(old(into)@) + Self::ranked(
                item_views(self.items@),
                query@,
                rank as int,
            ),
    {
        let ghost all = item_views(self.items@);
        let ghost first = item_views(into@);
        let ghost wanted = Self::of_rank(query@, rank as int);
        let mut i: usize = 0;
        proof {
            reveal(Seq::filter);
            assert(all.take(0) =~= Seq::empty());
            assert(first + all.take(0).filter(wanted) =~= first);
        }
        while i < self.items.len()
            invariant
                i <= self.items.len(),
                all == item_views(self.items@),
                wanted == Self::of_rank(query@, rank as int),
                item_views(into@) == first + all.take(i as int).filter(wanted),
            decreases self.items.len() - i,
        {
            proof {
                reveal(Seq::filter);
                assert(all.take(i + 1).drop_last() =~= all.take(i as int));
                assert(all.take(i + 1).last() == self.items@[i as int]@);
            }
            if Self::rank_of(&self.items[i], query) == rank {
                let ghost before = item_views(into@);
                into.push(self.items[i].clone());
                assert(item_views(into@) =~= before.push(self.items@[i as int]@));
                assert(first + all.take(i as int).filter(wanted).push(self.items@[i as int]@)
                    =~= before.push(self.items@[i as int]@));
            }
            i += 1;
        }
        assert(all.take(self.items.len() as int) =~= all);
    }

    /// Orders the list by a search: first the entries whose title holds what is
    /// searched for, then those whose line under the title holds it, then the rest,
    /// hidden; within each of the three in the order they had. Letters count alike in
    /// upper and lower case.
    pub fn search(&mut self, query: &str)
        ensures
            final(self).selected == old(self).selected,
            item_views(final(self).items@) == Self::ranked(
                item_views(old(self).items@),
                lowercased(query@),
                0,
            ) + Self::ranked(item_views(old(self).items@), lowercased(query@), 1) + Self::ranked(
                item_views(old(self).items@),
                lowercased(query@),
                2,
            ),
            final(self).hidden@.len() == final(self).items@.len(),
            forall|i: int|
                0 <= i < final(self).hidden@.len() ==> final(self).hidden@[i] == (Self::rank(
                    #[trigger] item_views(final(self).items@)[i],
                    lowercased(query@),
                ) == 2),
    {
        let query = to_lowercase(query);
        let ghost all = item_views(self.items@);
        let mut items: Vec<ListItemMessages> = Vec::new();
        assert(item_views(items@) =~= Seq::empty());
        self.gather(&query, 0, &mut items);
        self.gather(&query, 1, &mut items);
        let shown = items.len();
        self.gather(&query, 2, &mut items);
        let ghost zero = Self::ranked(all, query@, 0);
        let ghost one = Self::ranked(all, query@, 1);
        let ghost two = Self::ranked(all, query@, 2);
        proof {
            assert(item_views(items@) =~= zero + one + two);
            assert(shown == zero.len() + one.len());
        }
        let mut hidden: Vec<bool> = Vec::new();
        let mut i: usize = 0;
        while i < items.len()
            invariant
                i <= items.len(),
                shown <= items.len(),
                hidden.len() == i,
                forall|k: int| 0 <= k < i ==> hidden@[k] == (k >= shown),
            decreases items.len() - i,
        {
            hidden.push(i >= shown);
            i += 1;
        }
        proof {
            assert forall|k: int| 0 <= k < hidden@.len() implies hidden@[k] == (Self::rank(
                #[trigger] item_views(items@)[k],
                query@,
            ) == 2) by {
                if k < zero.len() {
                    assert(item_views(items@)[k] == zero[k]);
                    all.lemma_filter_pred(Self::of_rank(query@, 0), k);
                } else if k < zero.len() + one.len() {
                    assert(item_views(items@)[k] == one[k - zero.len()]);
                    all.lemma_filter_pred(Self::of_rank(query@, 1), k - zero.len());
                } else {
                    assert(item_views(items@)[k] == two[k - zero.len() - one.len()]);
                    all.lemma_filter_pred(Self::of_rank(query@, 2), k - zero.len() - one.len());
                }
            }
        }
        self.items = items;
        self.hidden = hidden;
    }

    fn select_item(&mut self, name: &OrangeName, select: bool)
        ensures
            final(self).selected == old(self).selected,
            final(self).hidden == old(self).hidden,
            item_views(final(self).items@) == Self::marked(
                item_views(old(self).items@),
                name@,
                select,
            ),
    {
        let ghost all = item_views(self.items@);
        let short = name.stripped();
        let mut i: usize = 0;
        while i < self.items.len()
            invariant
                i <= self.items.len(),
                self.items.len() == all.len(),
                self.selected == old(self).selected,
                self.hidden == old(self).hidden,
                match short {
                    Some(text) => "orange_name:"@.is_prefix_of(name@) && text@
                        == OrangeName::spec_short(name@),
                    None => !"orange_name:"@.is_prefix_of(name@),
                },
                all == item_views(old(self).items@),
                forall|k: int|
                    0 <= k < i ==> (#[trigger] self.items@[k])@ == Self::marked(all, name@, select)[k],
                forall|k: int| i <= k < self.items.len() ==> (#[trigger] self.items@[k])@ == all[k],
            decreases self.items.len() - i,
        {
            let matches = match (&self.items[i].subtitle, &short) {
                (Some(text), Some(wanted)) => *text == *wanted,
                _ => false,
            };
            if matches {
                self.items[i].flair = select;
            }
            i += 1;
        }
        assert(item_views(self.items@) =~= Self::marked(all, name@, select));
    }

    /// Whether the participant is among those chosen.
    pub open spec fn chosen(selected: Option<Seq<Seq<char>>>, name: Seq<char>) -> bool {
        selected matches Some(names) && names.contains(name)
    }

    /// The choice as contracts speak of it: the names of those chosen, if any is.
    pub open spec fn selection(&self) -> Option<Seq<Seq<char>>> {
        match self.selected {
            Some(names) => Some(name_views(names@)),
            None => None,
        }
    }

    /// Takes the participant among those chosen and marks the entries of the
    /// participant. Where the participant was chosen already, nobody is added and the
    /// answer is `true`: the tap then means that the participant is to be dropped.
    pub fn add(&mut self, name: OrangeName) -> (again: bool)
        ensures
            again == Self::chosen(old(self).selection(), name@),
            final(self).hidden == old(self).hidden,
            item_views(final(self).items@) == Self::marked(
                item_views(old(self).items@),
                name@,
                true,
            ),
            final(self).selection() == if again {
                old(self).selection()
            } else {
                match old(self).selection() {
                    Some(names) => Some(names.push(name@)),
                    None => Some(Seq::empty().push(name@)),
                }
            },
    {
        self.select_item(&name, true);
        let mut selected: Option<Vec<OrangeName>> = None;
        core::mem::swap(&mut self.selected, &mut selected);
        match selected {
            Some(mut names) => {
                let ghost before = name_views(names@);
                let mut again = false;
                let mut i: usize = 0;
                while i < names.len()
                    invariant
                        i <= names.len(),
                        before == name_views(names@),
                        again == exists|k: int| 0 <= k < i && before[k] == name@,
                    decreases names.len() - i,
                {
                    if names[i].same(&name) {
                        assert(before[i as int] == name@);
                        again = true;
                    }
                    i += 1;
                }
                assert(again == before.contains(name@));
                if !again {
                    names.push(name);
                    assert(name_views(names@) =~= before.push(name@));
                }
                self.selected = Some(names);
                again
            },
            None => {
                let mut names: Vec<OrangeName> = Vec::new();
                names.push(name);
                assert(name_views(names@) =~= Seq::empty().push(name@));
                self.selected = Some(names);
                false
            },
        }
    }

    /// Drops the participant from those chosen and takes the mark from the entries of
    /// the participant. Where one participant is chosen, nobody is afterwards.
    pub fn remove(&mut self, name: &OrangeName)
        ensures
            final(self).hidden == old(self).hidden,
            item_views(final(self).items@) == Self::marked(
                item_views(old(self).items@),
                name@,
                false,
            ),
            final(self).selection() == match old(self).selection() {
                Some(names) => if names.len() == 1 {
                    None
                } else {
                    Some(names.filter(|other: Seq<char>| other != name@))
                },
                None => None,
            },
    {
        self.select_item(name, false);
        let mut selected: Option<Vec<OrangeName>> = None;
        core::mem::swap(&mut self.selected, &mut selected);
        match selected {
            Some(names) => {
                if names.len() != 1 {
                    let ghost all = name_views(names@);
                    let ghost others = |other: Seq<char>| other != name@;
                    let mut kept: Vec<OrangeName> = Vec::new();
                    let mut i: usize = 0;
                    proof {
                        reveal(Seq::filter);
                        assert(all.take(0) =~= Seq::empty());
                        assert(name_views(kept@) =~= Seq::empty());
                    }
                    while i < names.len()
                        invariant
                            i <= names.len(),
                            all == name_views(names@),
                            others == |other: Seq<char>| other != name@,
                            name_views(kept@) == all.take(i as int).filter(others),
                        decreases names.len() - i,
                    {
                        proof {
                            reveal(Seq::filter);
                            assert(all.take(i + 1).drop_last() =~= all.take(i as int));
                            assert(all.take(i + 1).last() == names@[i as int]@);
                        }
                        if !names[i].same(name) {
                            let ghost before = name_views(kept@);
                            kept.push(names[i].clone());
                            assert(name_views(kept@) =~= before.push(names@[i as int]@));
                        }
                        i += 1;
                    }
                    assert(all.take(names.len() as int) =~= all);
                    self.selected = Some(kept);
                }
            },
            None => {},
        }
    }
}

} // verus!
