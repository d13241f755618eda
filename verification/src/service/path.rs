//! Record identifiers and the paths that address records in the store.

use vstd::prelude::*;

verus! {

/// A 256-bit record identifier, held as the two big-endian halves of its 32 bytes.
#[derive(Clone, Copy, Debug, PartialEq, Eq, Structural, Hash)]
pub struct Id {
    pub hi: u128,
    pub lo: u128,
}

impl Id {
    /// The identifier whose bytes are all zero.
    pub open spec fn zero() -> Id {
        Id { hi: 0, lo: 0 }
    }

    pub fn new(hi: u128, lo: u128) -> (id: Id)
        ensures
            id == (Id { hi, lo }),
    {
        Id { hi, lo }
    }
}

/// The position of a record in the store: the identifiers from the root down to it.
#[derive(Debug, PartialEq, Eq, Hash)]
pub struct RecordPath {
    ids: Vec<Id>,
}

impl View for RecordPath {
    type V = Seq<Id>;

    closed spec fn view(&self) -> Seq<Id> {
        self.ids@
    }
}

impl Clone for RecordPath {
    fn clone(&self) -> (copy: Self)
        ensures
            copy@ == self@,
    {
        RecordPath { ids: self.ids.clone() }
    }
}

/// The paths of a list, each as contracts speak of it.
pub open spec fn path_views(paths: Seq<RecordPath>) -> Seq<Seq<Id>> {
    paths.map_values(|p: RecordPath| p@)
}

impl RecordPath {
    /// What `last` gives: the final identifier, or the zero identifier for the root.
    pub open spec fn spec_last(path: Seq<Id>) -> Id {
        if path.len() == 0 {
            Id::zero()
        } else {
            path.last()
        }
    }

    /// The empty path, under which rooms and pointers to rooms are created.
    pub fn root() -> (path: Self)
        ensures
            path@ == Seq::<Id>::empty(),
    {
        RecordPath { ids: Vec::new() }
    }

    /// The path made of the given identifiers, outermost first.
    pub fn from_ids(ids: Vec<Id>) -> (path: Self)
        ensures
            path@ == ids@,
    {
        RecordPath { ids }
    }

    /// The identifiers of the path, outermost first.
    pub fn ids(&self) -> (ids: &Vec<Id>)
        ensures
            ids@ == self@,
    {
        &self.ids
    }

    pub fn is_root(&self) -> (b: bool)
        ensures
            b == (self@.len() == 0),
    {
        self.ids.len() == 0
    }

    /// The path of the child `id` of this path.
    pub fn join(&self, id: Id) -> (child: Self)
        ensures
            child@ == self@.push(id),
    {
        let mut ids = self.ids.clone();
        ids.push(id);
        RecordPath { ids }
    }

    /// The identifier of the record itself: the last of the path.
    pub fn last(&self) -> (id: Id)
        ensures
            id == Self::spec_last(self@),
    {
        let n = self.ids.len();
        if n == 0 {
            Id { hi: 0, lo: 0 }
        } else {
            self.ids[n - 1]
        }
    }

    /// Whether two paths name the same record.
    pub fn same(&self, other: &RecordPath) -> (b: bool)
        ensures
            b == (self@ == other@),
    {
        if self.ids.len() != other.ids.len() {
            return false;
        }
        let mut i: usize = 0;
        while i < self.ids.len()
            invariant
                self.ids.len() == other.ids.len(),
                i <= self.ids.len(),
                forall|k: int| 0 <= k < i ==> self.ids@[k] == other.ids@[k],
            decreases self.ids.len() - i,
        {
            if self.ids[i] != other.ids[i] {
                return false;
            }
            i += 1;
        }
        assert(self.ids@ =~= other.ids@);
        true
    }
}

} // verus!
