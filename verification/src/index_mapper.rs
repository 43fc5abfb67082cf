//! The index mapper: which indexes exist, each known by the identifier of
//! its storage.
//!
//! The mapper decides what the life of an index allows: an index is created
//! once, is found only while it exists, and two existing indexes may trade
//! their storage. Opening and unlinking the storage itself is left to
//! whoever holds the handles; a handle that was given out stays good after
//! its index is deleted, and its storage is unlinked when the last handle
//! is dropped.

use vstd::prelude::*;
use uuid::Uuid;
use crate::error::{Error, ErrorView};
use crate::text::str_eq;

verus! {

/// `Uuid::new_v4`: a random identifier. Nothing is claimed of it: two calls
/// may give any two identifiers.
#[verifier::external_body]
pub(crate) fn new_uuid() -> (uuid: Uuid) {
    Uuid::new_v4()
}

/// An index: its name and the identifier of its storage.
pub struct IndexEntry {
    name: String,
    uuid: Uuid,
}

/// The index mapper.
pub struct IndexMapper {
    entries: Vec<IndexEntry>,
}

spec fn name_at(entries: Seq<IndexEntry>, i: int) -> Seq<char> {
    entries[i].name@
}

spec fn known(entries: Seq<IndexEntry>, name: Seq<char>) -> bool {
    exists|i: int| 0 <= i < entries.len() && #[trigger] name_at(entries, i) == name
}

spec fn place(entries: Seq<IndexEntry>, name: Seq<char>) -> int {
    choose|i: int| 0 <= i < entries.len() && #[trigger] name_at(entries, i) == name
}

spec fn distinct(entries: Seq<IndexEntry>) -> bool {
    forall|i: int, j: int|
        0 <= i < j < entries.len() ==> #[trigger] name_at(entries, i) != #[trigger] name_at(
            entries,
            j,
        )
}

proof fn lemma_place(entries: Seq<IndexEntry>, i: int)
    requires
        distinct(entries),
        0 <= i < entries.len(),
    ensures
        known(entries, name_at(entries, i)),
        place(entries, name_at(entries, i)) == i,
{
    let name = name_at(entries, i);
    let chosen = place(entries, name);
    assert(name_at(entries, chosen) == name);
    if chosen < i {
        assert(name_at(entries, chosen) != name_at(entries, i));
    }
    if i < chosen {
        assert(name_at(entries, i) != name_at(entries, chosen));
    }
}

impl IndexMapper {
    /// The indexes that exist: the identifier of the storage of each, by
    /// its name.
    pub closed spec fn indexes(&self) -> Map<Seq<char>, Uuid> {
        Map::new(
            |name: Seq<char>| known(self.entries@, name),
            |name: Seq<char>| self.entries[place(self.entries@, name)].uuid,
        )
    }

    /// The invariant of the mapper: no two indexes share a name.
    pub closed spec fn wf(&self) -> bool {
        distinct(self.entries@)
    }

    /// A mapper that knows no index.
    pub fn new() -> (mapper: Self)
        ensures
            mapper.wf(),
            mapper.indexes() == Map::<Seq<char>, Uuid>::empty(),
    {
        let mapper = IndexMapper { entries: Vec::new() };
        assert(mapper.indexes() =~= Map::<Seq<char>, Uuid>::empty());
        mapper
    }

    fn find(&self, name: &str) -> (found: Option<usize>)
        requires
            self.wf(),
        ensures
            match found {
                Some(i) => i < self.entries.len() && name_at(self.entries@, i as int) == name@
                    && self.indexes().contains_key(name@) && self.indexes()[name@]
                    == self.entries[i as int].uuid,
                None => !self.indexes().contains_key(name@),
            },
    {
        let mut i: usize = 0;
        while i < self.entries.len()
            invariant
                i <= self.entries.len(),
                self.wf(),
                forall|j: int| 0 <= j < i ==> name_at(self.entries@, j) != name@,
            decreases self.entries.len() - i,
        {
            if str_eq(self.entries[i].name.as_str(), name) {
                proof {
                    lemma_place(self.entries@, i as int);
                }
                return Some(i);
            }
            i += 1;
        }
        None
    }

    /// Whether an index with this name exists.
    pub fn has_index(&self, name: &str) -> (found: bool)
        requires
            self.wf(),
        ensures
            found == self.indexes().contains_key(name@),
    {
        self.find(name).is_some()
    }

    /// The storage of the index with this name; `IndexNotFound` when none
    /// exists.
    pub fn index(&self, name: &str) -> (result: Result<Uuid, Error>)
        requires
            self.wf(),
        ensures
            match result {
                Ok(uuid) => self.indexes().contains_key(name@) && self.indexes()[name@] == uuid,
                Err(error) => !self.indexes().contains_key(name@) && error@
                    == ErrorView::IndexNotFound(name@),
            },
    {
        match self.find(name) {
            Some(i) => Ok(self.entries[i].uuid),
            None => Err(Error::IndexNotFound(name.to_owned())),
        }
    }

    /// Every index that exists, once, with its storage.
    pub fn indexes_list(&self) -> (list: Vec<(String, Uuid)>)
        requires
            self.wf(),
        ensures
            forall|i: int|
                0 <= i < list.len() ==> self.indexes().contains_key((#[trigger] list[i]).0@)
                    && self.indexes()[list[i].0@] == list[i].1,
            forall|i: int, j: int| 0 <= i < j < list.len() ==> list[i].0@ != list[j].0@,
            forall|name: Seq<char>|
                self.indexes().contains_key(name) ==> exists|i: int|
                    0 <= i < list.len() && (#[trigger] list[i]).0@ == name,
    {
        let mut list: Vec<(String, Uuid)> = Vec::new();
        let mut i: usize = 0;
        while i < self.entries.len()
            invariant
                i <= self.entries.len(),
                self.wf(),
                list.len() == i,
                forall|j: int|
                    0 <= j < i ==> (#[trigger] list[j]).0@ == name_at(self.entries@, j) && list[j].1
                        == self.entries[j].uuid,
            decreases self.entries.len() - i,
        {
            list.push((self.entries[i].name.clone(), self.entries[i].uuid));
            i += 1;
        }
        proof {
            assert forall|j: int| 0 <= j < list.len() implies self.indexes().contains_key(
                (#[trigger] list[j]).0@,
            ) && self.indexes()[list[j].0@] == list[j].1 by {
                lemma_place(self.entries@, j);
            }
            assert forall|a: int, b: int| 0 <= a < b < list.len() implies list[a].0@
                != list[b].0@ by {
                assert(name_at(self.entries@, a) != name_at(self.entries@, b));
            }
            assert forall|name: Seq<char>| self.indexes().contains_key(name) implies exists|j: int|
                0 <= j < list.len() && (#[trigger] list[j]).0@ == name by {
                let j = place(self.entries@, name);
                assert(list[j].0@ == name);
            }
        }
        list
    }

    /// Creates an index with this name on the given storage;
    /// `IndexAlreadyExists`, and no change, when one exists.
    pub fn create_index_with(&mut self, name: &str, uuid: Uuid) -> (result: Result<Uuid, Error>)
        requires
            old(self).wf(),
        ensures
            final(self).wf(),
            match result {
                Ok(created) => {
                    &&& !old(self).indexes().contains_key(name@)
                    &&& created == uuid
                    &&& final(self).indexes() == old(self).indexes().insert(name@, uuid)
                },
                Err(error) => {
                    &&& old(self).indexes().contains_key(name@)
                    &&& error@ == ErrorView::IndexAlreadyExists(name@)
                    &&& *final(self) == *old(self)
                },
            },
    {
        if self.find(name).is_some() {
            return Err(Error::IndexAlreadyExists(name.to_owned()));
        }
        self.entries.push(IndexEntry { name: name.to_owned(), uuid });
        proof {
            let before = old(self).entries@;
            let after = self.entries@;
            assert forall|i: int| 0 <= i < before.len() implies name_at(after, i) == name_at(
                before,
                i,
            ) by {
                assert(after[i] == before[i]);
            }
            assert(!known(before, name@));
            assert(distinct(after)) by {
                assert forall|i: int, j: int| 0 <= i < j < after.len() implies #[trigger] name_at(
                    after,
                    i,
                ) != #[trigger] name_at(after, j) by {
                    if j < before.len() {
                        assert(name_at(before, i) != name_at(before, j));
                    }
                }
            }
            assert forall|other: Seq<char>| known(after, other) <==> (known(before, other) || other
                == name@) by {
                if known(before, other) {
                    let k = place(before, other);
                    assert(name_at(after, k) == other);
                }
                if other == name@ {
                    assert(name_at(after, before.len() as int) == other);
                }
                if known(after, other) {
                    let k = place(after, other);
                    if k < before.len() {
                        assert(name_at(before, k) == other);
                    }
                }
            }
            assert forall|other: Seq<char>| known(after, other) implies self.entries[place(
                after,
                other,
            )].uuid == old(self).indexes().insert(name@, uuid)[other] by {
                let k = place(after, other);
                lemma_place(after, k);
                if k < before.len() {
                    lemma_place(before, k);
                    assert(after[k] == before[k]);
                }
            }
            assert(self.indexes() =~= old(self).indexes().insert(name@, uuid));
        }
        Ok(uuid)
    }

    /// Creates an index with this name on a storage of its own;
    /// `IndexAlreadyExists`, and no change, when one exists.
    pub fn create_index(&mut self, name: &str) -> (result: Result<Uuid, Error>)
        requires
            old(self).wf(),
        ensures
            final(self).wf(),
            match result {
                Ok(created) => {
                    &&& !old(self).indexes().contains_key(name@)
                    &&& final(self).indexes() == old(self).indexes().insert(name@, created)
                },
                Err(error) => {
                    &&& old(self).indexes().contains_key(name@)
                    &&& error@ == ErrorView::IndexAlreadyExists(name@)
                    &&& *final(self) == *old(self)
                },
            },
    {
        let uuid = new_uuid();
        self.create_index_with(name, uuid)
    }

    /// The storage on which a task works that names this index: the storage
    /// of the index when it exists; a storage of its own, on which the index
    /// is created, when it does not and the task may create it.
    /// `IndexNotFound`, and no change, when the index does not exist and the
    /// task may not create it.
    pub fn index_or_create(&mut self, name: &str, allow_index_creation: bool) -> (result: Result<
        Uuid,
        Error,
    >)
        requires
            old(self).wf(),
        ensures
            final(self).wf(),
            match result {
                Ok(uuid) => if old(self).indexes().contains_key(name@) {
                    &&& uuid == old(self).indexes()[name@]
                    &&& *final(self) == *old(self)
                } else {
                    &&& allow_index_creation
                    &&& final(self).indexes() == old(self).indexes().insert(name@, uuid)
                },
                Err(error) => {
                    &&& !old(self).indexes().contains_key(name@)
                    &&& !allow_index_creation
                    &&& error@ == ErrorView::IndexNotFound(name@)
                    &&& *final(self) == *old(self)
                },
            },
    {
        match self.find(name) {
            Some(i) => Ok(self.entries[i].uuid),
            None => if allow_index_creation {
                self.create_index(name)
            } else {
                Err(Error::IndexNotFound(name.to_owned()))
            },
        }
    }

    /// Deletes the index with this name and gives its storage, to be
    /// unlinked; `IndexNotFound`, and no change, when none exists.
    pub fn delete_index(&mut self, name: &str) -> (result: Result<Uuid, Error>)
        requires
            old(self).wf(),
        ensures
            final(self).wf(),
            match result {
                Ok(uuid) => {
                    &&& old(self).indexes().contains_key(name@)
                    &&& uuid == old(self).indexes()[name@]
                    &&& final(self).indexes() == old(self).indexes().remove(name@)
                },
                Err(error) => {
                    &&& !old(self).indexes().contains_key(name@)
                    &&& error@ == ErrorView::IndexNotFound(name@)
                    &&& *final(self) == *old(self)
                },
            },
    {
        let at = match self.find(name) {
            Some(at) => at,
            None => {
                return Err(Error::IndexNotFound(name.to_owned()));
            },
        };
        let gone = self.entries.remove(at);
        proof {
            let before = old(self).entries@;
            let after = self.entries@;
            assert forall|i: int| 0 <= i < after.len() implies name_at(after, i) == name_at(
                before,
                if i < at {
                    i
                } else {
                    i + 1
                },
            ) && after[i].uuid == before[if i < at {
                i
            } else {
                i + 1
            }].uuid by {}
            assert(distinct(after)) by {
                assert forall|i: int, j: int| 0 <= i < j < after.len() implies #[trigger] name_at(
                    after,
                    i,
                ) != #[trigger] name_at(after, j) by {
                    let a = if i < at {
                        i
                    } else {
                        i + 1
                    };
                    let b = if j < at {
                        j
                    } else {
                        j + 1
                    };
                    assert(name_at(before, a) != name_at(before, b));
                }
            }
            assert forall|other: Seq<char>| known(after, other) <==> (known(before, other) && other
                != name@) by {
                if known(before, other) && other != name@ {
                    let k = place(before, other);
                    let moved = if k < at {
                        k
                    } else {
                        k - 1
                    };
                    assert(name_at(after, moved) == other);
                }
                if known(after, other) {
                    let k = place(after, other);
                    let source = if k < at {
                        k
                    } else {
                        k + 1
                    };
                    assert(name_at(before, source) == other);
                    if other == name@ {
                        lemma_place(before, source);
                        lemma_place(before, at as int);
                    }
                }
            }
            assert forall|other: Seq<char>| known(after, other) implies self.entries[place(
                after,
                other,
            )].uuid == old(self).indexes()[other] by {
                let k = place(after, other);
                let source = if k < at {
                    k
                } else {
                    k + 1
                };
                lemma_place(before, source);
            }
            assert(self.indexes() =~= old(self).indexes().remove(name@));
        }
        Ok(gone.uuid)
    }

    /// Lets two indexes trade their storage, so that each name opens what
    /// the other opened; `IndexNotFound`, with the name that is missing
    /// (the left one if both are), and no change, when one does not exist.
    pub fn swap(&mut self, lhs: &str, rhs: &str) -> (result: Result<(), Error>)
        requires
            old(self).wf(),
        ensures
            final(self).wf(),
            match result {
                Ok(()) => {
                    &&& old(self).indexes().contains_key(lhs@)
                    &&& old(self).indexes().contains_key(rhs@)
                    &&& final(self).indexes() == old(self).indexes().insert(
                        lhs@,
                        old(self).indexes()[rhs@],
                    ).insert(rhs@, old(self).indexes()[lhs@])
                },
                Err(error) => {
                    &&& *final(self) == *old(self)
                    &&& if !old(self).indexes().contains_key(lhs@) {
                        error@ == ErrorView::IndexNotFound(lhs@)
                    } else {
                        !old(self).indexes().contains_key(rhs@) && error@
                            == ErrorView::IndexNotFound(rhs@)
                    }
                },
            },
    {
        let left = match self.find(lhs) {
            Some(left) => left,
            None => {
                return Err(Error::IndexNotFound(lhs.to_owned()));
            },
        };
        let right = match self.find(rhs) {
            Some(right) => right,
            None => {
                return Err(Error::IndexNotFound(rhs.to_owned()));
            },
        };
        let left_uuid = self.entries[left].uuid;
        let right_uuid = self.entries[right].uuid;
        self.entries[left].uuid = right_uuid;
        self.entries[right].uuid = left_uuid;
        proof {
            let before = old(self).entries@;
            let after = self.entries@;
            assert forall|i: int| 0 <= i < after.len() implies name_at(after, i) == name_at(
                before,
                i,
            ) by {}
            assert(distinct(after)) by {
                assert forall|i: int, j: int| 0 <= i < j < after.len() implies #[trigger] name_at(
                    after,
                    i,
                ) != #[trigger] name_at(after, j) by {
                    assert(name_at(before, i) != name_at(before, j));
                }
            }
            assert forall|other: Seq<char>| known(after, other) <==> known(before, other) by {
                if known(before, other) {
                    let k = place(before, other);
                    assert(name_at(after, k) == other);
                }
                if known(after, other) {
                    let k = place(after, other);
                    assert(name_at(before, k) == other);
                }
            }
            let wanted = old(self).indexes().insert(lhs@, old(self).indexes()[rhs@]).insert(
                rhs@,
                old(self).indexes()[lhs@],
            );
            lemma_place(before, left as int);
            lemma_place(before, right as int);
            assert forall|other: Seq<char>| known(after, other) implies self.entries[place(
                after,
                other,
            )].uuid == wanted[other] by {
                let k = place(after, other);
                lemma_place(after, k);
                lemma_place(before, k);
            }
            assert(self.indexes() =~= wanted);
        }
        Ok(())
    }
}

} // verus!
