//! The messages under collation, each with a mark that tells whether it still waits for the collator.
use vstd::prelude::*;

use crate::ident::UInt256;

verus! {

/// A map from message identifiers to waiting marks, held as a strictly increasing list.
pub struct CollationSet {
    entries: Vec<(UInt256, bool)>,
}

/// The identifiers of a list of entries, in the order of the list.
pub open spec fn ids_of(entries: Seq<(UInt256, bool)>) -> Seq<UInt256> {
    entries.map_values(|e: (UInt256, bool)| e.0)
}

/// The map that a list of entries with distinct identifiers stands for.
pub open spec fn marks_of(entries: Seq<(UInt256, bool)>) -> Map<UInt256, bool> {
    Map::new(
        |id: UInt256| ids_of(entries).contains(id),
        |id: UInt256| entries[ids_of(entries).index_of(id)].1,
    )
}

spec fn increasing(entries: Seq<(UInt256, bool)>) -> bool {
    forall|i: int, j: int|
        0 <= i < j < entries.len() ==> (#[trigger] entries[i]).0.below((#[trigger] entries[j]).0)
}

proof fn lemma_mark_at(entries: Seq<(UInt256, bool)>, i: int)
    requires
        increasing(entries),
        0 <= i < entries.len(),
    ensures
        marks_of(entries).contains_key(entries[i].0),
        marks_of(entries)[entries[i].0] == entries[i].1,
{
    let ids = ids_of(entries);
    assert(ids[i] == entries[i].0);
    let k = ids.index_of(entries[i].0);
    assert(0 <= k < ids.len() && ids[k] == entries[i].0);
    assert(entries[k].0 == entries[i].0);
}

impl View for CollationSet {
    type V = Map<UInt256, bool>;

    closed spec fn view(&self) -> Map<UInt256, bool> {
        marks_of(self.entries@)
    }
}

impl CollationSet {
    #[verifier::type_invariant]
    spec fn well_formed(self) -> bool {
        increasing(self.entries@)
    }

    /// An empty set.
    pub fn new() -> (set: CollationSet)
        ensures
            set@ == Map::<UInt256, bool>::empty(),
    {
        let set = CollationSet { entries: Vec::new() };
        assert(set@ =~= Map::<UInt256, bool>::empty());
        set
    }

    /// The first position whose identifier is not below `id`.
    fn position(&self, id: &UInt256) -> (at: usize)
        ensures
            at <= self.entries.len(),
            forall|i: int| 0 <= i < at ==> (#[trigger] self.entries@[i]).0.below(*id),
            forall|i: int|
                at <= i < self.entries.len() ==> !(#[trigger] self.entries@[i]).0.below(*id),
    {
        proof {
            use_type_invariant(self);
        }
        let mut from: usize = 0;
        let mut to: usize = self.entries.len();
        while from < to
            invariant
                from <= to <= self.entries.len(),
                increasing(self.entries@),
                forall|i: int| 0 <= i < from ==> (#[trigger] self.entries@[i]).0.below(*id),
                forall|i: int|
                    to <= i < self.entries.len() ==> !(#[trigger] self.entries@[i]).0.below(*id),
            decreases to - from,
        {
            let mid: usize = from + (to - from) / 2;
            if self.entries[mid].0.is_below(id) {
                from = mid + 1;
            } else {
                to = mid;
            }
        }
        from
    }

    /// The mark of `id`, or nothing if it is not in the set.
    pub fn get(&self, id: &UInt256) -> (mark: Option<bool>)
        ensures
            mark == self@.get(*id),
    {
        proof {
            use_type_invariant(self);
        }
        let at: usize = self.position(id);
        if at < self.entries.len() && self.entries[at].0 == *id {
            proof {
                lemma_mark_at(self.entries@, at as int);
            }
            Some(self.entries[at].1)
        } else {
            proof {
                let ids = ids_of(self.entries@);
                if ids.contains(*id) {
                    let k = ids.index_of(*id);
                    assert(self.entries@[k].0 == *id);
                    assert(!self.entries@[k].0.below(*id));
                    assert(k >= at);
                    if k > at {
                        assert(self.entries@[at as int].0.below(self.entries@[k].0));
                    }
                }
            }
            None
        }
    }

    /// Sets the mark of `id`, and gives the mark that it had before.
    pub fn insert(&mut self, id: UInt256, mark: bool) -> (before: Option<bool>)
        ensures
            final(self)@ == old(self)@.insert(id, mark),
            before == old(self)@.get(id),
    {
        proof {
            use_type_invariant(&*self);
        }
        let before = self.get(&id);
        let at: usize = self.position(&id);
        let ghost prior = self.entries@;
        let mut entries: Vec<(UInt256, bool)> = Vec::new();
        std::mem::swap(&mut self.entries, &mut entries);
        if at < entries.len() && entries[at].0 == id {
            entries.set(at, (id, mark));
        } else {
            entries.insert(at, (id, mark));
        }
        proof {
            lemma_insert(prior, entries@, at as int, id, mark);
        }
        self.entries = entries;
        before
    }

    /// The number of messages in the set.
    pub fn len(&self) -> (count: usize)
        ensures
            count == self@.len(),
            self@.dom().finite(),
    {
        proof {
            use_type_invariant(self);
            lemma_size(self.entries@);
        }
        self.entries.len()
    }

    /// Every message of the set with its mark, each message once.
    pub fn to_vec(&self) -> (entries: Vec<(UInt256, bool)>)
        ensures
            ids_of(entries@).no_duplicates(),
            marks_of(entries@) == self@,
    {
        proof {
            use_type_invariant(self);
            lemma_size(self.entries@);
        }
        let mut entries: Vec<(UInt256, bool)> = Vec::new();
        let mut i: usize = 0;
        while i < self.entries.len()
            invariant
                i <= self.entries.len(),
                entries@ == self.entries@.take(i as int),
            decreases self.entries.len() - i,
        {
            entries.push(self.entries[i]);
            i = i + 1;
        }
        assert(entries@ =~= self.entries@);
        entries
    }

    /// Every message of the set, each once.
    pub fn keys(&self) -> (ids: Vec<UInt256>)
        ensures
            ids@.no_duplicates(),
            ids@.to_set() == self@.dom(),
    {
        proof {
            use_type_invariant(self);
            lemma_size(self.entries@);
        }
        let mut ids: Vec<UInt256> = Vec::new();
        let mut i: usize = 0;
        while i < self.entries.len()
            invariant
                i <= self.entries.len(),
                ids@ == ids_of(self.entries@).take(i as int),
            decreases self.entries.len() - i,
        {
            ids.push(self.entries[i].0);
            i = i + 1;
        }
        assert(ids@ =~= ids_of(self.entries@));
        assert(ids@.to_set() =~= self@.dom());
        ids
    }
}

proof fn lemma_size(entries: Seq<(UInt256, bool)>)
    requires
        increasing(entries),
    ensures
        ids_of(entries).no_duplicates(),
        marks_of(entries).dom() == ids_of(entries).to_set(),
        marks_of(entries).dom().finite(),
        marks_of(entries).len() == entries.len(),
{
    let ids = ids_of(entries);
    assert forall|i: int, j: int| 0 <= i < ids.len() && 0 <= j < ids.len() && i != j implies ids[i]
        != ids[j] by {
        assert(entries[i].0 == ids[i] && entries[j].0 == ids[j]);
        if i < j {
            assert(entries[i].0.below(entries[j].0));
        } else {
            assert(entries[j].0.below(entries[i].0));
        }
    }
    ids.unique_seq_to_set();
    assert(marks_of(entries).dom() =~= ids.to_set());
}

proof fn lemma_insert(
    prior: Seq<(UInt256, bool)>,
    after: Seq<(UInt256, bool)>,
    at: int,
    id: UInt256,
    mark: bool,
)
    requires
        increasing(prior),
        0 <= at <= prior.len(),
        forall|i: int| 0 <= i < at ==> (#[trigger] prior[i]).0.below(id),
        forall|i: int| at <= i < prior.len() ==> !(#[trigger] prior[i]).0.below(id),
        after == if at < prior.len() && prior[at].0 == id {
            prior.update(at, (id, mark))
        } else {
            prior.insert(at, (id, mark))
        },
    ensures
        increasing(after),
        marks_of(after) == marks_of(prior).insert(id, mark),
{
    let replaced = at < prior.len() && prior[at].0 == id;
    assert forall|i: int, j: int| 0 <= i < j < after.len() implies (#[trigger] after[i]).0.below(
        (#[trigger] after[j]).0,
    ) by {
        if !replaced {
            let pi = if i < at { i } else { i - 1 };
            let pj = if j < at { j } else { j - 1 };
            if i != at {
                assert(after[i] == prior[pi]);
            }
            if j != at {
                assert(after[j] == prior[pj]);
            }
            if at < prior.len() && j > at {
                assert(!prior[pj].0.below(id));
                if pj != at {
                    assert(prior[at].0.below(prior[pj].0));
                }
            }
        } else {
            assert(prior[i].0.below(prior[j].0));
        }
    }
    assert(after[at] == (id, mark));
    let m1 = marks_of(after);
    let m2 = marks_of(prior).insert(id, mark);
    assert forall|k: UInt256| m1.contains_key(k) <==> m2.contains_key(k) by {
        if m1.contains_key(k) {
            let i = ids_of(after).index_of(k);
            assert(after[i].0 == k);
            if i != at {
                let pi = if replaced || i < at { i } else { i - 1 };
                assert(prior[pi] == after[i]);
                lemma_mark_at(prior, pi);
            }
        }
        if m2.contains_key(k) {
            if k == id {
                lemma_mark_at(after, at);
            } else {
                let pi = ids_of(prior).index_of(k);
                assert(prior[pi].0 == k);
                let i = if replaced || pi < at { pi } else { pi + 1 };
                assert(after[i] == prior[pi]);
                lemma_mark_at(after, i);
            }
        }
    }
    assert forall|k: UInt256| m1.contains_key(k) implies m1[k] == m2[k] by {
        lemma_mark_at(after, at);
        if k != id {
            let i = ids_of(after).index_of(k);
            assert(after[i].0 == k);
            let pi = if replaced || i < at { i } else { i - 1 };
            assert(prior[pi] == after[i]);
            lemma_mark_at(prior, pi);
            lemma_mark_at(after, i);
        }
    }
    assert(m1 =~= m2);
}

} // verus!
