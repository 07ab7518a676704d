//! The order in which waiting messages are given to the collator: a binary heap, earliest message first.
use vstd::multiset::Multiset;
use vstd::prelude::*;

use crate::ident::UInt256;

verus! {

/// A message that waits for the collator.
#[derive(Clone, Copy, Debug, PartialEq, Eq, Hash, Structural)]
pub struct Waiting {
    pub timestamp: u32,
    pub message_id: UInt256,
}

impl Waiting {
    /// The order of collation: the earlier timestamp first, and among messages of one timestamp
    /// the numerically greater identifier first.
    pub open spec fn precedes(self, other: Waiting) -> bool {
        self.timestamp < other.timestamp || (self.timestamp == other.timestamp
            && other.message_id.below(self.message_id))
    }

    /// Tells whether this message is given to the collator before `other`.
    pub fn is_before(&self, other: &Waiting) -> (before: bool)
        ensures
            before == self.precedes(*other),
    {
        self.timestamp < other.timestamp || (self.timestamp == other.timestamp
            && other.message_id.is_below(&self.message_id))
    }
}

/// `first` is in `order`, and every other entry of it comes later.
pub open spec fn is_first(order: Multiset<Waiting>, first: Waiting) -> bool {
    &&& order.contains(first)
    &&& forall|w: Waiting| #[trigger] order.contains(w) ==> w == first || first.precedes(w)
}

/// The waiting messages, of which the first can be taken.
pub struct CollationOrder {
    items: Vec<Waiting>,
}

spec fn parent(i: int) -> int {
    (i - 1) / 2
}

/// No item other than those at `hole` precedes its parent.
spec fn heap_but_at(items: Seq<Waiting>, hole: int) -> bool {
    forall|i: int|
        0 < i < items.len() && i != hole ==> !(#[trigger] items[i]).precedes(items[parent(i)])
}

/// No item other than the children of `hole` precedes its parent.
spec fn heap_but_under(items: Seq<Waiting>, hole: int) -> bool {
    forall|i: int|
        0 < i < items.len() && parent(i) != hole ==> !(#[trigger] items[i]).precedes(
            items[parent(i)],
        )
}

/// The children of `hole` do not precede the parent of `hole`.
spec fn bridges(items: Seq<Waiting>, hole: int) -> bool {
    forall|i: int|
        0 < i < items.len() && parent(i) == hole && 0 < hole ==> !(#[trigger] items[i]).precedes(
            items[parent(hole)],
        )
}

spec fn is_heap(items: Seq<Waiting>) -> bool {
    heap_but_at(items, -1)
}

proof fn lemma_root_is_first(items: Seq<Waiting>, i: int)
    requires
        is_heap(items),
        0 <= i < items.len(),
    ensures
        items[i] == items[0] || items[0].precedes(items[i]),
    decreases i,
{
    if i > 0 {
        lemma_root_is_first(items, parent(i));
        assert(!items[i].precedes(items[parent(i)]));
    }
}

proof fn lemma_swap_keeps_items(items: Seq<Waiting>, i: int, j: int)
    requires
        0 <= i < items.len(),
        0 <= j < items.len(),
    ensures
        items.update(i, items[j]).update(j, items[i]).to_multiset() == items.to_multiset(),
{
    broadcast use vstd::seq_lib::group_to_multiset_ensures;
    let half = items.update(i, items[j]);
    assert(half.update(j, items[i]).to_multiset() =~= items.to_multiset());
}

impl View for CollationOrder {
    type V = Multiset<Waiting>;

    closed spec fn view(&self) -> Multiset<Waiting> {
        self.items@.to_multiset()
    }
}

impl CollationOrder {
    #[verifier::type_invariant]
    spec fn well_formed(self) -> bool {
        is_heap(self.items@)
    }

    /// An order without messages.
    pub fn new() -> (order: CollationOrder)
        ensures
            order@ == Multiset::<Waiting>::empty(),
    {
        broadcast use vstd::seq_lib::group_to_multiset_ensures;
        let order = CollationOrder { items: Vec::new() };
        assert(order@.len() == 0);
        order
    }

    /// Adds a message.
    pub fn push(&mut self, item: Waiting)
        ensures
            final(self)@ == old(self)@.insert(item),
    {
        broadcast use vstd::seq_lib::group_to_multiset_ensures;
        proof {
            use_type_invariant(&*self);
        }
        let mut items: Vec<Waiting> = Vec::new();
        std::mem::swap(&mut self.items, &mut items);
        let ghost wanted = items@.to_multiset().insert(item);
        items.push(item);
        let mut hole: usize = items.len() - 1;
        while hole > 0 && items[hole].is_before(&items[(hole - 1) / 2])
            invariant
                0 <= hole < items.len(),
                items@.to_multiset() == wanted,
                heap_but_at(items@, hole as int),
                bridges(items@, hole as int),
            decreases hole,
        {
            let up: usize = (hole - 1) / 2;
            let ghost before = items@;
            let low = items[hole];
            let high = items[up];
            items.set(hole, high);
            items.set(up, low);
            proof {
                lemma_swap_keeps_items(before, hole as int, up as int);
            }
            hole = up;
        }
        assert(is_heap(items@));
        self.items = items;
    }

    /// Takes the first message, if there is one.
    pub fn pop(&mut self) -> (first: Option<Waiting>)
        ensures
            match first {
                Some(w) => is_first(old(self)@, w) && final(self)@ == old(self)@.remove(w),
                None => old(self)@.len() == 0 && final(self)@ == old(self)@,
            },
    {
        broadcast use vstd::seq_lib::group_to_multiset_ensures;
        proof {
            use_type_invariant(&*self);
        }
        let mut items: Vec<Waiting> = Vec::new();
        std::mem::swap(&mut self.items, &mut items);
        let ghost prior = items@;
        if items.len() == 0 {
            assert(items@ =~= Seq::<Waiting>::empty());
            return None;
        }
        let first = items[0];
        proof {
            assert(prior.to_multiset().count(prior[0]) > 0);
            assert forall|w: Waiting| #[trigger] prior.to_multiset().contains(w) implies w == first
                || first.precedes(w) by {
                assert(prior.contains(w));
                let i = prior.index_of(w);
                lemma_root_is_first(prior, i);
            }
        }
        items.swap_remove(0);
        proof {
            lemma_swap_keeps_items(prior, 0, prior.len() - 1);
            let swapped = prior.update(0, prior.last()).update(prior.len() - 1, prior[0]);
            assert(items@ =~= swapped.remove(swapped.len() - 1));
            assert(items@.to_multiset() == prior.to_multiset().remove(first));
        }
        let mut hole: usize = 0;
        let mut settled: bool = false;
        while !settled
            invariant
                0 <= hole <= items.len(),
                items.len() > 0 ==> hole < items.len(),
                items@.to_multiset() == prior.to_multiset().remove(first),
                heap_but_under(items@, hole as int),
                bridges(items@, hole as int),
                settled ==> is_heap(items@),
            decreases items.len() - hole, if settled { 0int } else { 1int },
        {
            let mut next: usize = hole;
            if hole < items.len() / 2 {
                let left: usize = 2 * hole + 1;
                if items[left].is_before(&items[next]) {
                    next = left;
                }
                if left + 1 < items.len() && items[left + 1].is_before(&items[next]) {
                    next = left + 1;
                }
            }
            if next == hole {
                settled = true;
                assert forall|i: int| 0 < i < items.len() implies !(#[trigger] items@[i]).precedes(
                    items@[parent(i)],
                ) by {
                    if parent(i) == hole {
                        assert(i == 2 * hole + 1 || i == 2 * hole + 2);
                    }
                }
            } else {
                let ghost before = items@;
                let high = items[hole];
                let low = items[next];
                items.set(hole, low);
                items.set(next, high);
                proof {
                    lemma_swap_keeps_items(before, hole as int, next as int);
                    lemma_sift_down(before, items@, hole as int, next as int);
                }
                hole = next;
            }
        }
        self.items = items;
        Some(first)
    }
}

proof fn lemma_sift_down(before: Seq<Waiting>, after: Seq<Waiting>, hole: int, next: int)
    requires
        0 <= hole < next < before.len(),
        parent(next) == hole,
        after == before.update(hole, before[next]).update(next, before[hole]),
        heap_but_under(before, hole),
        bridges(before, hole),
        before[next].precedes(before[hole]),
        forall|i: int|
            0 < i < before.len() && parent(i) == hole ==> !(#[trigger] before[i]).precedes(
                before[next],
            ),
    ensures
        heap_but_under(after, next),
        bridges(after, next),
{
    assert forall|i: int| 0 < i < after.len() && parent(i) != next implies !(
    #[trigger] after[i]).precedes(after[parent(i)]) by {
        if i == hole {
            assert(!before[next].precedes(before[parent(hole)]));
        } else if parent(i) == hole {
            assert(!before[i].precedes(before[next]));
        } else {
            assert(!before[i].precedes(before[parent(i)]));
        }
    }
    assert forall|i: int| 0 < i < after.len() && parent(i) == next && 0 < next implies !(
    #[trigger] after[i]).precedes(after[parent(next)]) by {
        assert(!before[i].precedes(before[parent(i)]));
    }
}

} // verus!
