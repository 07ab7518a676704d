//! The state of one queue: its status, the messages under collation, and their order.
use vstd::multiset::Multiset;
use vstd::prelude::*;

use crate::collation_order::is_first;
use crate::collation_order::CollationOrder;
use crate::collation_order::Waiting;
use crate::collation_set::ids_of;
use crate::collation_set::marks_of;
use crate::collation_set::CollationSet;
use crate::error::RmqError;
use crate::ident::UInt256;

verus! {

/// The life of a queue.
#[derive(Clone, Copy, Debug, PartialEq, Eq, PartialOrd, Ord, Hash, Structural)]
pub enum MessageQueueStatus {
    Created,
    Starting,
    Active,
    Stopping,
}

/// The state of a queue.
#[verifier::ext_equal]
pub struct QueueState {
    pub status: MessageQueueStatus,
    /// The messages under collation: marked if waiting for the collator, unmarked if already given
    /// to it.
    pub marks: Map<UInt256, bool>,
    /// The messages that wait for the collator.
    pub order: Multiset<Waiting>,
}

impl QueueState {
    /// The state of a queue that has just been created.
    pub open spec fn fresh() -> QueueState {
        QueueState {
            status: MessageQueueStatus::Created,
            marks: Map::empty(),
            order: Multiset::empty(),
        }
    }

    /// The message is in the collation set and waits for the collator.
    pub open spec fn is_waiting(self, id: UInt256) -> bool {
        self.marks.get(id) == Some(true)
    }

    /// The message may be put into the collation queue.
    pub open spec fn admits(self, id: UInt256, add_if_absent: bool) -> bool {
        self.marks.contains_key(id) || add_if_absent
    }

    /// The state after the message was offered to the collation queue.
    pub open spec fn after_add(self, id: UInt256, timestamp: u32, add_if_absent: bool) -> QueueState {
        if self.is_waiting(id) || !self.admits(id, add_if_absent) {
            self
        } else {
            QueueState {
                marks: self.marks.insert(id, true),
                order: self.order.insert(Waiting { timestamp, message_id: id }),
                ..self
            }
        }
    }

    /// The message that the collator gets next.
    pub open spec fn first(self) -> Waiting {
        choose|w: Waiting| is_first(self.order, w)
    }

    /// The state after the next message was given to the collator.
    pub open spec fn after_take(self) -> QueueState {
        if self.order.len() == 0 {
            self
        } else {
            QueueState {
                marks: self.marks.insert(self.first().message_id, false),
                order: self.order.remove(self.first()),
                ..self
            }
        }
    }

    /// What giving the next message to the collator yields.
    pub open spec fn taken(self) -> Result<Option<(UInt256, u32)>, RmqError> {
        if self.order.len() == 0 {
            Ok(None)
        } else {
            let id = self.first().message_id;
            match self.marks.get(id) {
                None => Err(RmqError::TakenButNotInSet(id)),
                Some(false) => Err(RmqError::AlreadyGivenToCollator(id)),
                Some(true) => Ok(Some((id, self.first().timestamp))),
            }
        }
    }

    /// Set and order agree: exactly the marked messages are in the order, each once.
    pub open spec fn consistent(self) -> bool {
        &&& self.marks.dom().finite()
        &&& forall|w: Waiting| #[trigger]
            self.order.contains(w) ==> self.order.count(w) == 1 && self.is_waiting(w.message_id)
        &&& forall|v: Waiting, w: Waiting| #[trigger]
            self.order.contains(v) && #[trigger] self.order.contains(w) && v.message_id
                == w.message_id ==> v == w
        &&& forall|id: UInt256| #[trigger]
            self.is_waiting(id) ==> exists|w: Waiting| #[trigger]
                self.order.contains(w) && w.message_id == id
    }
}

/// An order that is not empty has exactly one first message.
pub proof fn lemma_first_is_unique(order: Multiset<Waiting>, v: Waiting, w: Waiting)
    requires
        is_first(order, v),
        is_first(order, w),
    ensures
        v == w,
{
    assert(order.contains(v) && order.contains(w));
}

/// Offering a message keeps set and order in agreement.
pub proof fn lemma_add_keeps_consistent(
    state: QueueState,
    id: UInt256,
    timestamp: u32,
    add_if_absent: bool,
)
    requires
        state.consistent(),
    ensures
        state.after_add(id, timestamp, add_if_absent).consistent(),
{
    broadcast use vstd::multiset::group_multiset_axioms;
    let after = state.after_add(id, timestamp, add_if_absent);
    if !(state.is_waiting(id) || !state.admits(id, add_if_absent)) {
        let new = Waiting { timestamp, message_id: id };
        assert forall|w: Waiting| #[trigger] after.order.contains(w) implies after.order.count(w)
            == 1 && after.is_waiting(w.message_id) by {
            if w.message_id == id {
                assert(!state.order.contains(w));
            }
            if w != new {
                assert(state.order.contains(w));
            }
        }
        assert forall|v: Waiting, w: Waiting| #[trigger]
            after.order.contains(v) && #[trigger] after.order.contains(w) && v.message_id
                == w.message_id implies v == w by {
            if v != new {
                assert(state.order.contains(v));
            }
            if w != new {
                assert(state.order.contains(w));
            }
        }
        assert forall|k: UInt256| #[trigger] after.is_waiting(k) implies exists|w: Waiting|
         #[trigger]
            after.order.contains(w) && w.message_id == k by {
            if k == id {
                assert(after.order.contains(new));
            } else {
                assert(state.is_waiting(k));
                let w = choose|w: Waiting| #[trigger] state.order.contains(w) && w.message_id == k;
                assert(after.order.contains(w));
            }
        }
    }
}

/// Where set and order agree, the next message can be taken without an error, and they agree
/// afterwards.
pub proof fn lemma_take_keeps_consistent(state: QueueState, first: Waiting)
    requires
        state.consistent(),
        state.order.len() > 0,
        is_first(state.order, first),
    ensures
        state.first() == first,
        state.after_take().consistent(),
        state.taken() == Ok::<Option<(UInt256, u32)>, RmqError>(
            Some((first.message_id, first.timestamp)),
        ),
{
    broadcast use vstd::multiset::group_multiset_axioms;
    lemma_first_is_unique(state.order, state.first(), first);
    assert(state.order.contains(first));
    let after = state.after_take();
    assert forall|w: Waiting| #[trigger] after.order.contains(w) implies after.order.count(w) == 1
        && after.is_waiting(w.message_id) by {
        assert(state.order.contains(w));
        if w.message_id == first.message_id {
            assert(w == first);
        }
    }
    assert forall|v: Waiting, w: Waiting| #[trigger]
        after.order.contains(v) && #[trigger] after.order.contains(w) && v.message_id
            == w.message_id implies v == w by {
        assert(state.order.contains(v) && state.order.contains(w));
    }
    assert forall|k: UInt256| #[trigger] after.is_waiting(k) implies exists|w: Waiting| #[trigger]
        after.order.contains(w) && w.message_id == k by {
        assert(state.is_waiting(k));
        let w = choose|w: Waiting| #[trigger] state.order.contains(w) && w.message_id == k;
        assert(after.order.contains(w));
    }
}

/// The state of one queue.
pub struct MessageQueueImpl {
    status: MessageQueueStatus,
    pending_collation_set: CollationSet,
    pending_collation_order: CollationOrder,
}

impl View for MessageQueueImpl {
    type V = QueueState;

    closed spec fn view(&self) -> QueueState {
        QueueState {
            status: self.status,
            marks: self.pending_collation_set@,
            order: self.pending_collation_order@,
        }
    }
}

impl MessageQueueImpl {
    /// A queue that has just been created.
    pub fn new() -> (queue: MessageQueueImpl)
        ensures
            queue@ == QueueState::fresh(),
            queue@.consistent(),
    {
        broadcast use vstd::multiset::group_multiset_axioms;
        MessageQueueImpl {
            status: MessageQueueStatus::Created,
            pending_collation_set: CollationSet::new(),
            pending_collation_order: CollationOrder::new(),
        }
    }

    /// The status of the queue.
    pub fn status(&self) -> (status: MessageQueueStatus)
        ensures
            status == self@.status,
    {
        self.status
    }

    /// Changes the status of the queue.
    pub(crate) fn set_status(&mut self, status: MessageQueueStatus)
        ensures
            final(self)@ == (QueueState { status, ..old(self)@ }),
    {
        self.status = status;
    }

    /// Offers a message to the collation queue. A message that waits there already is left alone;
    /// one that is not in the collation set is added to it if `add_if_absent` says so, and refused
    /// otherwise. Gives whether the message was put into the queue, and the size of the set.
    pub fn add_to_collation_queue(
        &mut self,
        message_id: &UInt256,
        timestamp: u32,
        add_if_absent: bool,
    ) -> (result: Result<(bool, usize), RmqError>)
        ensures
            final(self)@ == old(self)@.after_add(*message_id, timestamp, add_if_absent),
            match result {
                Ok((added, len)) => {
                    &&& old(self)@.admits(*message_id, add_if_absent)
                    &&& added == !old(self)@.is_waiting(*message_id)
                    &&& len == final(self)@.marks.len()
                },
                Err(e) => {
                    &&& !old(self)@.admits(*message_id, add_if_absent)
                    &&& e == RmqError::NotInCollationSet(*message_id)
                },
            },
            old(self)@.consistent() ==> final(self)@.consistent(),
    {
        proof {
            if old(self)@.consistent() {
                lemma_add_keeps_consistent(old(self)@, *message_id, timestamp, add_if_absent);
            }
        }
        match self.pending_collation_set.get(message_id) {
            Some(true) => Ok((false, self.pending_collation_set.len())),
            Some(false) => {
                self.pending_collation_order.push(Waiting { timestamp, message_id: *message_id });
                self.pending_collation_set.insert(*message_id, true);
                Ok((true, self.pending_collation_set.len()))
            },
            None => if add_if_absent {
                self.pending_collation_set.insert(*message_id, true);
                self.pending_collation_order.push(Waiting { timestamp, message_id: *message_id });
                Ok((true, self.pending_collation_set.len()))
            } else {
                Err(RmqError::NotInCollationSet(*message_id))
            },
        }
    }

    /// Takes the next message from the collation queue, to give it to the collator. The message
    /// stays in the collation set.
    pub fn take_first_for_collation(&mut self) -> (result: Result<Option<(UInt256, u32)>, RmqError>)
        ensures
            final(self)@ == old(self)@.after_take(),
            result == old(self)@.taken(),
            old(self)@.order.len() > 0 ==> is_first(old(self)@.order, old(self)@.first()),
            old(self)@.consistent() ==> final(self)@.consistent() && result is Ok,
    {
        broadcast use vstd::multiset::group_multiset_axioms;
        match self.pending_collation_order.pop() {
            Some(w) => {
                proof {
                    lemma_first_is_unique(old(self)@.order, old(self)@.first(), w);
                    if old(self)@.consistent() {
                        lemma_take_keeps_consistent(old(self)@, w);
                    }
                }
                let id = w.message_id;
                match self.pending_collation_set.insert(id, false) {
                    None => Err(RmqError::TakenButNotInSet(id)),
                    Some(false) => Err(RmqError::AlreadyGivenToCollator(id)),
                    Some(true) => Ok(Some((id, w.timestamp))),
                }
            },
            None => Ok(None),
        }
    }

    /// The messages of the collation set, each once.
    pub fn list_pending_for_forwarding(&mut self) -> (result: Result<Vec<UInt256>, RmqError>)
        ensures
            final(self)@ == old(self)@,
            match result {
                Ok(ids) => ids@.no_duplicates() && ids@.to_set() == old(self)@.marks.dom(),
                Err(_) => false,
            },
    {
        Ok(self.pending_collation_set.keys())
    }

    /// The messages of the collation set with their marks, each once.
    pub fn list_with_marks(&self) -> (entries: Vec<(UInt256, bool)>)
        ensures
            ids_of(entries@).no_duplicates(),
            marks_of(entries@) == self@.marks,
    {
        self.pending_collation_set.to_vec()
    }

    /// The size of the collation set.
    pub fn count(&self) -> (count: usize)
        ensures
            count == self@.marks.len(),
            self@.marks.dom().finite(),
    {
        self.pending_collation_set.len()
    }
}

} // verus!
