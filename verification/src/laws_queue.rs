//! What holds of a queue whatever happens to it.
use vstd::multiset::Multiset;
use vstd::prelude::*;

use crate::collation::collect_goes;
use crate::collation::receipt_leaves;
use crate::collation::requeue_leaves;
use crate::collation::requeue_result;
use crate::collation::CollectEvent;
use crate::collation::CollectStep;
use crate::collation::ReceiptEvent;
use crate::collation_order::is_first;
use crate::collation_order::Waiting;
use crate::collation_set::ids_of;
use crate::collation_set::marks_of;
use crate::error::RmqError;
use crate::ident::UInt256;
use crate::laws_status::collated_before;
use crate::message::RmqMessage;
use crate::message_queue::start_goes;
use crate::message_queue::stop_goes;
use crate::message_queue::MessageQueue;
use crate::message_queue::RempCatchainInfo;
use crate::message_queue::StartEvent;
use crate::message_queue::StartStep;
use crate::message_queue::StopStep;
use crate::poll::add_leaves;
use crate::poll::poll_goes;
use crate::poll::AddEvent;
use crate::poll::PollEvent;
use crate::poll::PollStep;
use crate::queue_impl::lemma_add_keeps_consistent;
use crate::queue_impl::lemma_take_keeps_consistent;
use crate::queue_impl::MessageQueueImpl;
use crate::queue_impl::MessageQueueStatus;
use crate::queue_impl::QueueState;

verus! {

/// An order with messages has a first one.
pub proof fn law_nonempty_order_has_first(order: Multiset<Waiting>)
    requires
        order.len() > 0,
    ensures
        exists|w: Waiting| is_first(order, w),
    decreases order.len(),
{
    broadcast use vstd::multiset::group_multiset_axioms;
    let some = order.choose();
    assert(order.contains(some));
    let rest = order.remove(some);
    if rest.len() == 0 {
        assert forall|w: Waiting| #[trigger] order.contains(w) implies w == some || some.precedes(
            w,
        ) by {
            if w != some {
                assert(rest.count(w) > 0);
            }
        }
        assert(is_first(order, some));
    } else {
        law_nonempty_order_has_first(rest);
        let best = choose|w: Waiting| is_first(rest, w);
        assert(rest.contains(best));
        if some.precedes(best) || some == best {
            assert forall|w: Waiting| #[trigger] order.contains(w) implies w == some
                || some.precedes(w) by {
                if w != some {
                    assert(rest.contains(w));
                }
            }
            assert(is_first(order, some));
        } else {
            assert forall|w: Waiting| #[trigger] order.contains(w) implies w == best
                || best.precedes(w) by {
                if w != some {
                    assert(rest.contains(w));
                }
            }
            assert(is_first(order, best));
        }
    }
}

proof fn lemma_take_shrinks(state: QueueState)
    ensures
        state.order.len() > 0 ==> is_first(state.order, state.first()),
        state.order.len() > 0 ==> state.after_take().order.len() == state.order.len() - 1,
{
    broadcast use vstd::multiset::group_multiset_axioms;
    if state.order.len() > 0 {
        law_nonempty_order_has_first(state.order);
        assert(state.order.contains(state.first()));
    }
}

/// The messages that come out of the collation queue when it is emptied, in their order.
pub open spec fn drained(state: QueueState) -> Seq<Waiting>
    decreases state.order.len(),
    via drained_shrinks
{
    if state.order.len() == 0 {
        Seq::empty()
    } else {
        seq![state.first()] + drained(state.after_take())
    }
}

#[via_fn]
proof fn drained_shrinks(state: QueueState) {
    lemma_take_shrinks(state);
}

/// The state of a queue whose collation queue has been emptied.
pub open spec fn emptied(state: QueueState) -> QueueState
    decreases state.order.len(),
    via emptied_shrinks
{
    if state.order.len() == 0 {
        state
    } else {
        emptied(state.after_take())
    }
}

#[via_fn]
proof fn emptied_shrinks(state: QueueState) {
    lemma_take_shrinks(state);
}

/// Emptying the collation queue gives every waiting message exactly once, and nothing else, in the
/// order of collation. Afterwards no message waits, and the collation set has the messages that it
/// had.
pub proof fn law_emptying(state: QueueState)
    requires
        state.consistent(),
    ensures
        drained(state).to_multiset() == state.order,
        forall|i: int, j: int|
            0 <= i < j < drained(state).len() ==> (#[trigger] drained(state)[i]).precedes(
                #[trigger] drained(state)[j],
            ),
        forall|id: UInt256|
            state.is_waiting(id) <==> exists|i: int|
                0 <= i < drained(state).len() && (#[trigger] drained(state)[i]).message_id == id,
        emptied(state).order.len() == 0,
        emptied(state).consistent(),
        emptied(state).status == state.status,
        emptied(state).marks.dom() == state.marks.dom(),
        forall|id: UInt256| !#[trigger] emptied(state).is_waiting(id),
    decreases state.order.len(),
{
    broadcast use {
        vstd::multiset::group_multiset_axioms,
        vstd::seq_lib::group_to_multiset_ensures,
    };
    let out = drained(state);
    if state.order.len() == 0 {
        assert(out =~= Seq::empty());
        assert(out.to_multiset() =~= state.order);
        assert forall|id: UInt256| !#[trigger] state.is_waiting(id) by {
            if state.is_waiting(id) {
                let w = choose|w: Waiting| #[trigger] state.order.contains(w) && w.message_id == id;
                assert(state.order.count(w) > 0);
            }
        }
    } else {
        law_nonempty_order_has_first(state.order);
        let first = state.first();
        assert(is_first(state.order, first));
        assert(state.order.contains(first));
        lemma_take_keeps_consistent(state, first);
        let next = state.after_take();
        law_emptying(next);
        let rest = drained(next);
        assert(out =~= rest.insert(0, first));
        assert(out.to_multiset() =~= state.order);
        assert forall|i: int, j: int| 0 <= i < j < out.len() implies (#[trigger] out[i]).precedes(
            #[trigger] out[j],
        ) by {
            assert(out[j] == rest[j - 1]);
            if i == 0 {
                assert(rest.contains(rest[j - 1]));
                assert(next.order.contains(rest[j - 1]));
                assert(state.order.contains(rest[j - 1]));
                assert(next.order.count(first) == 0);
            } else {
                assert(out[i] == rest[i - 1]);
            }
        }
        assert(next.marks.dom() =~= state.marks.dom()) by {
            assert(state.is_waiting(first.message_id));
        }
        assert forall|id: UInt256|
            state.is_waiting(id) <==> exists|i: int|
                0 <= i < out.len() && (#[trigger] out[i]).message_id == id by {
            if state.is_waiting(id) {
                if id == first.message_id {
                    assert(out[0].message_id == id);
                } else {
                    assert(next.is_waiting(id));
                    let k = choose|k: int|
                        0 <= k < rest.len() && (#[trigger] rest[k]).message_id == id;
                    assert(out[k + 1].message_id == id);
                }
            }
            if exists|i: int| 0 <= i < out.len() && (#[trigger] out[i]).message_id == id {
                let i = choose|i: int| 0 <= i < out.len() && (#[trigger] out[i]).message_id == id;
                assert(out.contains(out[i]));
                assert(state.order.contains(out[i]));
            }
        }
    }
}

/// Offering a message a second time changes nothing.
pub proof fn law_second_offer_is_skipped(
    state: QueueState,
    id: UInt256,
    timestamp: u32,
    later: u32,
    add_if_absent: bool,
)
    ensures
        state.after_add(id, timestamp, add_if_absent).after_add(id, later, add_if_absent)
            == state.after_add(id, timestamp, add_if_absent),
{
}

/// A message that was put into the collation queue is skipped when it is offered again, whatever is
/// said of absent messages the second time.
pub proof fn law_admitted_message_is_skipped(
    state: QueueState,
    id: UInt256,
    timestamp: u32,
    later: u32,
    add_if_absent: bool,
    add_if_absent_later: bool,
)
    requires
        state.admits(id, add_if_absent),
    ensures
        state.after_add(id, timestamp, add_if_absent).after_add(id, later, add_if_absent_later)
            == state.after_add(id, timestamp, add_if_absent),
{
}

/// A message that was taken for collation can be put back, and then waits as it did before.
pub proof fn law_taken_message_can_return(state: QueueState)
    requires
        state.consistent(),
        state.order.len() > 0,
    ensures
        state.after_take().after_add(
            state.first().message_id,
            state.first().timestamp,
            false,
        ) == state,
{
    broadcast use vstd::multiset::group_multiset_axioms;
    law_nonempty_order_has_first(state.order);
    let first = state.first();
    assert(state.order.contains(first));
    assert(state.is_waiting(first.message_id));
    let back = state.after_take().after_add(first.message_id, first.timestamp, false);
    assert(back.marks =~= state.marks);
    assert(back.order =~= state.order);
}

/// Some step of an operation of the queue leads from one state to the other.
pub open spec fn queue_moves(info: RempCatchainInfo, pre: QueueState, post: QueueState) -> bool {
    ||| exists|event: StartEvent, step: StartStep| start_goes(pre, event, post, step)
    ||| exists|result: Result<StopStep, RmqError>| stop_goes(info, pre, post, result)
    ||| exists|event: AddEvent| post == add_leaves(pre, event)
    ||| exists|event: PollEvent, step: PollStep| poll_goes(info, pre, event, post, step)
    ||| exists|event: CollectEvent, step: CollectStep| collect_goes(info, pre, event, post, step)
    ||| exists|event: ReceiptEvent| post == receipt_leaves(pre, event)
    ||| exists|id: UInt256, message: Option<RmqMessage>, add_if_absent: bool|
        post == requeue_leaves(pre, id, message, add_if_absent)
}

/// The place of a status in the life of a queue.
pub open spec fn age(status: MessageQueueStatus) -> int {
    match status {
        MessageQueueStatus::Created => 0,
        MessageQueueStatus::Starting => 1,
        MessageQueueStatus::Active => 2,
        MessageQueueStatus::Stopping => 3,
    }
}

/// What no step undoes: set and order agree, no message leaves the collation set, and the queue
/// does not return to an earlier part of its life.
pub proof fn law_step(info: RempCatchainInfo, pre: QueueState, post: QueueState)
    requires
        queue_moves(info, pre, post),
        pre.consistent(),
    ensures
        post.consistent(),
        pre.marks.dom().subset_of(post.marks.dom()),
        age(pre.status) <= age(post.status),
        post.status == pre.status || (post.marks == pre.marks && post.order == pre.order),
{
    if exists|event: StartEvent, step: StartStep| start_goes(pre, event, post, step) {
        lemma_status_only(pre, post);
    } else if exists|result: Result<StopStep, RmqError>| stop_goes(info, pre, post, result) {
        lemma_status_only(pre, post);
    } else if exists|event: AddEvent| post == add_leaves(pre, event) {
        let event = choose|event: AddEvent| post == add_leaves(pre, event);
        lemma_add_step(pre, event);
    } else if exists|event: PollEvent, step: PollStep| poll_goes(info, pre, event, post, step) {
        let (event, step) = choose|event: PollEvent, step: PollStep|
            poll_goes(info, pre, event, post, step);
        match event {
            PollEvent::Registered { message, reply: Ok(None), .. } => {
                lemma_add_step(
                    pre,
                    AddEvent::Called {
                        message,
                        status_to_send: Some(crate::status::RempMessageStatus::RempNew),
                    },
                );
            },
            PollEvent::Downgraded { message, new_status, reply: Ok(_) } => {
                lemma_add_step(
                    pre,
                    AddEvent::Called { message, status_to_send: Some(new_status) },
                );
            },
            PollEvent::Adding(event) => {
                lemma_add_step(pre, event);
            },
            _ => {},
        }
    } else if exists|event: CollectEvent, step: CollectStep|
        collect_goes(info, pre, event, post, step) {
        assert(post == pre || post == pre.after_take());
        if pre.order.len() > 0 {
            law_nonempty_order_has_first(pre.order);
            lemma_take_keeps_consistent(pre, pre.first());
        }
    } else if exists|event: ReceiptEvent| post == receipt_leaves(pre, event) {
        let event = choose|event: ReceiptEvent| post == receipt_leaves(pre, event);
        if let ReceiptEvent::Found { result, message: Some(message) } = event {
            lemma_add_keeps_consistent(pre, result.message_id, message.timestamp, false);
        }
    } else {
        let (id, message, add_if_absent) = choose|
            id: UInt256,
            message: Option<RmqMessage>,
            add_if_absent: bool,
        |
            post == requeue_leaves(pre, id, message, add_if_absent);
        if let Some(message) = message {
            lemma_add_keeps_consistent(pre, id, message.timestamp, add_if_absent);
        }
    }
}

proof fn lemma_status_only(pre: QueueState, post: QueueState)
    requires
        pre.consistent(),
        post.marks == pre.marks,
        post.order == pre.order,
    ensures
        post.consistent(),
{
    assert forall|id: UInt256| #[trigger] post.is_waiting(id) implies exists|w: Waiting| #[trigger]
        post.order.contains(w) && w.message_id == id by {
        assert(pre.is_waiting(id));
    }
    assert forall|w: Waiting| #[trigger] post.order.contains(w) implies post.order.count(w) == 1
        && post.is_waiting(w.message_id) by {
        assert(pre.order.contains(w));
        assert(pre.is_waiting(w.message_id));
    }
}

proof fn lemma_add_step(pre: QueueState, event: AddEvent)
    requires
        pre.consistent(),
    ensures
        add_leaves(pre, event).consistent(),
        pre.marks.dom().subset_of(add_leaves(pre, event).marks.dom()),
        add_leaves(pre, event).status == pre.status,
{
    if let AddEvent::Called { message, .. } = event {
        lemma_add_keeps_consistent(pre, message.message_id, message.timestamp, true);
    }
}

/// A history of a queue: its states from its creation on, each reached from the one before by some
/// step.
pub open spec fn is_history(info: RempCatchainInfo, states: Seq<QueueState>) -> bool {
    &&& states.len() > 0
    &&& states[0] == QueueState::fresh()
    &&& forall|i: int| #![trigger states[i]]
        0 < i < states.len() ==> queue_moves(info, states[i - 1], states[i])
}

/// In every history of a queue, set and order agree at all times, so that taking a message never
/// fails; no message leaves the collation set; and the queue does not return to an earlier part of
/// its life.
pub proof fn law_history(info: RempCatchainInfo, states: Seq<QueueState>, i: int, j: int)
    requires
        is_history(info, states),
        0 <= i <= j < states.len(),
    ensures
        states[i].consistent(),
        states[i].taken() is Ok,
        states[i].marks.dom().subset_of(states[j].marks.dom()),
        states[i].marks.len() <= states[j].marks.len(),
        age(states[i].status) <= age(states[j].status),
    decreases j,
{
    broadcast use vstd::multiset::group_multiset_axioms;
    if i == j {
        if i == 0 {
            assert(states[0].consistent());
        } else {
            law_history(info, states, i - 1, i - 1);
            assert(states[i] == states[i]);
            law_step(info, states[i - 1], states[i]);
        }
        if states[i].order.len() > 0 {
            law_nonempty_order_has_first(states[i].order);
            lemma_take_keeps_consistent(states[i], states[i].first());
        }
    } else {
        law_history(info, states, i, j - 1);
        law_history(info, states, j - 1, j - 1);
        assert(states[j] == states[j]);
        law_step(info, states[j - 1], states[j]);
        vstd::set_lib::lemma_len_subset(states[j - 1].marks.dom(), states[j].marks.dom());
    }
}

/// A queue is started at most once: after it was, `start` is refused with the status that the queue
/// has, and changes nothing.
pub proof fn law_started_once(
    info: RempCatchainInfo,
    states: Seq<QueueState>,
    i: int,
    j: int,
    first_step: StartStep,
    post: QueueState,
    step: StartStep,
)
    requires
        is_history(info, states),
        0 < i <= j < states.len(),
        start_goes(states[i - 1], StartEvent::Called, states[i], first_step),
        start_goes(states[j], StartEvent::Called, post, step),
    ensures
        post == states[j],
        step == StartStep::Return(
            Err(
                RmqError::WrongQueueStatus {
                    actual: states[j].status,
                    required: MessageQueueStatus::Created,
                },
            ),
        ),
{
    law_history(info, states, i, j);
}

/// A queue that is being stopped stays so: it can be neither started nor stopped again.
pub proof fn law_stopping_is_final(
    info: RempCatchainInfo,
    states: Seq<QueueState>,
    i: int,
    j: int,
    started: QueueState,
    start_step: StartStep,
    stopped: QueueState,
    result: Result<StopStep, RmqError>,
)
    requires
        is_history(info, states),
        0 <= i <= j < states.len(),
        states[i].status == MessageQueueStatus::Stopping,
        start_goes(states[j], StartEvent::Called, started, start_step),
        stop_goes(info, states[j], stopped, result),
    ensures
        started == states[j],
        start_step is Return && start_step->Return_0 is Err,
        stopped == states[j],
        result == Err::<StopStep, RmqError>(RmqError::AlreadyStopping),
{
    law_history(info, states, i, j);
}

/// The catchain is stopped only if the queue is active, and then the queue is being stopped.
pub proof fn law_catchain_is_stopped_when_active(
    info: RempCatchainInfo,
    pre: QueueState,
    post: QueueState,
    result: Result<StopStep, RmqError>,
)
    requires
        stop_goes(info, pre, post, result),
    ensures
        (result matches Ok(step) && step is StopCatchain) <==> pre.status
            == MessageQueueStatus::Active,
        result matches Ok(step) && !(step is Wait) ==> post.status == MessageQueueStatus::Stopping,
{
}

/// Starting a created queue whose services do not fail, and that nobody stops meanwhile, makes it
/// active.
pub proof fn law_start_activates(
    created: QueueState,
    starting: QueueState,
    unchanged: QueueState,
    active: QueueState,
    s1: StartStep,
    s2: StartStep,
    s3: StartStep,
)
    requires
        created.status == MessageQueueStatus::Created,
        start_goes(created, StartEvent::Called, starting, s1),
        start_goes(starting, StartEvent::CatchainStarted(Ok(())), unchanged, s2),
        start_goes(unchanged, StartEvent::InstanceInitialised(Ok(())), active, s3),
    ensures
        s1 == StartStep::StartCatchain,
        s2 == StartStep::InitInstance,
        s3 == StartStep::Return(Ok(())),
        starting.status == MessageQueueStatus::Starting,
        active == (QueueState { status: MessageQueueStatus::Active, ..created }),
{
}

/// Putting a message into the collation queue makes it wait there, or is refused.
pub proof fn law_offered_message_waits(
    pre: QueueState,
    id: UInt256,
    message: RmqMessage,
    add_if_absent: bool,
)
    ensures
        requeue_result(pre, id, Some(message), add_if_absent) is Ok ==> requeue_leaves(
            pre,
            id,
            Some(message),
            add_if_absent,
        ).is_waiting(id),
        requeue_result(pre, id, Some(message), add_if_absent) is Err ==> requeue_leaves(
            pre,
            id,
            Some(message),
            add_if_absent,
        ) == pre,
{
}

/// A message that was under collation at some time can return to the collation queue at any later
/// time, if the message cache has it.
pub proof fn law_known_message_can_return(
    info: RempCatchainInfo,
    states: Seq<QueueState>,
    i: int,
    j: int,
    id: UInt256,
    message: RmqMessage,
    add_if_absent: bool,
)
    requires
        is_history(info, states),
        0 <= i <= j < states.len(),
        states[i].marks.contains_key(id),
    ensures
        requeue_result(states[j], id, Some(message), add_if_absent) is Ok,
        requeue_leaves(states[j], id, Some(message), add_if_absent).is_waiting(id),
{
    law_history(info, states, i, j);
}

/// `first` waits, and every other waiting message is given to the collator later.
pub open spec fn is_earliest(order: Multiset<Waiting>, first: Waiting) -> bool {
    &&& order.contains(first)
    &&& forall|w: Waiting| #[trigger] order.contains(w) ==> w == first || collated_before(first, w)
}

/// The message was put into the collation queue, and nothing else has changed.
pub open spec fn is_put_into_queue(
    pre: QueueState,
    id: UInt256,
    timestamp: u32,
    post: QueueState,
) -> bool {
    &&& post.status == pre.status
    &&& post.marks == pre.marks.insert(id, true)
    &&& post.order == pre.order.insert(Waiting { timestamp, message_id: id })
}

/// A message is put into the collation queue exactly if it is under collation without waiting, or is
/// not under collation and may be added. Otherwise nothing changes.
pub proof fn law_offering(state: QueueState, id: UInt256, timestamp: u32, add_if_absent: bool)
    ensures
        match state.marks.get(id) {
            Some(true) => state.after_add(id, timestamp, add_if_absent) == state,
            Some(false) => is_put_into_queue(
                state,
                id,
                timestamp,
                state.after_add(id, timestamp, add_if_absent),
            ),
            None => if add_if_absent {
                is_put_into_queue(
                    state,
                    id,
                    timestamp,
                    state.after_add(id, timestamp, add_if_absent),
                )
            } else {
                state.after_add(id, timestamp, add_if_absent) == state
            },
        },
        state.is_waiting(id) <==> state.marks.contains_key(id) && state.marks[id],
        state.admits(id, add_if_absent) <==> state.marks.contains_key(id) || add_if_absent,
{
}

/// Offering a message to the collation queue tells whether it was put there, and how many messages
/// are under collation; it is refused exactly if the message is absent and may not be added.
pub proof fn law_offering_is_answered(
    queue: &mut MessageQueueImpl,
    id: UInt256,
    timestamp: u32,
    add_if_absent: bool,
    result: Result<(bool, usize), RmqError>,
)
    requires
        call_ensures(
            MessageQueueImpl::add_to_collation_queue,
            (queue, &id, timestamp, add_if_absent),
            result,
        ),
    ensures
        match old(queue)@.marks.get(id) {
            Some(true) => final(queue)@ == old(queue)@ && (result matches Ok((added, len)) && !added
                && len == old(queue)@.marks.len()),
            Some(false) => is_put_into_queue(old(queue)@, id, timestamp, final(queue)@) && (
            result matches Ok((added, len)) && added && len == final(queue)@.marks.len()),
            None => if add_if_absent {
                is_put_into_queue(old(queue)@, id, timestamp, final(queue)@) && (result matches Ok(
                    (added, len),
                ) && added && len == final(queue)@.marks.len())
            } else {
                final(queue)@ == old(queue)@ && result == Err::<(bool, usize), RmqError>(
                    RmqError::NotInCollationSet(id),
                )
            },
        },
{
    law_offering(queue@, id, timestamp, add_if_absent);
}

/// The earliest waiting message was taken from the collation queue and stays under collation, given
/// to the collator; nothing else has changed. The result names it, unless its mark was wrong.
pub open spec fn takes_earliest(
    pre: QueueState,
    post: QueueState,
    result: Result<Option<(UInt256, u32)>, RmqError>,
) -> bool {
    exists|w: Waiting|
        {
            &&& #[trigger] is_earliest(pre.order, w)
            &&& post.status == pre.status
            &&& post.marks == pre.marks.insert(w.message_id, false)
            &&& post.order == pre.order.remove(w)
            &&& result == match pre.marks.get(w.message_id) {
                Some(true) => Ok(Some((w.message_id, w.timestamp))),
                Some(false) => Err(RmqError::AlreadyGivenToCollator(w.message_id)),
                None => Err(RmqError::TakenButNotInSet(w.message_id)),
            }
        }
}

/// Taking a message gives the earliest one that waits, and nothing if none waits.
pub proof fn law_earliest_is_taken(state: QueueState)
    ensures
        state.order.len() == 0 ==> state.after_take() == state && state.taken() == Ok::<
            Option<(UInt256, u32)>,
            RmqError,
        >(None),
        state.order.len() > 0 ==> takes_earliest(state, state.after_take(), state.taken()),
{
    if state.order.len() > 0 {
        law_nonempty_order_has_first(state.order);
        let first = state.first();
        assert(is_first(state.order, first));
        assert(is_earliest(state.order, first));
    }
}

/// Taking a message from a queue gives the earliest one that waits there, and nothing if none waits.
pub proof fn law_taking_is_answered(
    queue: &mut MessageQueueImpl,
    result: Result<Option<(UInt256, u32)>, RmqError>,
)
    requires
        call_ensures(MessageQueueImpl::take_first_for_collation, (queue,), result),
    ensures
        old(queue)@.order.len() == 0 ==> final(queue)@ == old(queue)@ && result == Ok::<
            Option<(UInt256, u32)>,
            RmqError,
        >(None),
        old(queue)@.order.len() > 0 ==> takes_earliest(old(queue)@, final(queue)@, result),
{
    law_earliest_is_taken(queue@);
}

/// The messages listed for forwarding are those under collation, each once, whether they wait or
/// not; listing changes nothing and does not fail.
pub proof fn law_listing_names_the_set(
    queue: &mut MessageQueue,
    result: Result<Vec<UInt256>, RmqError>,
    id: UInt256,
)
    requires
        call_ensures(MessageQueue::list_pending_for_forwarding, (queue,), result),
    ensures
        final(queue)@ == old(queue)@,
        final(queue).info() == old(queue).info(),
        result is Ok,
        result->Ok_0@.no_duplicates(),
        result->Ok_0@.contains(id) <==> old(queue)@.marks.contains_key(id),
{
    let ids = result->Ok_0@;
    assert(ids.contains(id) <==> ids.to_set().contains(id));
}

/// The messages listed with their marks are those under collation, each once and with its mark.
pub proof fn law_marks_are_listed(
    queue: MessageQueueImpl,
    entries: Vec<(UInt256, bool)>,
    id: UInt256,
    mark: bool,
)
    requires
        call_ensures(MessageQueueImpl::list_with_marks, (&queue,), entries),
    ensures
        entries@.contains((id, mark)) <==> queue@.marks.get(id) == Some(mark),
        forall|i: int, j: int|
            0 <= i < j < entries.len() ==> (#[trigger] entries@[i]).0 != (#[trigger] entries@[j]).0,
{
    law_marks_of_entries(entries@, id, mark);
    assert forall|i: int, j: int| 0 <= i < j < entries.len() implies (#[trigger] entries@[i]).0 != (
    #[trigger] entries@[j]).0 by {
        assert(ids_of(entries@)[i] == entries@[i].0);
        assert(ids_of(entries@)[j] == entries@[j].0);
    }
}

/// A list of entries with distinct identifiers stands for the map that has exactly these entries.
pub proof fn law_marks_of_entries(entries: Seq<(UInt256, bool)>, id: UInt256, mark: bool)
    requires
        ids_of(entries).no_duplicates(),
    ensures
        entries.contains((id, mark)) <==> marks_of(entries).get(id) == Some(mark),
        ids_of(entries).len() == entries.len(),
        forall|i: int| 0 <= i < entries.len() ==> #[trigger] ids_of(entries)[i] == entries[i].0,
{
    let ids = ids_of(entries);
    if entries.contains((id, mark)) {
        let i = entries.index_of((id, mark));
        assert(ids[i] == id);
        assert(ids[ids.index_of(id)] == id);
    }
    if marks_of(entries).get(id) == Some(mark) {
        let i = ids.index_of(id);
        assert(ids[i] == id);
        assert(entries[i] == (id, mark));
    }
}

/// A queue counts the messages under collation.
pub proof fn law_messages_are_counted(queue: MessageQueue, count: usize)
    requires
        call_ensures(MessageQueue::received_messages_count, (&queue,), count),
    ensures
        count == queue@.marks.dom().len(),
{
}

/// A queue is created exactly for a catchain that could be described; it belongs to that catchain,
/// has no messages, and is not started. Otherwise creating it fails as describing did.
pub proof fn law_creation(
    info: Result<RempCatchainInfo, RmqError>,
    result: Result<MessageQueue, RmqError>,
)
    requires
        call_ensures(MessageQueue::create, (info,), result),
    ensures
        result is Ok <==> info is Ok,
        result matches Ok(queue) ==> {
            &&& queue.info() == info->Ok_0
            &&& queue@.status == MessageQueueStatus::Created
            &&& queue@.marks.dom() == Set::<UInt256>::empty()
            &&& queue@.order.len() == 0
        },
        result matches Err(e) ==> e == info->Err_0,
        QueueState::fresh().status == MessageQueueStatus::Created,
        QueueState::fresh().marks.dom() == Set::<UInt256>::empty(),
        QueueState::fresh().order.len() == 0,
{
    broadcast use vstd::multiset::group_multiset_axioms;
}

/// Starting takes a queue from created over starting to active, and asks for the catchain and its
/// instance in between. It is refused with the status that the queue has, fails as the services
/// fail, and leaves the messages alone.
pub proof fn law_starting(queue: &mut MessageQueue, event: StartEvent, step: StartStep)
    requires
        call_ensures(MessageQueue::start, (queue, event), step),
    ensures
        final(queue).info() == old(queue).info(),
        final(queue)@.marks == old(queue)@.marks,
        final(queue)@.order == old(queue)@.order,
        match event {
            StartEvent::Called => if old(queue)@.status == MessageQueueStatus::Created {
                &&& step == StartStep::StartCatchain
                &&& final(queue)@.status == MessageQueueStatus::Starting
            } else {
                &&& step matches StartStep::Return(Err(
                    RmqError::WrongQueueStatus { actual, required },
                ))
                &&& actual == old(queue)@.status
                &&& required == MessageQueueStatus::Created
                &&& final(queue)@.status == old(queue)@.status
            },
            StartEvent::CatchainStarted(Ok(_)) => {
                &&& step == StartStep::InitInstance
                &&& final(queue)@.status == old(queue)@.status
            },
            StartEvent::CatchainStarted(Err(text)) => {
                &&& step == StartStep::Return(Err(RmqError::Service(text)))
                &&& final(queue)@.status == old(queue)@.status
            },
            StartEvent::InstanceInitialised(Ok(_)) => if old(queue)@.status
                == MessageQueueStatus::Starting {
                &&& step == StartStep::Return(Ok(()))
                &&& final(queue)@.status == MessageQueueStatus::Active
            } else {
                &&& step matches StartStep::Return(Err(
                    RmqError::WrongQueueStatus { actual, required },
                ))
                &&& actual == old(queue)@.status
                &&& required == MessageQueueStatus::Starting
                &&& final(queue)@.status == old(queue)@.status
            },
            StartEvent::InstanceInitialised(Err(text)) => {
                &&& step == StartStep::Return(Err(RmqError::Service(text)))
                &&& final(queue)@.status == old(queue)@.status
            },
        },
{
}

/// Stopping succeeds exactly if the queue is created or active, and then makes it a stopping one; the
/// catchain that is to be stopped is the queue's own, and only an active queue's. A starting queue is
/// waited for, and a stopping one refuses. The messages are left alone.
pub proof fn law_stopping(queue: &mut MessageQueue, result: Result<StopStep, RmqError>)
    requires
        call_ensures(MessageQueue::stop, (queue,), result),
    ensures
        final(queue).info() == old(queue).info(),
        final(queue)@.marks == old(queue)@.marks,
        final(queue)@.order == old(queue)@.order,
        final(queue)@.status == match old(queue)@.status {
            MessageQueueStatus::Starting => MessageQueueStatus::Starting,
            _ => MessageQueueStatus::Stopping,
        },
        result == match old(queue)@.status {
            MessageQueueStatus::Created => Ok(StopStep::Return),
            MessageQueueStatus::Starting => Ok(StopStep::Wait),
            MessageQueueStatus::Active => Ok(
                StopStep::StopCatchain { queue_id: old(queue).info().queue_id },
            ),
            MessageQueueStatus::Stopping => Err(RmqError::AlreadyStopping),
        },
{
}

/// What a queue and its state tell of themselves is what they have.
pub proof fn law_queue_shows_its_state(
    queue: MessageQueue,
    info: &RempCatchainInfo,
    state: MessageQueueImpl,
    status: MessageQueueStatus,
    count: usize,
    new: MessageQueueImpl,
)
    requires
        call_ensures(MessageQueue::catchain_info, (&queue,), info),
        call_ensures(MessageQueueImpl::status, (&state,), status),
        call_ensures(MessageQueueImpl::count, (&state,), count),
        call_ensures(MessageQueueImpl::new, (), new),
    ensures
        *info == queue.info(),
        status == state@.status,
        count == state@.marks.dom().len(),
        new@.status == MessageQueueStatus::Created,
        new@.marks.dom() == Set::<UInt256>::empty(),
        new@.order.len() == 0,
{
    broadcast use vstd::multiset::group_multiset_axioms;
}

} // verus!
