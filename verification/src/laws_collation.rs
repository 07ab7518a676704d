//! What whole runs of the operations around a collation achieve.
//!
//! A run of an operation is the sequence of its steps, where each event after the first answers the
//! step before it.
use std::sync::Arc;
use vstd::prelude::*;

use crate::collation::collect_goes;
use crate::collation::downgrade_goes;
use crate::collation::is_collator_answer;
use crate::collation::pointee;
use crate::collation::receipt_leaves;
use crate::collation::receipt_next;
use crate::collation::requeue_leaves;
use crate::collation::requeue_result;
use crate::collation::result_next;
use crate::collation::CollationTally;
use crate::collation::CollatorResult;
use crate::collation::CollectEvent;
use crate::collation::CollectStep;
use crate::collation::DowngradeEvent;
use crate::collation::DowngradeStep;
use crate::collation::ReceiptEvent;
use crate::collation::ReceiptStep;
use crate::collation::ResultEvent;
use crate::collation::ResultStep;
use crate::collation_order::Waiting;
use crate::collation_set::ids_of;
use crate::collation_set::marks_of;
use crate::error::RmqError;
use crate::ident::no_block;
use crate::ident::UInt256;
use crate::laws_queue::drained;
use crate::laws_queue::emptied;
use crate::laws_queue::is_put_into_queue;
use crate::laws_queue::law_earliest_is_taken;
use crate::laws_queue::law_emptying;
use crate::laws_queue::law_marks_of_entries;
use crate::laws_queue::law_nonempty_order_has_first;
use crate::laws_queue::law_offering;
use crate::laws_queue::takes_earliest;
use crate::laws_response::update_goes_on;
use crate::laws_status::is_accepted_at;
use crate::laws_status::law_accepted_statuses;
use crate::laws_status::level_of;
use crate::laws_status::stands_for_none;
use crate::message::RmqMessage;
use crate::message_queue::MessageQueue;
use crate::message_queue::RempCatchainInfo;
use crate::poll::PollEvent;
use crate::poll::PollStep;
use crate::queue_impl::lemma_take_keeps_consistent;
use crate::queue_impl::QueueState;
use crate::response::UpdateByIdEvent;
use crate::response::UpdateByIdStep;
use crate::response::UpdateEvent;
use crate::response::UpdateStep;
use crate::status::RempMessageLevel;
use crate::status::RempMessageStatus;

verus! {

/// The event tells what came of what the step asked for.
pub open spec fn update_answers(step: UpdateStep, event: UpdateEvent) -> bool {
    match (step, event) {
        (
            UpdateStep::UpdateStatus { message, .. },
            UpdateEvent::Updated { message: same, .. },
        ) => same == message,
        (UpdateStep::Respond(_), UpdateEvent::Responded) => true,
        _ => false,
    }
}

/// The event tells what came of what the step asked for.
pub open spec fn collect_answers(step: CollectStep, event: CollectEvent) -> bool {
    match (step, event) {
        (
            CollectStep::GetMessageWithStatus { message_id, count },
            CollectEvent::Found { message_id: same_id, count: same_count, .. },
        ) => same_id == message_id && same_count == count,
        (
            CollectStep::SendToCollator { message_id, message, count, .. },
            CollectEvent::Sent { message_id: same_id, message: same, count: same_count, .. },
        ) => same_id == message_id && same == message && same_count == count,
        (
            CollectStep::Updating { count, step },
            CollectEvent::Updating { count: same_count, event },
        ) => same_count == count && update_answers(step, event),
        _ => false,
    }
}

/// A run of `collect_messages_for_collation` with which nothing interferes, up to some step.
pub open spec fn collect_run(
    info: RempCatchainInfo,
    states: Seq<QueueState>,
    events: Seq<CollectEvent>,
    steps: Seq<CollectStep>,
) -> bool {
    &&& events.len() > 0
    &&& steps.len() == events.len()
    &&& states.len() == events.len() + 1
    &&& events[0] is Called
    &&& forall|i: int| #![trigger steps[i]]
        0 <= i < steps.len() ==> collect_goes(info, states[i], events[i], states[i + 1], steps[i])
    &&& forall|i: int| #![trigger events[i]]
        0 < i < events.len() ==> collect_answers(steps[i - 1], events[i])
    &&& forall|i: int| #![trigger events[i]]
        0 <= i < events.len() ==> (events[i] matches CollectEvent::Updating { count, .. } ==> count
            < u64::MAX)
}

/// The messages that were looked up, in their order.
pub open spec fn looked_up(steps: Seq<CollectStep>) -> Seq<UInt256>
    decreases steps.len(),
{
    if steps.len() == 0 {
        Seq::empty()
    } else {
        let before = looked_up(steps.drop_last());
        match steps.last() {
            CollectStep::GetMessageWithStatus { message_id, .. } => before.push(message_id),
            _ => before,
        }
    }
}

/// The number of messages that the collator took.
pub open spec fn taken_by_collator(events: Seq<CollectEvent>) -> int
    decreases events.len(),
{
    if events.len() == 0 {
        0
    } else {
        taken_by_collator(events.drop_last()) + match events.last() {
            CollectEvent::Sent { reply: Ok(_), .. } => 1int,
            _ => 0,
        }
    }
}

/// The identifiers of waiting messages, in the order of the messages.
pub open spec fn names(waiting: Seq<Waiting>) -> Seq<UInt256> {
    waiting.map_values(|w: Waiting| w.message_id)
}

/// The number of messages that the collator took, as the step counts them.
pub open spec fn counts(step: CollectStep, n: int) -> bool {
    match step {
        CollectStep::GetMessageWithStatus { count, .. } => count == n,
        CollectStep::SendToCollator { count, .. } => count == n,
        CollectStep::Updating { count, .. } => count + 1 == n,
        CollectStep::Return(Ok(count)) => count == n,
        CollectStep::Return(Err(_)) => true,
    }
}

proof fn lemma_collect_prefix(
    info: RempCatchainInfo,
    states: Seq<QueueState>,
    events: Seq<CollectEvent>,
    steps: Seq<CollectStep>,
    k: int,
)
    requires
        collect_run(info, states, events, steps),
        states[0].consistent(),
        0 <= k <= steps.len(),
    ensures
        states[k].consistent(),
        emptied(states[0]) == emptied(states[k]),
        names(drained(states[0])) == looked_up(steps.take(k)) + names(drained(states[k])),
        k > 0 ==> counts(steps[k - 1], taken_by_collator(events.take(k))),
        k > 0 && steps[k - 1] is Return ==> states[k].order.len() == 0 && steps[k - 1]->Return_0 is Ok,
    decreases k,
{
    if k == 0 {
        assert(steps.take(0) =~= Seq::empty());
        assert(names(drained(states[0])) =~= looked_up(steps.take(0)) + names(drained(states[0])));
    } else {
        lemma_collect_prefix(info, states, events, steps, k - 1);
        let step = steps[k - 1];
        let event = events[k - 1];
        let pre = states[k - 1];
        let post = states[k];
        assert(collect_goes(info, pre, event, post, step));
        assert(steps.take(k).drop_last() =~= steps.take(k - 1));
        assert(steps.take(k).last() == step);
        assert(events.take(k).drop_last() =~= events.take(k - 1));
        assert(events.take(k).last() == event);
        if k > 1 {
            assert(collect_answers(steps[k - 2], event));
        } else {
            assert(events.take(0) =~= Seq::empty());
        }
        let so_far = taken_by_collator(events.take(k - 1));
        match event {
            CollectEvent::Called => {
                assert(k == 1);
            },
            CollectEvent::Found { count, .. } => {
                assert(count == so_far);
            },
            CollectEvent::Sent { count, reply, .. } => {
                assert(count == so_far);
                assert(taken_by_collator(events.take(k)) == so_far + if reply is Ok { 1int } else { 0 });
            },
            CollectEvent::Updating { count, .. } => {
                assert(count + 1 == so_far);
                assert(count < u64::MAX);
            },
        }
        if post != pre || step is Return || step is GetMessageWithStatus {
            assert(post == pre.after_take());
            if pre.order.len() > 0 {
                law_nonempty_order_has_first(pre.order);
                lemma_take_keeps_consistent(pre, pre.first());
                assert(drained(pre) =~= seq![pre.first()] + drained(post));
                assert(names(drained(pre)) =~= seq![pre.first().message_id] + names(drained(post)));
                assert(looked_up(steps.take(k)) =~= looked_up(steps.take(k - 1)).push(
                    pre.first().message_id,
                ));
                assert(names(drained(states[0])) =~= looked_up(steps.take(k)) + names(
                    drained(post),
                ));
            }
        }
    }
}

/// A complete run of collecting empties the collation queue: it looks up exactly the messages that
/// waited, each once and in the order of collation, does not fail, and gives the number of messages
/// that the collator took.
pub proof fn law_collecting_empties_the_queue(
    info: RempCatchainInfo,
    states: Seq<QueueState>,
    events: Seq<CollectEvent>,
    steps: Seq<CollectStep>,
)
    requires
        collect_run(info, states, events, steps),
        states[0].consistent(),
        steps.last() is Return,
    ensures
        looked_up(steps) == names(drained(states[0])),
        states.last() == emptied(states[0]),
        states.last().order.len() == 0,
        forall|id: UInt256| !#[trigger] states.last().is_waiting(id),
        steps.last() matches CollectStep::Return(Ok(count)) && count == taken_by_collator(events),
{
    let n = steps.len() as int;
    lemma_collect_prefix(info, states, events, steps, n);
    law_emptying(states[0]);
    assert(steps.take(n) =~= steps);
    assert(events.take(n) =~= events);
    assert(drained(states[n]) =~= Seq::empty());
    assert(names(drained(states[n])) =~= Seq::empty());
    assert(looked_up(steps) =~= names(drained(states[0])));
}

/// Only messages that can be collated are sent to the collator: those that the message cache has
/// as new or as ignored.
pub proof fn law_only_open_messages_are_collated(
    info: RempCatchainInfo,
    pre: QueueState,
    event: CollectEvent,
    post: QueueState,
    step: CollectStep,
)
    requires
        collect_goes(info, pre, event, post, step),
        step is SendToCollator,
    ensures
        event matches CollectEvent::Found { message_id, found: Some((message, status)), .. } && {
            &&& status.can_be_collated()
            &&& step->SendToCollator_message_id == message_id
            &&& step->SendToCollator_body == message.message
        },
{
}

/// A message that the collator ignored returns to the collation queue, if it is under collation and
/// in the message cache.
pub proof fn law_ignored_message_is_collated_again(
    info: RempCatchainInfo,
    pre: QueueState,
    result: CollatorResult,
    message: Arc<RmqMessage>,
)
    requires
        result.status is RempIgnored,
        pre.marks.contains_key(result.message_id),
    ensures
        receipt_leaves(
            pre,
            ReceiptEvent::Found { result, message: Some(message) },
        ).is_waiting(result.message_id),
        receipt_next(info, pre, ReceiptEvent::Found { result, message: Some(message) })
            == ReceiptStep::Return(Ok(Some(result.status))),
{
}

/// An answer that the collator may not give is refused, and changes nothing; no other answer of the
/// collator is.
pub proof fn law_foreign_answers_are_refused(
    info: RempCatchainInfo,
    pre: QueueState,
    result: CollatorResult,
)
    ensures
        receipt_leaves(pre, ReceiptEvent::Polled(Some(result))) == pre,
        !is_collator_answer(result.status) <==> (receipt_next(
            info,
            pre,
            ReceiptEvent::Polled(Some(result)),
        ) matches ReceiptStep::Return(_)),
{
}

/// The tally of a sequence of answers.
pub open spec fn tally_of(statuses: Seq<RempMessageStatus>) -> CollationTally {
    CollationTally {
        accepted: statuses.filter(|s: RempMessageStatus| s is RempAccepted).len() as u64,
        rejected: statuses.filter(|s: RempMessageStatus| s is RempRejected).len() as u64,
        ignored: statuses.filter(|s: RempMessageStatus| s is RempIgnored).len() as u64,
    }
}

/// The step of `process_collation_result` after a sequence of answers was processed.
pub open spec fn result_after(statuses: Seq<RempMessageStatus>) -> ResultStep
    decreases statuses.len(),
{
    if statuses.len() == 0 {
        result_next(ResultEvent::Called)
    } else {
        match result_after(statuses.drop_last()) {
            ResultStep::ProcessOne { tally } => result_next(
                ResultEvent::Processed { tally, reply: Ok(Some(statuses.last())) },
            ),
            stopped => stopped,
        }
    }
}

/// Processing a collation goes on as long as the answers are accepted, rejected or ignored
/// messages, and counts how many there are of each.
pub proof fn law_answers_are_counted(statuses: Seq<RempMessageStatus>)
    requires
        statuses.len() < u64::MAX,
        forall|i: int|
            0 <= i < statuses.len() ==> (#[trigger] statuses[i]) is RempAccepted
                || statuses[i] is RempRejected || statuses[i] is RempIgnored,
    ensures
        result_after(statuses) == (ResultStep::ProcessOne { tally: tally_of(statuses) }),
        tally_of(statuses).total() == statuses.len(),
    decreases statuses.len(),
{
    reveal(Seq::filter);
    if statuses.len() > 0 {
        let before = statuses.drop_last();
        assert forall|i: int| 0 <= i < before.len() implies (#[trigger] before[i]) is RempAccepted
            || before[i] is RempRejected || before[i] is RempIgnored by {
            assert(before[i] == statuses[i]);
        }
        law_answers_are_counted(before);
        assert(statuses.last() == statuses[statuses.len() - 1]);
        let accepted = before.filter(|s: RempMessageStatus| s is RempAccepted).len();
        let rejected = before.filter(|s: RempMessageStatus| s is RempRejected).len();
        let ignored = before.filter(|s: RempMessageStatus| s is RempIgnored).len();
        before.lemma_filter_len(|s: RempMessageStatus| s is RempAccepted);
        before.lemma_filter_len(|s: RempMessageStatus| s is RempRejected);
        before.lemma_filter_len(|s: RempMessageStatus| s is RempIgnored);
    }
}

/// The messages of a list whose status is changed, with their timestamps, from the last to the
/// first. `replies` gives the timestamp of a message whose status is changed.
pub open spec fn changed(
    entries: Seq<(UInt256, bool)>,
    replies: spec_fn(UInt256) -> Option<u32>,
) -> Seq<(UInt256, u32)>
    decreases entries.len(),
{
    if entries.len() == 0 {
        Seq::empty()
    } else {
        let last = entries.last().0;
        let rest = changed(entries.drop_last(), replies);
        match replies(last) {
            Some(timestamp) => seq![(last, timestamp)] + rest,
            None => rest,
        }
    }
}

/// A run of `all_accepted_by_collator_to_ignored`, up to some step.
pub open spec fn downgrade_run(
    state: QueueState,
    replies: spec_fn(UInt256) -> Option<u32>,
    events: Seq<DowngradeEvent>,
    steps: Seq<DowngradeStep>,
) -> bool {
    &&& events.len() > 0
    &&& steps.len() == events.len()
    &&& events[0] is Called
    &&& forall|i: int| #![trigger steps[i]]
        0 <= i < steps.len() ==> downgrade_goes(state, events[i], steps[i])
    &&& forall|i: int| #![trigger events[i]]
        0 < i < events.len() ==> downgrade_answers(replies, steps[i - 1], events[i])
}

/// The event tells what came of what the step asked for.
pub open spec fn downgrade_answers(
    replies: spec_fn(UInt256) -> Option<u32>,
    step: DowngradeStep,
    event: DowngradeEvent,
) -> bool {
    match (step, event) {
        (
            DowngradeStep::ChangeToIgnored { message_id, rest, downgrading, .. },
            DowngradeEvent::Changed {
                message_id: same_id,
                reply,
                rest: same_rest,
                downgrading: same_downgrading,
            },
        ) => {
            &&& same_id == message_id
            &&& reply == replies(message_id)
            &&& same_rest == rest
            &&& same_downgrading == downgrading
        },
        _ => false,
    }
}

/// The outcome that a step of the run leads to.
spec fn downgrade_outcome(step: DowngradeStep, replies: spec_fn(UInt256) -> Option<u32>) -> Seq<
    (UInt256, u32),
> {
    match step {
        DowngradeStep::ChangeToIgnored { message_id, waiting, rest, downgrading } => downgrading@
            + changed(rest@.push((message_id, waiting)), replies),
        DowngradeStep::Return(downgrading) => downgrading@,
    }
}

proof fn lemma_downgrade_prefix(
    state: QueueState,
    replies: spec_fn(UInt256) -> Option<u32>,
    events: Seq<DowngradeEvent>,
    steps: Seq<DowngradeStep>,
    entries: Seq<(UInt256, bool)>,
    k: int,
)
    requires
        downgrade_run(state, replies, events, steps),
        crate::collation::downgrade_turns(entries, Seq::empty(), steps[0]),
        0 <= k < steps.len(),
    ensures
        downgrade_outcome(steps[k], replies) == changed(entries, replies),
    decreases k,
{
    let empty = Seq::<(UInt256, u32)>::empty();
    if k == 0 {
        if let DowngradeStep::ChangeToIgnored { message_id, waiting, rest, .. } = steps[0] {
            assert(rest@.push((message_id, waiting)) =~= entries);
        }
        assert(empty + changed(entries, replies) =~= changed(entries, replies));
    } else {
        lemma_downgrade_prefix(state, replies, events, steps, entries, k - 1);
        assert(downgrade_answers(replies, steps[k - 1], events[k]));
        assert(downgrade_goes(state, events[k], steps[k]));
        if let DowngradeStep::ChangeToIgnored { message_id, waiting, rest, downgrading } = steps[k
            - 1] {
            let all = rest@.push((message_id, waiting));
            assert(all.drop_last() =~= rest@);
            assert(all.last().0 == message_id);
            let so_far = match replies(message_id) {
                Some(timestamp) => downgrading@.push((message_id, timestamp)),
                None => downgrading@,
            };
            assert(downgrading@ + changed(all, replies) =~= so_far + changed(rest@, replies));
            if let DowngradeStep::ChangeToIgnored { message_id: id, waiting: w, rest: r, .. } =
                steps[k] {
                assert(r@.push((id, w)) =~= rest@);
            } else {
                assert(so_far + changed(rest@, replies) =~= so_far);
            }
        }
    }
}

proof fn lemma_changed_contains(
    entries: Seq<(UInt256, bool)>,
    replies: spec_fn(UInt256) -> Option<u32>,
    id: UInt256,
    timestamp: u32,
)
    ensures
        changed(entries, replies).contains((id, timestamp)) <==> ids_of(entries).contains(id)
            && replies(id) == Some(timestamp),
    decreases entries.len(),
{
    let out = changed(entries, replies);
    if entries.len() > 0 {
        let before = entries.drop_last();
        let last = entries.last().0;
        let rest = changed(before, replies);
        lemma_changed_contains(before, replies, id, timestamp);
        assert(ids_of(entries) =~= ids_of(before).push(last));
        assert(ids_of(entries).contains(id) <==> ids_of(before).contains(id) || id == last) by {
            if id == last {
                assert(ids_of(entries)[entries.len() - 1] == id);
            }
            if ids_of(before).contains(id) {
                let i = ids_of(before).index_of(id);
                assert(ids_of(entries)[i] == id);
            }
        }
        match replies(last) {
            Some(t) => {
                assert(out =~= seq![(last, t)] + rest);
                assert(out[0] == (last, t));
                if rest.contains((id, timestamp)) {
                    let i = rest.index_of((id, timestamp));
                    assert(out[i + 1] == (id, timestamp));
                }
                if out.contains((id, timestamp)) {
                    let i = out.index_of((id, timestamp));
                    if i > 0 {
                        assert(rest[i - 1] == (id, timestamp));
                    }
                }
            },
            None => {},
        }
    } else {
        assert(ids_of(entries) =~= Seq::empty());
    }
}

proof fn lemma_changed_distinct(
    entries: Seq<(UInt256, bool)>,
    replies: spec_fn(UInt256) -> Option<u32>,
)
    requires
        ids_of(entries).no_duplicates(),
    ensures
        changed(entries, replies).no_duplicates(),
    decreases entries.len(),
{
    if entries.len() > 0 {
        let before = entries.drop_last();
        let last = entries.last().0;
        let rest = changed(before, replies);
        assert(ids_of(entries) =~= ids_of(before).push(last));
        assert forall|i: int, j: int|
            0 <= i < before.len() && 0 <= j < before.len() && i != j implies ids_of(before)[i]
            != ids_of(before)[j] by {
            assert(ids_of(entries)[i] == ids_of(before)[i]);
            assert(ids_of(entries)[j] == ids_of(before)[j]);
        }
        lemma_changed_distinct(before, replies);
        if let Some(timestamp) = replies(last) {
            lemma_changed_contains(before, replies, last, timestamp);
            if ids_of(before).contains(last) {
                let i = ids_of(before).index_of(last);
                assert(ids_of(entries)[i] == last);
                assert(ids_of(entries)[entries.len() - 1] == last);
            }
            let out = changed(entries, replies);
            assert(out =~= seq![(last, timestamp)] + rest);
            assert forall|i: int, j: int|
                0 <= i < out.len() && 0 <= j < out.len() && i != j implies out[i] != out[j] by {
                if i > 0 {
                    assert(out[i] == rest[i - 1]);
                }
                if j > 0 {
                    assert(out[j] == rest[j - 1]);
                }
            }
        }
    }
}

/// A complete run of changing accepted messages to ignored asks for every message under collation,
/// and gives exactly those whose status was changed, with their timestamps, each once.
pub proof fn law_downgrading_covers_the_set(
    state: QueueState,
    replies: spec_fn(UInt256) -> Option<u32>,
    events: Seq<DowngradeEvent>,
    steps: Seq<DowngradeStep>,
    id: UInt256,
    timestamp: u32,
)
    requires
        downgrade_run(state, replies, events, steps),
        steps.last() is Return,
    ensures
        steps.last()->Return_0@.contains((id, timestamp)) <==> state.marks.contains_key(id)
            && replies(id) == Some(timestamp),
        steps.last()->Return_0@.no_duplicates(),
{
    assert(downgrade_goes(state, events[0], steps[0]));
    let entries = choose|entries: Seq<(UInt256, bool)>|
        {
            &&& ids_of(entries).no_duplicates()
            &&& #[trigger] marks_of(entries) == state.marks
            &&& crate::collation::downgrade_turns(entries, Seq::empty(), steps[0])
        };
    lemma_downgrade_prefix(state, replies, events, steps, entries, steps.len() - 1);
    lemma_changed_contains(entries, replies, id, timestamp);
    lemma_changed_distinct(entries, replies);
    assert(state.marks.contains_key(id) <==> ids_of(entries).contains(id));
}

/// Collecting goes on to the earliest waiting message, which leaves the collation queue; if none
/// waits, it ends with the number of messages that were sent.
pub open spec fn collecting_goes_on(
    pre: QueueState,
    count: int,
    post: QueueState,
    step: CollectStep,
) -> bool {
    if pre.order.len() == 0 {
        &&& post == pre
        &&& step matches CollectStep::Return(Ok(n))
        &&& n == count
    } else {
        exists|result: Result<Option<(UInt256, u32)>, RmqError>|
            {
                &&& #[trigger] takes_earliest(pre, post, result)
                &&& match result {
                    Ok(Some((message_id, _))) => {
                        &&& step matches CollectStep::GetMessageWithStatus {
                            message_id: i,
                            count: n,
                        }
                        &&& i == message_id
                        &&& n == count
                    },
                    Ok(None) => false,
                    Err(e) => step == CollectStep::Return(Err(e)),
                }
            }
    }
}

/// A message that is looked up while collecting is sent to the collator, with its body, exactly if
/// the cache has it as new, or as ignored at whatever level. Otherwise collecting goes on.
pub proof fn law_open_messages_are_sent(
    queue: &mut MessageQueue,
    message_id: UInt256,
    count: u64,
    found: Option<(Arc<RmqMessage>, RempMessageStatus)>,
    step: CollectStep,
)
    requires
        call_ensures(
            MessageQueue::collect_messages_for_collation,
            (queue, CollectEvent::Found { message_id, count, found }),
            step,
        ),
    ensures
        step is SendToCollator <==> (found matches Some((_, status)) && (status is RempNew
            || status is RempIgnored)),
        step is SendToCollator ==> {
            &&& final(queue)@ == old(queue)@
            &&& found matches Some((message, _))
            &&& step->SendToCollator_message_id == message_id
            &&& step->SendToCollator_body == message.message
            &&& step->SendToCollator_message == message
            &&& step->SendToCollator_count == count
        },
        !(step is SendToCollator) ==> collecting_goes_on(
            old(queue)@,
            count as int,
            final(queue)@,
            step,
        ),
{
    law_earliest_is_taken(queue@);
}

/// Collecting begins with the earliest waiting message, and no message sent.
pub proof fn law_collecting_begins(queue: &mut MessageQueue, step: CollectStep)
    requires
        call_ensures(
            MessageQueue::collect_messages_for_collation,
            (queue, CollectEvent::Called),
            step,
        ),
    ensures
        collecting_goes_on(old(queue)@, 0, final(queue)@, step),
{
    law_earliest_is_taken(queue@);
}

/// A message that the collator took is recorded as accepted by the queue, in no block, and nothing
/// under collation changes. One that it did not take is left as it is, and collecting goes on.
pub proof fn law_sent_messages_are_recorded(
    queue: &mut MessageQueue,
    message_id: UInt256,
    message: Arc<RmqMessage>,
    count: u64,
    reply: Result<(), String>,
    step: CollectStep,
)
    requires
        call_ensures(
            MessageQueue::collect_messages_for_collation,
            (queue, CollectEvent::Sent { message_id, message, count, reply }),
            step,
        ),
    ensures
        reply is Ok ==> {
            &&& final(queue)@ == old(queue)@
            &&& step matches CollectStep::Updating {
                count: n,
                step: UpdateStep::UpdateStatus { message_id: i, message: m, new_status },
            }
            &&& n == count
            &&& i == message_id
            &&& m == message
            &&& is_accepted_at(new_status, RempMessageLevel::RempQueue, no_block())
        },
        reply is Err ==> collecting_goes_on(old(queue)@, count as int, final(queue)@, step),
        stands_for_none(no_block()),
{
    law_earliest_is_taken(queue@);
    law_accepted_statuses(no_block());
}

/// While a message that was sent is updated, collecting does what the update asks for; when the
/// update is done, the message is counted and collecting goes on.
pub proof fn law_updated_messages_are_counted(
    queue: &mut MessageQueue,
    count: u64,
    event: UpdateEvent,
    step: CollectStep,
)
    requires
        count < u64::MAX,
        call_ensures(
            MessageQueue::collect_messages_for_collation,
            (queue, CollectEvent::Updating { count, event }),
            step,
        ),
    ensures
        step matches CollectStep::Updating { count: n, step: update } ==> {
            &&& final(queue)@ == old(queue)@
            &&& n == count
            &&& !(update is Return)
            &&& update_goes_on(old(queue).info(), event, update)
        },
        !(step is Updating) ==> {
            &&& update_goes_on(old(queue).info(), event, UpdateStep::Return)
            &&& collecting_goes_on(old(queue)@, count + 1, final(queue)@, step)
        },
{
    law_earliest_is_taken(queue@);
}

/// A message of an earlier session that polling lowers, whatever its status was, is sent to the
/// collator when it is collected with the status that it was given.
pub proof fn law_lowered_message_is_collated(
    polled: &mut MessageQueue,
    message: Arc<RmqMessage>,
    old_status: RempMessageStatus,
    level: RempMessageLevel,
    lowering: PollStep,
    collecting: &mut MessageQueue,
    count: u64,
    step: CollectStep,
)
    requires
        call_ensures(
            MessageQueue::poll,
            (polled, PollEvent::LevelFound { message, old_status, level }),
            lowering,
        ),
        lowering matches PollStep::Downgrade { message: m, new_status } ==> call_ensures(
            MessageQueue::collect_messages_for_collation,
            (
                collecting,
                CollectEvent::Found {
                    message_id: m.message_id,
                    count,
                    found: Some((m, new_status)),
                },
            ),
            step,
        ),
    ensures
        lowering is Downgrade,
        step matches CollectStep::SendToCollator { message_id, body, .. } && message_id
            == message.message_id && body == message.message,
{
}

/// How offering a message of the message cache to the collation queue ends: it fails if the cache
/// lacks the message, or if the message is not under collation and may not be added; otherwise the
/// message waits afterwards, as before if it waited, and with its own timestamp if not.
pub open spec fn is_requeued(
    pre: QueueState,
    id: UInt256,
    timestamp: Option<u32>,
    add_if_absent: bool,
    post: QueueState,
    result: Result<(), RmqError>,
) -> bool {
    match timestamp {
        None => post == pre && result == Err::<(), RmqError>(RmqError::NotInMessageCache(id)),
        Some(timestamp) => if !pre.marks.contains_key(id) && !add_if_absent {
            &&& post == pre
            &&& result == Err::<(), RmqError>(RmqError::NotInCollationSet(id))
        } else if pre.marks.get(id) == Some(true) {
            &&& post == pre
            &&& result == Ok::<(), RmqError>(())
        } else {
            &&& is_put_into_queue(pre, id, timestamp, post)
            &&& result == Ok::<(), RmqError>(())
        },
    }
}

/// The timestamp of a message, if there is one.
pub open spec fn timestamp_of(message: Option<Arc<RmqMessage>>) -> Option<u32> {
    match message {
        Some(m) => Some(m.timestamp),
        None => None,
    }
}

/// Offering a message of the message cache to the collation queue ends as its presence in the cache
/// and in the collation set says.
pub proof fn law_requeuing(
    queue: &mut MessageQueue,
    id: UInt256,
    message: Option<Arc<RmqMessage>>,
    add_if_absent: bool,
    result: Result<(), RmqError>,
)
    requires
        call_ensures(
            MessageQueue::add_to_collation_queue,
            (queue, &id, message, add_if_absent),
            result,
        ),
    ensures
        final(queue).info() == old(queue).info(),
        is_requeued(
            old(queue)@,
            id,
            timestamp_of(message),
            add_if_absent,
            final(queue)@,
            result,
        ),
{
    if let Some(m) = message {
        law_offering(queue@, id, m.timestamp, add_if_absent);
    }
}

/// What offering a message of the message cache to the collation queue leaves and yields.
pub proof fn law_requeue_meaning(
    pre: QueueState,
    id: UInt256,
    message: Option<RmqMessage>,
    add_if_absent: bool,
)
    ensures
        is_requeued(
            pre,
            id,
            match message {
                Some(m) => Some(m.timestamp),
                None => None,
            },
            add_if_absent,
            requeue_leaves(pre, id, message, add_if_absent),
            requeue_result(pre, id, message, add_if_absent),
        ),
{
    if let Some(m) = message {
        law_offering(pre, id, m.timestamp, add_if_absent);
    }
}

/// The collator is asked for answers for the shard of the queue. An answer is taken exactly if it
/// says accepted, rejected or ignored at the level of the collator: then the very status of the very
/// message is recorded. Any other answer is refused with its message and status, and no answer ends
/// the processing. Nothing under collation changes.
pub proof fn law_answers_are_taken(
    queue: &mut MessageQueue,
    answer: Option<CollatorResult>,
    asking: ReceiptStep,
    then: &mut MessageQueue,
    step: ReceiptStep,
)
    requires
        call_ensures(
            MessageQueue::process_one_deque_remp_message_status,
            (queue, ReceiptEvent::Called),
            asking,
        ),
        call_ensures(
            MessageQueue::process_one_deque_remp_message_status,
            (then, ReceiptEvent::Polled(answer)),
            step,
        ),
    ensures
        final(queue)@ == old(queue)@,
        final(then)@ == old(then)@,
        asking matches ReceiptStep::PollReceipts { shard } && shard == old(queue).info().shard,
        match answer {
            None => step == ReceiptStep::Return(Ok(None)),
            Some(result) => {
                let taken = match result.status {
                    RempMessageStatus::RempAccepted(a) => a.level is RempCollator,
                    RempMessageStatus::RempRejected(r) => r.level is RempCollator,
                    RempMessageStatus::RempIgnored(i) => i.level is RempCollator,
                    RempMessageStatus::RempNew => false,
                    RempMessageStatus::RempTimeout => false,
                    RempMessageStatus::RempDuplicate(_) => false,
                    RempMessageStatus::RempSentToValidators(_) => false,
                };
                if taken {
                    &&& step matches ReceiptStep::Updating {
                        result: same,
                        step: UpdateByIdStep::GetMessage { message_id, new_status },
                    }
                    &&& same == result
                    &&& message_id == result.message_id
                    &&& new_status == result.status
                } else {
                    &&& step matches ReceiptStep::Return(Err(
                        RmqError::UnexpectedStatus { message_id, status },
                    ))
                    &&& message_id == result.message_id
                    &&& status == result.status
                }
            },
        },
{
}

/// The event tells what came of what the step asked for, where the message cache has `messages`.
pub open spec fn update_by_id_answers(
    messages: spec_fn(UInt256) -> Option<Arc<RmqMessage>>,
    step: UpdateByIdStep,
    event: UpdateByIdEvent,
) -> bool {
    match (step, event) {
        (
            UpdateByIdStep::GetMessage { message_id, new_status },
            UpdateByIdEvent::Found { message_id: same_id, new_status: same_status, found },
        ) => same_id == message_id && same_status == new_status && found == messages(message_id),
        (
            UpdateByIdStep::Updating { message, step },
            UpdateByIdEvent::Updating { message: same, event },
        ) => same == message && update_answers(step, event),
        _ => false,
    }
}

/// The event tells what came of what the step asked for, where the message cache has `messages`.
pub open spec fn receipt_answers(
    messages: spec_fn(UInt256) -> Option<Arc<RmqMessage>>,
    step: ReceiptStep,
    event: ReceiptEvent,
) -> bool {
    match (step, event) {
        (
            ReceiptStep::Updating { result, step },
            ReceiptEvent::Updating { result: same, event },
        ) => same == result && update_by_id_answers(messages, step, event),
        (
            ReceiptStep::GetMessage { result },
            ReceiptEvent::Found { result: same, message },
        ) => same == result && message == messages(result.message_id),
        _ => false,
    }
}

/// A run of processing one answer of the collator with which nothing interferes, up to some step.
pub open spec fn receipt_run(
    info: RempCatchainInfo,
    messages: spec_fn(UInt256) -> Option<Arc<RmqMessage>>,
    answer: CollatorResult,
    states: Seq<QueueState>,
    events: Seq<ReceiptEvent>,
    steps: Seq<ReceiptStep>,
) -> bool {
    &&& events.len() > 0
    &&& steps.len() == events.len()
    &&& states.len() == events.len() + 1
    &&& events[0] == ReceiptEvent::Polled(Some(answer))
    &&& forall|i: int| #![trigger steps[i]]
        0 <= i < steps.len() ==> {
            &&& states[i + 1] == receipt_leaves(states[i], events[i])
            &&& steps[i] == receipt_next(info, states[i], events[i])
        }
    &&& forall|i: int| #![trigger events[i]]
        0 < i < events.len() ==> receipt_answers(messages, steps[i - 1], events[i])
}

/// The status that the step hands to the message cache, with the message.
pub open spec fn records(step: ReceiptStep) -> Option<(UInt256, RempMessageStatus)> {
    match step {
        ReceiptStep::Updating {
            step: UpdateByIdStep::Updating {
                step: UpdateStep::UpdateStatus { message_id, new_status, .. },
                ..
            },
            ..
        } => Some((message_id, new_status)),
        _ => None,
    }
}

// Where a run of processing an answer can stand after its first `k` steps.
spec fn receipt_stands(
    messages: spec_fn(UInt256) -> Option<Arc<RmqMessage>>,
    answer: CollatorResult,
    pre: QueueState,
    now: QueueState,
    step: ReceiptStep,
) -> bool {
    let cached = messages(answer.message_id);
    let timestamp = timestamp_of(cached);
    match step {
        ReceiptStep::PollReceipts { .. } => false,
        ReceiptStep::Updating { result, step: update } => {
            &&& now == pre
            &&& result == answer
            &&& match update {
                UpdateByIdStep::GetMessage { message_id, new_status } => message_id
                    == answer.message_id && new_status == answer.status,
                UpdateByIdStep::Updating { message, step: inner } => {
                    &&& cached == Some(message)
                    &&& inner matches UpdateStep::UpdateStatus { message_id, new_status, .. }
                        ==> message_id == answer.message_id && new_status == answer.status
                    &&& !(inner is Return)
                },
                UpdateByIdStep::Return(_) => false,
            }
        },
        ReceiptStep::GetMessage { result } => {
            &&& now == pre
            &&& result == answer
            &&& answer.status is RempIgnored
        },
        ReceiptStep::Return(outcome) => if answer.status is RempIgnored {
            match outcome {
                Ok(status) => status == Some(answer.status) && is_requeued(
                    pre,
                    answer.message_id,
                    timestamp,
                    false,
                    now,
                    Ok(()),
                ),
                Err(e) => is_requeued(pre, answer.message_id, timestamp, false, now, Err(e)),
            }
        } else {
            now == pre && outcome == Ok::<Option<RempMessageStatus>, RmqError>(
                Some(answer.status),
            )
        },
    }
}

proof fn lemma_receipt_prefix(
    info: RempCatchainInfo,
    messages: spec_fn(UInt256) -> Option<Arc<RmqMessage>>,
    answer: CollatorResult,
    states: Seq<QueueState>,
    events: Seq<ReceiptEvent>,
    steps: Seq<ReceiptStep>,
    k: int,
)
    requires
        receipt_run(info, messages, answer, states, events, steps),
        level_of(answer.status) == Some(RempMessageLevel::RempCollator),
        0 < k <= steps.len(),
    ensures
        receipt_stands(messages, answer, states[0], states[k], steps[k - 1]),
        k == 1 ==> steps[0] is Updating && steps[0]->Updating_step is GetMessage,
        k > 1 ==> !(steps[k - 1] is Updating && steps[k - 1]->Updating_step is GetMessage),
        k == 2 && messages(answer.message_id) is Some ==> records(steps[1]) == Some(
            (answer.message_id, answer.status),
        ),
    decreases k,
{
    let event = events[k - 1];
    assert(steps[k - 1] == receipt_next(info, states[k - 1], event));
    assert(states[k] == receipt_leaves(states[k - 1], event));
    if k > 1 {
        lemma_receipt_prefix(info, messages, answer, states, events, steps, k - 1);
        assert(receipt_answers(messages, steps[k - 2], event));
        if let ReceiptEvent::Found { result, message } = event {
            law_requeue_meaning(states[k - 1], answer.message_id, pointee(message), false);
        }
    }
}

/// A complete run from an answer that says accepted or rejected at the level of the collator ends
/// with that status and leaves the queue as it is. One that says ignored returns the message to the
/// collation queue, if it is under collation and in the message cache, and ends with that status; if
/// not, it fails as offering the message does. If the cache has the message, the status is recorded
/// first.
pub proof fn law_answers_are_processed(
    info: RempCatchainInfo,
    messages: spec_fn(UInt256) -> Option<Arc<RmqMessage>>,
    answer: CollatorResult,
    states: Seq<QueueState>,
    events: Seq<ReceiptEvent>,
    steps: Seq<ReceiptStep>,
)
    requires
        receipt_run(info, messages, answer, states, events, steps),
        level_of(answer.status) == Some(RempMessageLevel::RempCollator),
        steps.last() is Return,
    ensures
        !(answer.status is RempIgnored) ==> {
            &&& steps.last() == ReceiptStep::Return(Ok(Some(answer.status)))
            &&& states.last() == states[0]
        },
        answer.status is RempIgnored && states[0].marks.contains_key(answer.message_id)
            && messages(answer.message_id) is Some ==> {
            &&& steps.last() == ReceiptStep::Return(Ok(Some(answer.status)))
            &&& states.last().marks.get(answer.message_id) == Some(true)
            &&& states.last().marks.dom() == states[0].marks.dom()
        },
        answer.status is RempIgnored && messages(answer.message_id) is None ==> {
            &&& steps.last() == ReceiptStep::Return(
                Err(RmqError::NotInMessageCache(answer.message_id)),
            )
            &&& states.last() == states[0]
        },
        answer.status is RempIgnored && messages(answer.message_id) is Some
            && !states[0].marks.contains_key(answer.message_id) ==> {
            &&& steps.last() == ReceiptStep::Return(
                Err(RmqError::NotInCollationSet(answer.message_id)),
            )
            &&& states.last() == states[0]
        },
        messages(answer.message_id) is Some ==> steps.len() > 1 && records(steps[1]) == Some(
            (answer.message_id, answer.status),
        ),
{
    let n = steps.len() as int;
    lemma_receipt_prefix(info, messages, answer, states, events, steps, n);
    lemma_receipt_prefix(info, messages, answer, states, events, steps, 1);
    if n > 1 {
        lemma_receipt_prefix(info, messages, answer, states, events, steps, 2);
    }
    if answer.status is RempIgnored && states[0].marks.contains_key(answer.message_id) && messages(
        answer.message_id,
    ) is Some {
        assert(states.last().marks.dom() =~= states[0].marks.dom());
    }
}

/// Processing a collation begins with nothing counted, counts each answer that says accepted,
/// rejected or ignored, and ends with what was counted at the first failure, at any other status, and
/// when no answers are left.
pub proof fn law_processing(event: ResultEvent, step: ResultStep)
    requires
        event matches ResultEvent::Processed { tally, .. } ==> tally.accepted + tally.rejected
            + tally.ignored < u64::MAX,
        call_ensures(MessageQueue::process_collation_result, (event,), step),
    ensures
        match event {
            ResultEvent::Called => {
                &&& step matches ResultStep::ProcessOne { tally }
                &&& tally.accepted == 0
                &&& tally.rejected == 0
                &&& tally.ignored == 0
            },
            ResultEvent::Processed { tally, reply: Ok(Some(status)) } => match status {
                RempMessageStatus::RempAccepted(_) => {
                    &&& step matches ResultStep::ProcessOne { tally: next }
                    &&& next.accepted == tally.accepted + 1
                    &&& next.rejected == tally.rejected
                    &&& next.ignored == tally.ignored
                },
                RempMessageStatus::RempRejected(_) => {
                    &&& step matches ResultStep::ProcessOne { tally: next }
                    &&& next.accepted == tally.accepted
                    &&& next.rejected == tally.rejected + 1
                    &&& next.ignored == tally.ignored
                },
                RempMessageStatus::RempIgnored(_) => {
                    &&& step matches ResultStep::ProcessOne { tally: next }
                    &&& next.accepted == tally.accepted
                    &&& next.rejected == tally.rejected
                    &&& next.ignored == tally.ignored + 1
                },
                _ => step == ResultStep::Return(tally),
            },
            ResultEvent::Processed { tally, reply: Ok(None) } => step == ResultStep::Return(tally),
            ResultEvent::Processed { tally, reply: Err(_) } => step == ResultStep::Return(tally),
        },
{
}

/// Changing accepted messages to ignored asks for messages under collation with the marks that they
/// have; what the cache says of a message decides alone whether it is given back, with the timestamp
/// that the cache gives.
pub proof fn law_downgrading(queue: MessageQueue, event: DowngradeEvent, step: DowngradeStep)
    requires
        call_ensures(MessageQueue::all_accepted_by_collator_to_ignored, (&queue, event), step),
    ensures
        event is Called ==> match step {
            DowngradeStep::ChangeToIgnored { message_id, waiting, rest, downgrading } => {
                &&& queue@.marks.get(message_id) == Some(waiting)
                &&& downgrading@ == Seq::<(UInt256, u32)>::empty()
                &&& forall|id: UInt256, mark: bool|
                    #[trigger] rest@.push((message_id, waiting)).contains((id, mark))
                        <==> queue@.marks.get(id) == Some(mark)
            },
            DowngradeStep::Return(downgrading) => {
                &&& queue@.marks.dom() == Set::<UInt256>::empty()
                &&& downgrading@ == Seq::<(UInt256, u32)>::empty()
            },
        },
        event matches DowngradeEvent::Changed { message_id, reply, rest, downgrading } ==> {
            let so_far = match reply {
                Some(timestamp) => downgrading@.push((message_id, timestamp)),
                None => downgrading@,
            };
            match step {
                DowngradeStep::ChangeToIgnored { message_id: i, waiting, rest: r, downgrading: d } => {
                    &&& r@.push((i, waiting)) == rest@
                    &&& d@ == so_far
                },
                DowngradeStep::Return(d) => rest.len() == 0 && d@ == so_far,
            }
        },
{
    match event {
        DowngradeEvent::Called => {
            let entries = choose|entries: Seq<(UInt256, bool)>|
                {
                    &&& ids_of(entries).no_duplicates()
                    &&& #[trigger] marks_of(entries) == queue@.marks
                    &&& crate::collation::downgrade_turns(entries, Seq::empty(), step)
                };
            assert forall|id: UInt256, mark: bool|
                #[trigger] entries.contains((id, mark)) <==> queue@.marks.get(id) == Some(mark) by {
                law_marks_of_entries(entries, id, mark);
            }
            match step {
                DowngradeStep::ChangeToIgnored { message_id, waiting, rest, .. } => {
                    assert(rest@.push((message_id, waiting)) =~= entries);
                    assert(entries[entries.len() - 1] == (message_id, waiting));
                    assert(entries.contains((message_id, waiting)));
                },
                DowngradeStep::Return(_) => {
                    assert forall|id: UInt256| !queue@.marks.contains_key(id) by {
                        assert(!entries.contains((id, true)) && !entries.contains((id, false)));
                    }
                    assert(queue@.marks.dom() =~= Set::<UInt256>::empty());
                },
            }
        },
        DowngradeEvent::Changed { rest, .. } => {
            if rest.len() > 0 {
                assert(rest@ =~= rest@.drop_last().push(rest@.last()));
            }
        },
    }
}

/// While an answer is processed, what its update asks for is done, step by step. When the update is
/// done, an ignored message is sought again, to be collated, and any other answer ends with its
/// status. Nothing under collation changes.
pub proof fn law_answers_follow_their_update(
    queue: &mut MessageQueue,
    alone: MessageQueue,
    result: CollatorResult,
    event: UpdateByIdEvent,
    step: ReceiptStep,
    update: UpdateByIdStep,
)
    requires
        alone.info() == queue.info(),
        call_ensures(
            MessageQueue::process_one_deque_remp_message_status,
            (queue, ReceiptEvent::Updating { result, event }),
            step,
        ),
        call_ensures(
            MessageQueue::update_status_send_response_by_id,
            (&alone, event),
            update,
        ),
    ensures
        final(queue)@ == old(queue)@,
        match update {
            UpdateByIdStep::Return(_) => match result.status {
                RempMessageStatus::RempIgnored(_) => step matches ReceiptStep::GetMessage {
                    result: same,
                } && same == result,
                _ => step == ReceiptStep::Return(Ok(Some(result.status))),
            },
            UpdateByIdStep::GetMessage { .. } => {
                &&& step matches ReceiptStep::Updating { result: same, step: u }
                &&& same == result
                &&& u == update
            },
            UpdateByIdStep::Updating { .. } => {
                &&& step matches ReceiptStep::Updating { result: same, step: u }
                &&& same == result
                &&& u == update
            },
        },
{
}

/// An ignored message that was sought again is offered to the collation queue without being added to
/// the collation set; the answer ends with its status, or as offering the message fails.
pub proof fn law_ignored_messages_are_offered(
    queue: &mut MessageQueue,
    result: CollatorResult,
    message: Option<Arc<RmqMessage>>,
    step: ReceiptStep,
)
    requires
        call_ensures(
            MessageQueue::process_one_deque_remp_message_status,
            (queue, ReceiptEvent::Found { result, message }),
            step,
        ),
    ensures
        exists|offered: Result<(), RmqError>|
            {
                &&& #[trigger] is_requeued(
                    old(queue)@,
                    result.message_id,
                    timestamp_of(message),
                    false,
                    final(queue)@,
                    offered,
                )
                &&& step == ReceiptStep::Return(
                    match offered {
                        Ok(_) => Ok(Some(result.status)),
                        Err(e) => Err(e),
                    },
                )
            },
{
    law_requeue_meaning(queue@, result.message_id, pointee(message), false);
}

} // verus!
