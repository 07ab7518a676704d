//! What whole runs of a manager's operations achieve.
use std::sync::Arc;
use vstd::prelude::*;

use crate::collation::requeue_leaves;
use crate::collation::requeue_result;
use crate::collation::DowngradeEvent;
use crate::collation::DowngradeStep;
use crate::error::ManagerOperation;
use crate::error::RmqError;
use crate::ident::BlockIdExt;
use crate::ident::ShardIdent;
use crate::ident::UInt256;
use crate::laws_collation::downgrade_run;
use crate::laws_collation::law_downgrading_covers_the_set;
use crate::laws_status::is_accepted_at;
use crate::laws_status::number_of;
use crate::manager::add_queue_outcome;
use crate::manager::after_add_queue;
use crate::manager::after_set_queues;
use crate::manager::poll_all_next;
use crate::manager::shard_block_next;
use crate::manager::stop_all_goes;
use crate::manager::AddQueueOutcome;
use crate::manager::ManagerState;
use crate::manager::PollAllEvent;
use crate::manager::PollAllStep;
use crate::manager::PrintStep;
use crate::manager::RmqQueueManager;
use crate::manager::ShardBlockEvent;
use crate::manager::ShardBlockStep;
use crate::manager::StopAllEvent;
use crate::manager::StopAllStep;
use crate::message::RmqMessage;
use crate::queue_impl::lemma_add_keeps_consistent;
use crate::queue_impl::QueueState;
use crate::response::StatusUpdater;
use crate::response::UpdateByIdEvent;
use crate::status::RempMessageLevel;

verus! {

/// A run of stopping all queues, up to some step.
pub open spec fn stop_run<Q>(states: Seq<ManagerState<Q>>, steps: Seq<StopAllStep<Q>>) -> bool {
    &&& steps.len() > 0
    &&& states.len() == steps.len() + 1
    &&& stop_all_goes(states[0], StopAllEvent::Called, states[1], steps[0])
    &&& forall|i: int| #![trigger steps[i]]
        0 < i < steps.len() ==> steps[i - 1] is StopQueue && stop_all_goes(
            states[i],
            StopAllEvent::Stopped,
            states[i + 1],
            steps[i],
        )
}

/// The queues of a manager in the order in which they are stopped.
pub open spec fn stop_order<Q>(state: ManagerState<Q>) -> Seq<Arc<Q>> {
    match state.cur {
        Some(queue) => seq![queue] + state.nexts.reverse(),
        None => state.nexts.reverse(),
    }
}

/// Stopping a manager stops the current queue, and then the next queues from the last to the first,
/// each once. Afterwards the manager has no next queues, and the current queue that it had.
pub proof fn law_all_queues_are_stopped<Q>(
    states: Seq<ManagerState<Q>>,
    steps: Seq<StopAllStep<Q>>,
    k: int,
)
    requires
        stop_run(states, steps),
        0 <= k < steps.len(),
    ensures
        k < stop_order(states[0]).len() ==> steps[k] == StopAllStep::StopQueue(
            stop_order(states[0])[k],
        ),
        k >= stop_order(states[0]).len() ==> {
            &&& k == stop_order(states[0]).len()
            &&& steps[k] == StopAllStep::<Q>::Return
            &&& states[k + 1].nexts.len() == 0
            &&& states[k + 1].cur == states[0].cur
        },
{
    lemma_stop_prefix(states, steps, k);
}

proof fn lemma_stop_prefix<Q>(states: Seq<ManagerState<Q>>, steps: Seq<StopAllStep<Q>>, k: int)
    requires
        stop_run(states, steps),
        0 <= k < steps.len(),
    ensures
        ({
            let shift = if states[0].cur is Some {
                1int
            } else {
                0
            };
            let left = states[0].nexts.len() + shift - (k + 1);
            &&& states[k + 1].cur == states[0].cur
            &&& states[k + 1].enabled == states[0].enabled
            &&& states[k + 1].shard == states[0].shard
            &&& if left >= 0 {
                &&& states[k + 1].nexts == states[0].nexts.take(left)
                &&& steps[k] == StopAllStep::StopQueue(stop_order(states[0])[k])
            } else {
                &&& left == -1
                &&& states[k + 1].nexts.len() == 0
                &&& steps[k] == StopAllStep::<Q>::Return
            }
        }),
    decreases k,
{
    let all = states[0].nexts;
    assert(steps[k] == steps[k]);
    if k > 0 {
        lemma_stop_prefix(states, steps, k - 1);
        assert(stop_all_goes(states[k], StopAllEvent::Stopped, states[k + 1], steps[k]));
        if states[k].nexts.len() > 0 {
            let n = states[k].nexts.len() as int;
            assert(all.take(n).drop_last() =~= all.take(n - 1));
            assert(all.take(n).last() == all[n - 1]);
        }
    } else {
        assert(all.take(all.len() as int) =~= all);
        if states[0].cur is None && all.len() > 0 {
            assert(all.drop_last() =~= all.take(all.len() - 1));
        }
    }
}

/// No two next queues have the same catchain.
pub open spec fn catchains_differ<Q>(
    queues: Seq<Arc<Q>>,
    is_same: spec_fn(Arc<Q>, Arc<Q>) -> bool,
) -> bool {
    forall|i: int, j: int|
        0 <= i < j < queues.len() ==> !is_same(#[trigger] queues[i], #[trigger] queues[j])
}

/// Adding a queue keeps the catchains of the next queues different, if each next queue is compared
/// with the one to be added. A queue that could be created is added exactly if its catchain is new,
/// provided that there is a current queue and reliable delivery is switched on.
pub proof fn law_no_catchain_twice<Q>(
    state: ManagerState<Q>,
    created: Result<Arc<Q>, RmqError>,
    same: Seq<bool>,
    is_same: spec_fn(Arc<Q>, Arc<Q>) -> bool,
)
    requires
        catchains_differ(state.nexts, is_same),
        created matches Ok(queue) ==> same == state.nexts.map_values(
            |next: Arc<Q>| is_same(next, queue),
        ),
    ensures
        catchains_differ(after_add_queue(state, created, same).nexts, is_same),
        created is Ok && state.enabled && state.cur is Some ==> (add_queue_outcome(
            state,
            created,
            same,
        ) == AddQueueOutcome::Added <==> forall|i: int|
            0 <= i < state.nexts.len() ==> !is_same(#[trigger] state.nexts[i], created->Ok_0)),
{
    if let Ok(queue) = created {
        assert forall|i: int| 0 <= i < state.nexts.len() implies is_same(
            #[trigger] state.nexts[i],
            queue,
        ) == same[i] by {}
        if same.contains(true) {
            let i = same.index_of(true);
            assert(is_same(state.nexts[i], queue));
        } else {
            assert forall|i: int| 0 <= i < state.nexts.len() implies !is_same(
                #[trigger] state.nexts[i],
                queue,
            ) by {
                if same[i] {
                    assert(same.contains(true));
                }
            }
        }
    }
}

/// Some operation of the manager leads from one state to the other, where each queue to be added is
/// compared with each next queue.
pub open spec fn manager_moves<Q>(
    is_same: spec_fn(Arc<Q>, Arc<Q>) -> bool,
    pre: ManagerState<Q>,
    post: ManagerState<Q>,
) -> bool {
    ||| exists|created: Result<Arc<Q>, RmqError>| post == after_set_queues(pre, created)
    ||| exists|created: Result<Arc<Q>, RmqError>, same: Seq<bool>|
        {
            &&& created matches Ok(queue) ==> same == pre.nexts.map_values(
                |next: Arc<Q>| is_same(next, queue),
            )
            &&& post == #[trigger] after_add_queue(pre, created, same)
        }
    ||| exists|event: StopAllEvent, step: StopAllStep<Q>| stop_all_goes(pre, event, post, step)
}

/// A history of a manager: its states from its making on, each reached from the one before by some
/// operation.
pub open spec fn is_manager_history<Q>(
    is_same: spec_fn(Arc<Q>, Arc<Q>) -> bool,
    enabled: bool,
    shard: ShardIdent,
    states: Seq<ManagerState<Q>>,
) -> bool {
    &&& states.len() > 0
    &&& states[0] == ManagerState::<Q>::fresh(enabled, shard)
    &&& forall|i: int| #![trigger states[i]]
        0 < i < states.len() ==> manager_moves(is_same, states[i - 1], states[i])
}

/// In every history of a manager, the catchains of the next queues differ at all times. The manager
/// keeps its shard, and stays switched on or off; if it is switched off, it has no queues.
pub proof fn law_manager_history<Q>(
    is_same: spec_fn(Arc<Q>, Arc<Q>) -> bool,
    enabled: bool,
    shard: ShardIdent,
    states: Seq<ManagerState<Q>>,
    i: int,
)
    requires
        is_manager_history(is_same, enabled, shard, states),
        0 <= i < states.len(),
    ensures
        catchains_differ(states[i].nexts, is_same),
        states[i].enabled == enabled,
        states[i].shard == shard,
        !enabled ==> states[i].cur is None && states[i].nexts.len() == 0,
    decreases i,
{
    if i > 0 {
        law_manager_history(is_same, enabled, shard, states, i - 1);
        let pre = states[i - 1];
        let post = states[i];
        assert(manager_moves(is_same, pre, post));
        if exists|created: Result<Arc<Q>, RmqError>| post == after_set_queues(pre, created) {
        } else if exists|event: StopAllEvent, step: StopAllStep<Q>|
            stop_all_goes(pre, event, post, step) {
        } else {
            let (created, same) = choose|created: Result<Arc<Q>, RmqError>, same: Seq<bool>|
                {
                    &&& created matches Ok(queue) ==> same == pre.nexts.map_values(
                        |next: Arc<Q>| is_same(next, queue),
                    )
                    &&& post == #[trigger] after_add_queue(pre, created, same)
                };
            law_no_catchain_twice(pre, created, same, is_same);
        }
    }
}

/// A run of returning messages to the collation queue after a block, none of which is refused.
pub open spec fn requeue_run<Q>(
    state: ManagerState<Q>,
    queue: Arc<Q>,
    returned: Vec<(UInt256, u32)>,
    events: Seq<ShardBlockEvent<Q>>,
) -> bool {
    &&& events.len() == returned.len() + 1
    &&& events[0] == (ShardBlockEvent::Downgraded { queue, returned })
    &&& forall|i: int| #![trigger events[i]]
        0 < i < events.len() ==> (shard_block_next(state, events[i - 1]) matches
            ShardBlockStep::Requeue { queue: q, returned: r, done, .. } ==> events[i]
            == (ShardBlockEvent::Requeued { queue: q, returned: r, done, reply: Ok(()) }))
}

/// After a block, every message that the collator accepted and the block lacks returns to the
/// collation queue of the same queue, each once and in their order; none is added to the collation
/// set.
pub proof fn law_lost_messages_return<Q>(
    state: ManagerState<Q>,
    queue: Arc<Q>,
    returned: Vec<(UInt256, u32)>,
    events: Seq<ShardBlockEvent<Q>>,
    k: int,
)
    requires
        requeue_run(state, queue, returned, events),
        0 <= k < events.len(),
    ensures
        k < returned.len() ==> shard_block_next(state, events[k]) == (ShardBlockStep::Requeue {
            message_id: returned[k].0,
            add_if_absent: false,
            queue,
            returned,
            done: (k + 1) as usize,
        }),
        k == returned.len() ==> shard_block_next(state, events[k]) == ShardBlockStep::<Q>::Return(
            Ok(()),
        ),
    decreases k,
{
    if k > 0 {
        law_lost_messages_return(state, queue, returned, events, k - 1);
        assert(events[k] == events[k]);
    }
}

/// The event tells what came of what the step asked for, where the queue is in state `at`, the
/// message cache has `messages`, and changing messages to ignored gives `returned`.
pub open spec fn shard_block_answers<Q>(
    messages: spec_fn(UInt256) -> Option<RmqMessage>,
    returned: Vec<(UInt256, u32)>,
    at: QueueState,
    step: ShardBlockStep<Q>,
    event: ShardBlockEvent<Q>,
) -> bool {
    match (step, event) {
        (
            ShardBlockStep::ProcessBlock { queue, .. },
            ShardBlockEvent::BlockProcessed { queue: same, .. },
        ) => same == queue,
        (
            ShardBlockStep::Downgrade { queue },
            ShardBlockEvent::Downgraded { queue: same, returned: r },
        ) => same == queue && r == returned,
        (
            ShardBlockStep::Requeue { message_id, add_if_absent, queue, returned: r, done },
            ShardBlockEvent::Requeued {
                queue: same,
                returned: same_returned,
                done: same_done,
                reply,
            },
        ) => {
            &&& same == queue
            &&& same_returned == r
            &&& same_done == done
            &&& reply == requeue_result(at, message_id, messages(message_id), add_if_absent)
        },
        _ => false,
    }
}

/// The state of the queue after what the step asks for was done.
pub open spec fn shard_block_leaves<Q>(
    messages: spec_fn(UInt256) -> Option<RmqMessage>,
    at: QueueState,
    step: ShardBlockStep<Q>,
) -> QueueState {
    match step {
        ShardBlockStep::Requeue { message_id, add_if_absent, .. } => requeue_leaves(
            at,
            message_id,
            messages(message_id),
            add_if_absent,
        ),
        _ => at,
    }
}

/// A run of taking in a block with which nothing interferes, up to some step. `queue_states` are the
/// states of the current queue at the steps.
pub open spec fn shard_block_run<Q>(
    state: ManagerState<Q>,
    messages: spec_fn(UInt256) -> Option<RmqMessage>,
    returned: Vec<(UInt256, u32)>,
    queue_states: Seq<QueueState>,
    events: Seq<ShardBlockEvent<Q>>,
    steps: Seq<ShardBlockStep<Q>>,
) -> bool {
    &&& events.len() > 0
    &&& steps.len() == events.len()
    &&& queue_states.len() == events.len()
    &&& events[0] is Called
    &&& forall|i: int| #![trigger steps[i]]
        0 <= i < steps.len() ==> steps[i] == shard_block_next(state, events[i])
    &&& forall|i: int| #![trigger events[i]]
        0 < i < events.len() ==> {
            &&& shard_block_answers(
                messages,
                returned,
                queue_states[i - 1],
                steps[i - 1],
                events[i],
            )
            &&& queue_states[i] == shard_block_leaves(
                messages,
                queue_states[i - 1],
                steps[i - 1],
            )
        }
}

// One of the first `n` messages of the list has this identifier.
spec fn among_first(returned: Seq<(UInt256, u32)>, n: int, id: UInt256) -> bool {
    exists|j: int| 0 <= j < n && (#[trigger] returned[j]).0 == id
}

// The first `n` messages of the list are back in the collation queue, and nothing else has changed.
spec fn back_so_far(
    returned: Seq<(UInt256, u32)>,
    n: int,
    before: QueueState,
    now: QueueState,
) -> bool {
    &&& now.consistent()
    &&& now.marks.dom() == before.marks.dom()
    &&& forall|id: UInt256| among_first(returned, n, id) ==> #[trigger] now.is_waiting(id)
    &&& forall|id: UInt256|
        !among_first(returned, n, id) ==> #[trigger] now.marks.get(id) == before.marks.get(id)
}

proof fn lemma_one_more_back(
    returned: Seq<(UInt256, u32)>,
    n: int,
    before: QueueState,
    now: QueueState,
    message: RmqMessage,
)
    requires
        0 <= n < returned.len(),
        back_so_far(returned, n, before, now),
        now.admits(returned[n].0, false),
    ensures
        back_so_far(
            returned,
            n + 1,
            before,
            now.after_add(returned[n].0, message.timestamp, false),
        ),
{
    let new = returned[n].0;
    let after = now.after_add(new, message.timestamp, false);
    lemma_add_keeps_consistent(now, new, message.timestamp, false);
    assert(after.marks.dom() =~= now.marks.dom());
    assert(among_first(returned, n + 1, new));
    assert forall|id: UInt256| among_first(returned, n + 1, id) <==> among_first(returned, n, id)
        || id == new by {}
    assert forall|id: UInt256| among_first(returned, n + 1, id) implies #[trigger] after.is_waiting(
        id,
    ) by {
        if id != new {
            assert(now.is_waiting(id));
        }
    }
    assert forall|id: UInt256| !among_first(returned, n + 1, id) implies #[trigger] after.marks.get(
        id,
    ) == before.marks.get(id) by {
        assert(now.marks.get(id) == before.marks.get(id));
    }
}

proof fn lemma_shard_block_prefix<Q>(
    state: ManagerState<Q>,
    messages: spec_fn(UInt256) -> Option<RmqMessage>,
    returned: Vec<(UInt256, u32)>,
    queue_states: Seq<QueueState>,
    events: Seq<ShardBlockEvent<Q>>,
    steps: Seq<ShardBlockStep<Q>>,
    k: int,
)
    requires
        shard_block_run(state, messages, returned, queue_states, events, steps),
        queue_states[0].consistent(),
        0 <= k < steps.len(),
    ensures
        match steps[k] {
            ShardBlockStep::ProcessBlock { .. } => k == 0,
            ShardBlockStep::Downgrade { .. } => queue_states[k] == queue_states[0],
            ShardBlockStep::Requeue { message_id, add_if_absent, returned: r, done, .. } => {
                &&& r == returned
                &&& 0 < done <= returned.len()
                &&& message_id == returned[done - 1].0
                &&& !add_if_absent
                &&& back_so_far(returned@, done - 1, queue_states[0], queue_states[k])
            },
            ShardBlockStep::Return(Ok(_)) => back_so_far(
                returned@,
                returned@.len() as int,
                queue_states[0],
                queue_states[k],
            ),
            ShardBlockStep::Return(Err(_)) => true,
        },
    decreases k,
{
    assert(steps[k] == shard_block_next(state, events[k]));
    if k > 0 {
        lemma_shard_block_prefix(state, messages, returned, queue_states, events, steps, k - 1);
        assert(shard_block_answers(
            messages,
            returned,
            queue_states[k - 1],
            steps[k - 1],
            events[k],
        ));
        match events[k] {
            ShardBlockEvent::Downgraded { .. } => {
                assert(back_so_far(returned@, 0, queue_states[0], queue_states[k]));
            },
            ShardBlockEvent::Requeued { done, reply, .. } => {
                if reply is Ok {
                    lemma_one_more_back(
                        returned@,
                        done - 1,
                        queue_states[0],
                        queue_states[k - 1],
                        messages(returned[done - 1].0)->0,
                    );
                }
            },
            _ => {},
        }
    }
}

/// If taking in a block succeeds, every message that was changed from accepted by the collator to
/// ignored waits for the collator, the marks of the other messages are as before, the collation set
/// has the messages that it had, and set and order agree. `replies` gives the timestamp of a message
/// whose status is changed; the messages that are changed are those of a complete run of
/// `all_accepted_by_collator_to_ignored`.
pub proof fn law_block_returns_changed_messages<Q>(
    state: ManagerState<Q>,
    messages: spec_fn(UInt256) -> Option<RmqMessage>,
    replies: spec_fn(UInt256) -> Option<u32>,
    returned: Vec<(UInt256, u32)>,
    downgrade_events: Seq<DowngradeEvent>,
    downgrade_steps: Seq<DowngradeStep>,
    queue_states: Seq<QueueState>,
    events: Seq<ShardBlockEvent<Q>>,
    steps: Seq<ShardBlockStep<Q>>,
)
    requires
        shard_block_run(state, messages, returned, queue_states, events, steps),
        queue_states[0].consistent(),
        downgrade_run(queue_states[0], replies, downgrade_events, downgrade_steps),
        downgrade_steps.last() == DowngradeStep::Return(returned),
        steps.last() == ShardBlockStep::<Q>::Return(Ok(())),
    ensures
        forall|id: UInt256|
            queue_states[0].marks.contains_key(id) && replies(id) is Some
                ==> #[trigger] queue_states.last().is_waiting(id),
        forall|id: UInt256|
            !(queue_states[0].marks.contains_key(id) && replies(id) is Some)
                ==> #[trigger] queue_states.last().marks.get(id) == queue_states[0].marks.get(id),
        queue_states.last().marks.dom() == queue_states[0].marks.dom(),
        queue_states.last().consistent(),
{
    let before = queue_states[0];
    let all = returned@.len() as int;
    lemma_shard_block_prefix(
        state,
        messages,
        returned,
        queue_states,
        events,
        steps,
        steps.len() - 1,
    );
    assert forall|id: UInt256|
        among_first(returned@, all, id) <==> before.marks.contains_key(id) && replies(
            id,
        ) is Some by {
        if among_first(returned@, all, id) {
            let j = choose|j: int| 0 <= j < all && (#[trigger] returned@[j]).0 == id;
            law_downgrading_covers_the_set(
                before,
                replies,
                downgrade_events,
                downgrade_steps,
                id,
                returned@[j].1,
            );
            assert(returned@.contains((id, returned@[j].1)));
        }
        if before.marks.contains_key(id) && replies(id) is Some {
            let timestamp = replies(id)->0;
            law_downgrading_covers_the_set(
                before,
                replies,
                downgrade_events,
                downgrade_steps,
                id,
                timestamp,
            );
            let j = returned@.index_of((id, timestamp));
            assert(returned@[j].0 == id);
        }
    }
}

/// The event tells what came of what the step asked for.
pub open spec fn poll_all_answers<Q>(step: PollAllStep<Q>, event: PollAllEvent<Q>) -> bool {
    match (step, event) {
        (
            PollAllStep::CheckSession { queue },
            PollAllEvent::SessionChecked { queue: same, .. },
        ) => same == queue,
        (PollAllStep::PollQueue { .. }, PollAllEvent::QueuePolled) => true,
        (
            PollAllStep::PollIncoming { count, .. },
            PollAllEvent::Incoming { count: same_count, .. },
        ) => same_count == count,
        (
            PollAllStep::Put { message, count },
            PollAllEvent::Put { message: same, count: same_count, .. },
        ) => same == message && same_count == count,
        (
            PollAllStep::ReturnToIncoming { count, .. },
            PollAllEvent::Returned { count: same_count },
        ) => same_count == count,
        _ => false,
    }
}

/// A run of polling a manager, up to some step.
pub open spec fn poll_all_run<Q>(
    state: ManagerState<Q>,
    events: Seq<PollAllEvent<Q>>,
    steps: Seq<PollAllStep<Q>>,
) -> bool {
    &&& events.len() > 0
    &&& steps.len() == events.len()
    &&& events[0] is Called
    &&& forall|i: int| #![trigger steps[i]]
        0 <= i < steps.len() ==> steps[i] == poll_all_next(state, events[i])
    &&& forall|i: int| #![trigger events[i]]
        0 < i < events.len() ==> poll_all_answers(steps[i - 1], events[i])
    &&& forall|i: int| #![trigger events[i]]
        0 <= i < events.len() ==> (events[i] matches PollAllEvent::Put { count, .. } ==> count
            < u64::MAX)
}

/// The messages that came from full nodes, in their order.
pub open spec fn came_in<Q>(events: Seq<PollAllEvent<Q>>) -> Seq<Arc<RmqMessage>>
    decreases events.len(),
{
    if events.len() == 0 {
        Seq::empty()
    } else {
        let before = came_in(events.drop_last());
        match events.last() {
            PollAllEvent::Incoming { incoming: Some(message), .. } => before.push(message),
            _ => before,
        }
    }
}

/// The messages that were put into the current queue, in their order.
pub open spec fn was_put<Q>(events: Seq<PollAllEvent<Q>>) -> Seq<Arc<RmqMessage>>
    decreases events.len(),
{
    if events.len() == 0 {
        Seq::empty()
    } else {
        let before = was_put(events.drop_last());
        match events.last() {
            PollAllEvent::Put { message, reply: Ok(_), .. } => before.push(message),
            _ => before,
        }
    }
}

/// The messages that went back to those from full nodes, in their order.
pub open spec fn went_back<Q>(steps: Seq<PollAllStep<Q>>) -> Seq<Arc<RmqMessage>>
    decreases steps.len(),
{
    if steps.len() == 0 {
        Seq::empty()
    } else {
        let before = went_back(steps.drop_last());
        match steps.last() {
            PollAllStep::ReturnToIncoming { message, .. } => before.push(message),
            _ => before,
        }
    }
}

// The messages that a step still has to put into the queue.
spec fn in_hand<Q>(step: PollAllStep<Q>) -> Seq<Arc<RmqMessage>> {
    match step {
        PollAllStep::Put { message, .. } => seq![message],
        _ => Seq::empty(),
    }
}

spec fn counts_put<Q>(step: PollAllStep<Q>, n: int) -> bool {
    match step {
        PollAllStep::PollIncoming { count, .. } => count == n,
        PollAllStep::Put { count, .. } => count == n,
        PollAllStep::ReturnToIncoming { count, .. } => count == n,
        PollAllStep::Return(Some(count)) => count == n,
        _ => n == 0,
    }
}

proof fn lemma_poll_all_prefix<Q>(
    state: ManagerState<Q>,
    events: Seq<PollAllEvent<Q>>,
    steps: Seq<PollAllStep<Q>>,
    k: int,
)
    requires
        poll_all_run(state, events, steps),
        0 < k <= steps.len(),
    ensures
        came_in(events.take(k)) == was_put(events.take(k)) + went_back(steps.take(k)) + in_hand(
            steps[k - 1],
        ),
        counts_put(steps[k - 1], was_put(events.take(k)).len() as int),
        went_back(steps.take(k)).len() <= 1,
        went_back(steps.take(k)).len() > 0 ==> steps[k - 1] is ReturnToIncoming || steps[k
            - 1] is Return,
        steps[k - 1] matches PollAllStep::Return(None) ==> state.cur is None && k == 1,
    decreases k,
{
    let step = steps[k - 1];
    let event = events[k - 1];
    assert(step == poll_all_next(state, event));
    assert(events.take(k).drop_last() =~= events.take(k - 1));
    assert(events.take(k).last() == event);
    assert(steps.take(k).drop_last() =~= steps.take(k - 1));
    assert(steps.take(k).last() == step);
    if k == 1 {
        assert(came_in(events.take(0)) =~= Seq::empty());
        assert(was_put(events.take(0)) =~= Seq::empty());
        assert(went_back(steps.take(0)) =~= Seq::empty());
        assert(in_hand(step) =~= Seq::empty());
    } else {
        lemma_poll_all_prefix(state, events, steps, k - 1);
        assert(poll_all_answers(steps[k - 2], event));
        let back = went_back(steps.take(k - 1));
        match event {
            PollAllEvent::Incoming { incoming: Some(message), .. } => {
                assert(back =~= Seq::empty());
                assert(in_hand(step) =~= seq![message]);
            },
            PollAllEvent::Put { message, reply, .. } => {
                assert(back =~= Seq::empty());
                assert(in_hand(steps[k - 2]) =~= seq![message]);
                if reply is Ok {
                    assert(was_put(events.take(k)) =~= was_put(events.take(k - 1)).push(message));
                } else {
                    assert(went_back(steps.take(k)) =~= seq![message]);
                }
            },
            _ => {
                assert(in_hand(steps[k - 2]) =~= Seq::empty());
                assert(in_hand(step) =~= Seq::empty());
            },
        }
    }
    assert(came_in(events.take(k)) =~= was_put(events.take(k)) + went_back(steps.take(k)) + in_hand(
        step,
    ));
}

/// No message from a full node is lost: in a complete run of polling a manager with a current queue,
/// every message that came in was put into the queue or went back, at most the last one went back,
/// and the run gives the number of messages that were put into the queue.
pub proof fn law_incoming_messages_are_kept<Q>(
    state: ManagerState<Q>,
    events: Seq<PollAllEvent<Q>>,
    steps: Seq<PollAllStep<Q>>,
)
    requires
        poll_all_run(state, events, steps),
        state.cur is Some,
        steps.last() is Return,
    ensures
        came_in(events) == was_put(events) + went_back(steps),
        went_back(steps).len() <= 1,
        steps.last() matches PollAllStep::Return(Some(count)) && count == was_put(events).len(),
{
    let n = steps.len() as int;
    lemma_poll_all_prefix(state, events, steps, n);
    assert(events.take(n) =~= events);
    assert(steps.take(n) =~= steps);
    assert(came_in(events) =~= was_put(events) + went_back(steps));
}

/// A message that cannot be put into the queue goes back to those from full nodes, and polling
/// ends.
pub proof fn law_refused_message_goes_back<Q>(
    state: ManagerState<Q>,
    count: u64,
    message: Arc<RmqMessage>,
    error: RmqError,
)
    ensures
        poll_all_next(state, PollAllEvent::Put { count, message, reply: Err(error) }) == (
        PollAllStep::<Q>::ReturnToIncoming { message, shard: state.shard, count }),
        poll_all_next(state, PollAllEvent::<Q>::Returned { count }) == PollAllStep::<Q>::Return(
            Some(count),
        ),
{
}

/// A new manager has no queues, serves the shard that it was given, and is switched on or off as it
/// was told.
pub proof fn law_new_manager<Q>(enabled: bool, shard: ShardIdent, manager: RmqQueueManager<Q>)
    requires
        call_ensures(RmqQueueManager::<Q>::new, (enabled, shard), manager),
    ensures
        manager@.enabled == enabled,
        manager@.shard == shard,
        manager@.cur is None,
        manager@.nexts.len() == 0,
{
}

/// What a manager tells of itself is what it has.
pub proof fn law_manager_shows_its_state<Q>(
    manager: RmqQueueManager<Q>,
    enabled: bool,
    cur: Option<Arc<Q>>,
    to_start: Option<Arc<Q>>,
    nexts: Vec<Arc<Q>>,
    printed: PrintStep<Q>,
)
    requires
        call_ensures(RmqQueueManager::<Q>::is_service_enabled, (&manager,), enabled),
        call_ensures(RmqQueueManager::<Q>::cur_queue, (&manager,), cur),
        call_ensures(RmqQueueManager::<Q>::start, (&manager,), to_start),
        call_ensures(RmqQueueManager::<Q>::next_queues, (&manager,), nexts),
        call_ensures(RmqQueueManager::<Q>::print_messages, (&manager,), printed),
    ensures
        enabled == manager@.enabled,
        cur == manager@.cur,
        to_start == manager@.cur,
        nexts@ == manager@.nexts,
        printed is Disabled <==> !manager@.enabled,
        printed is Nothing <==> manager@.enabled && manager@.cur is None,
        printed matches PrintStep::Print(queue) ==> manager@.enabled && manager@.cur == Some(queue),
{
}

/// Putting a message, collecting messages and processing a collation go to the current queue; without
/// one each fails, and says which operation it was.
pub proof fn law_operations_go_to_the_current_queue<Q>(
    manager: RmqQueueManager<Q>,
    put: Result<Arc<Q>, RmqError>,
    collect: Result<Arc<Q>, RmqError>,
    process: Result<Arc<Q>, RmqError>,
)
    requires
        call_ensures(RmqQueueManager::<Q>::put_message_to_rmq, (&manager,), put),
        call_ensures(RmqQueueManager::<Q>::collect_messages_for_collation, (&manager,), collect),
        call_ensures(RmqQueueManager::<Q>::process_collation_result, (&manager,), process),
    ensures
        manager@.cur matches Some(queue) ==> {
            &&& put == Ok::<Arc<Q>, RmqError>(queue)
            &&& collect == Ok::<Arc<Q>, RmqError>(queue)
            &&& process == Ok::<Arc<Q>, RmqError>(queue)
        },
        manager@.cur is None ==> {
            &&& put == Err::<Arc<Q>, RmqError>(
                RmqError::NoCurrentQueue(ManagerOperation::PutMessage),
            )
            &&& collect == Err::<Arc<Q>, RmqError>(
                RmqError::NoCurrentQueue(ManagerOperation::CollectMessages),
            )
            &&& process == Err::<Arc<Q>, RmqError>(
                RmqError::NoCurrentQueue(ManagerOperation::ProcessCollationResult),
            )
        },
{
}

/// Only the current queue may differ.
pub open spec fn same_but_current<Q>(one: ManagerState<Q>, other: ManagerState<Q>) -> bool {
    &&& one.enabled == other.enabled
    &&& one.shard == other.shard
    &&& one.nexts == other.nexts
}

/// Only the next queues may differ.
pub open spec fn same_but_nexts<Q>(one: ManagerState<Q>, other: ManagerState<Q>) -> bool {
    &&& one.enabled == other.enabled
    &&& one.shard == other.shard
    &&& one.cur == other.cur
}

/// Setting the current queue makes it the one that was created, or none if it could not be; a manager
/// that is switched off keeps what it has. The next queues stay.
pub proof fn law_setting_queues<Q>(
    manager: &mut RmqQueueManager<Q>,
    created: Result<Arc<Q>, RmqError>,
)
    requires
        call_ensures(RmqQueueManager::<Q>::set_queues, (manager, created), ()),
    ensures
        same_but_current(final(manager)@, old(manager)@),
        !old(manager)@.enabled ==> final(manager)@.cur == old(manager)@.cur,
        old(manager)@.enabled ==> match created {
            Ok(queue) => final(manager)@.cur == Some(queue),
            Err(_) => final(manager)@.cur is None,
        },
{
}

/// A queue is added, behind the others, exactly if the manager is switched on and has a current
/// queue, the queue could be created, and no next queue has the same catchain. Otherwise nothing
/// changes, and the outcome names the first of these that fails.
pub proof fn law_adding_queues<Q>(
    manager: &mut RmqQueueManager<Q>,
    created: Result<Arc<Q>, RmqError>,
    same: Vec<bool>,
    outcome: AddQueueOutcome,
)
    requires
        call_ensures(RmqQueueManager::<Q>::add_new_queue, (manager, created, &same), outcome),
    ensures
        same_but_nexts(final(manager)@, old(manager)@),
        final(manager)@.nexts == if outcome is Added {
            old(manager)@.nexts.push(created->Ok_0)
        } else {
            old(manager)@.nexts
        },
        outcome is Disabled <==> !old(manager)@.enabled,
        outcome is NoCurrentQueue <==> old(manager)@.enabled && old(manager)@.cur is None,
        outcome is NotCreated <==> old(manager)@.enabled && old(manager)@.cur is Some
            && created is Err,
        outcome is AlreadyThere <==> {
            &&& old(manager)@.enabled
            &&& old(manager)@.cur is Some
            &&& created is Ok
            &&& exists|i: int| 0 <= i < same.len() && #[trigger] same[i]
        },
{
    if same@.contains(true) {
        let i = same@.index_of(true);
        assert(same[i]);
    }
}

/// Stopping begins with the current queue, if there is one, which stays; then, and after each stop,
/// the last next queue leaves the manager and is stopped; when none is left, stopping is done.
pub proof fn law_stopping_queues<Q>(
    manager: &mut RmqQueueManager<Q>,
    event: StopAllEvent,
    step: StopAllStep<Q>,
)
    requires
        call_ensures(RmqQueueManager::<Q>::stop, (manager, event), step),
    ensures
        same_but_nexts(final(manager)@, old(manager)@),
        step is Return <==> old(manager)@.nexts.len() == 0 && (event is Stopped
            || old(manager)@.cur is None),
        step matches StopAllStep::StopQueue(queue) ==> {
            ||| {
                &&& event is Called
                &&& old(manager)@.cur == Some(queue)
                &&& final(manager)@.nexts == old(manager)@.nexts
            }
            ||| {
                &&& event is Stopped || old(manager)@.cur is None
                &&& final(manager)@.nexts.push(queue) == old(manager)@.nexts
            }
        },
        step is Return ==> final(manager)@.nexts == old(manager)@.nexts,
{
    let nexts = manager@.nexts;
    if nexts.len() > 0 {
        assert(nexts =~= nexts.drop_last().push(nexts.last()));
    }
}

/// A block that the shardchain accepted is processed as it is: the current queue is asked to process
/// exactly that block, and each message of it is recorded as accepted by the shardchain in exactly
/// that block. Without a current queue, taking in the block fails.
pub proof fn law_block_is_processed<Q>(
    manager: RmqQueueManager<Q>,
    block: BlockIdExt,
    step: ShardBlockStep<Q>,
    message_id: UInt256,
    update: UpdateByIdEvent,
)
    requires
        call_ensures(
            RmqQueueManager::<Q>::process_messages_from_accepted_shardblock,
            (&manager, ShardBlockEvent::Called { block_id: block }),
            step,
        ),
        step matches ShardBlockStep::ProcessBlock { updater, .. } ==> call_ensures(
            StatusUpdater::process_message,
            (&updater, &message_id),
            update,
        ),
    ensures
        manager@.cur matches Some(cur) ==> {
            &&& step matches ShardBlockStep::ProcessBlock { queue, block_id, updater }
            &&& queue == cur
            &&& block_id.shard_id.workchain_id == block.shard_id.workchain_id
            &&& block_id.shard_id.prefix == block.shard_id.prefix
            &&& block_id.seq_no == block.seq_no
            &&& number_of(block_id.root_hash) == number_of(block.root_hash)
            &&& number_of(block_id.file_hash) == number_of(block.file_hash)
            &&& is_accepted_at(updater.new_status, RempMessageLevel::RempShardchain, block)
            &&& update matches UpdateByIdEvent::Called { message_id: i, new_status }
            &&& i == message_id
            &&& is_accepted_at(new_status, RempMessageLevel::RempShardchain, block)
        },
        manager@.cur is None ==> step == ShardBlockStep::<Q>::Return(
            Err(RmqError::NoCurrentQueue(ManagerOperation::ApplyBlock(block))),
        ),
{
}

/// After a block was processed, the messages that it lacks are sought in the same queue; then each of
/// them is offered to that queue's collation queue, in their order, without being added to the
/// collation set. Taking in the block fails as processing it or offering a message fails.
pub proof fn law_block_goes_on<Q>(
    manager: RmqQueueManager<Q>,
    event: ShardBlockEvent<Q>,
    step: ShardBlockStep<Q>,
)
    requires
        call_ensures(
            RmqQueueManager::<Q>::process_messages_from_accepted_shardblock,
            (&manager, event),
            step,
        ),
    ensures
        match event {
            ShardBlockEvent::Called { .. } => true,
            ShardBlockEvent::BlockProcessed { queue, outcome: Ok(_) } => step matches
                ShardBlockStep::Downgrade { queue: q } && q == queue,
            ShardBlockEvent::BlockProcessed { outcome: Err(text), .. } => step
                == ShardBlockStep::<Q>::Return(Err(RmqError::Service(text))),
            ShardBlockEvent::Downgraded { queue, returned } => if returned.len() == 0 {
                step == ShardBlockStep::<Q>::Return(Ok(()))
            } else {
                is_offer(step, queue, returned, 0)
            },
            ShardBlockEvent::Requeued { queue, returned, done, reply: Ok(_) } => if done
                >= returned.len() {
                step == ShardBlockStep::<Q>::Return(Ok(()))
            } else {
                is_offer(step, queue, returned, done as int)
            },
            ShardBlockEvent::Requeued { reply: Err(e), .. } => step
                == ShardBlockStep::<Q>::Return(Err(e)),
        },
{
}

/// The step offers the message at a position of the list to the collation queue.
pub open spec fn is_offer<Q>(
    step: ShardBlockStep<Q>,
    queue: Arc<Q>,
    returned: Vec<(UInt256, u32)>,
    at: int,
) -> bool {
    &&& step matches ShardBlockStep::Requeue {
        message_id,
        add_if_absent,
        queue: q,
        returned: r,
        done,
    }
    &&& message_id == returned[at].0
    &&& !add_if_absent
    &&& q == queue
    &&& r == returned
    &&& done == at + 1
}

/// Polling a manager checks the session of the current queue, polls the queue exactly if it is
/// active, and then puts one incoming message after the other, of the manager's shard, until none is
/// left or one is refused, which goes back. It counts the messages that were put.
pub proof fn law_manager_polling<Q>(
    manager: RmqQueueManager<Q>,
    event: PollAllEvent<Q>,
    step: PollAllStep<Q>,
)
    requires
        event matches PollAllEvent::Put { count, .. } ==> count < u64::MAX,
        call_ensures(RmqQueueManager::<Q>::poll, (&manager, event), step),
    ensures
        match event {
            PollAllEvent::Called => match manager@.cur {
                Some(cur) => step matches PollAllStep::CheckSession { queue } && queue == cur,
                None => step == PollAllStep::<Q>::Return(None),
            },
            PollAllEvent::SessionChecked { queue, active: true } => step matches
                PollAllStep::PollQueue { queue: q } && q == queue,
            PollAllEvent::SessionChecked { active: false, .. } => asks_for_incoming(
                manager@,
                step,
                0,
            ),
            PollAllEvent::QueuePolled => asks_for_incoming(manager@, step, 0),
            PollAllEvent::Incoming { count, incoming: Some(message) } => {
                &&& step matches PollAllStep::Put { message: m, count: n }
                &&& m == message
                &&& n == count
            },
            PollAllEvent::Incoming { count, incoming: None } => step == PollAllStep::<Q>::Return(
                Some(count),
            ),
            PollAllEvent::Put { count, reply: Ok(_), .. } => asks_for_incoming(
                manager@,
                step,
                count + 1,
            ),
            PollAllEvent::Put { count, message, reply: Err(_) } => {
                &&& step matches PollAllStep::ReturnToIncoming { message: m, shard, count: n }
                &&& m == message
                &&& shard == manager@.shard
                &&& n == count
            },
            PollAllEvent::Returned { count } => step == PollAllStep::<Q>::Return(Some(count)),
        },
{
}

/// The step asks for the next incoming message of the manager's shard, after `count` were put.
pub open spec fn asks_for_incoming<Q>(
    state: ManagerState<Q>,
    step: PollAllStep<Q>,
    count: int,
) -> bool {
    &&& step matches PollAllStep::PollIncoming { shard, count: n }
    &&& shard == state.shard
    &&& n == count
}

} // verus!
