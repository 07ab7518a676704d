//! What polling a queue does with the messages under collation and with the records that it reads,
//! and what putting a message into a queue does.
use std::sync::Arc;
use vstd::prelude::*;

use crate::error::RmqError;
use crate::forward::forwards_digests;
use crate::forward::ForwardState;
use crate::forward::ForwardStep;
use crate::ident::UInt256;
use crate::laws_queue::is_put_into_queue;
use crate::laws_queue::law_offering;
use crate::laws_status::is_block_of;
use crate::laws_status::is_settled;
use crate::laws_status::same_bits;
use crate::laws_status::stands_for_none;
use crate::laws_status::tells;
use crate::message::seqno_of_field;
use crate::message::ReceivedRecord;
use crate::message::RmqMessage;
use crate::message::RmqMessageDigest;
use crate::message_queue::put_goes;
use crate::message_queue::MessageQueue;
use crate::message_queue::PutEvent;
use crate::message_queue::PutStep;
use crate::message_queue::RempCatchainInfo;
use crate::poll::poll_goes;
use crate::poll::poll_reads;
use crate::poll::AddEvent;
use crate::poll::AddStep;
use crate::poll::ExternalMessageStatus;
use crate::poll::PollEvent;
use crate::poll::PollStep;
use crate::queue_impl::QueueState;
use crate::status::RempMessageLevel;
use crate::status::RempMessageStatus;

verus! {

/// A message that waits for the collator anew: it was put into the collation queue, then the
/// attempt is noted, then the full node is told the status, then polling goes on.
pub open spec fn is_queued_and_reported(
    info: RempCatchainInfo,
    message: Arc<RmqMessage>,
    status: RempMessageStatus,
    pre: QueueState,
    queued: QueueState,
    s1: PollStep,
    s2: PollStep,
    s3: PollStep,
) -> bool {
    &&& is_put_into_queue(pre, message.message_id, message.timestamp, queued)
    &&& s1 == PollStep::Adding(
        AddStep::MarkCollationAttempt {
            message_id: message.message_id,
            message,
            status_to_send: Some(status),
        },
    )
    &&& s2 matches PollStep::Adding(AddStep::Respond(answer))
    &&& tells(answer, info, message, status)
    &&& s3 == PollStep::Receive
}

/// A message that the message cache did not know waits for the collator afterwards. If it did not
/// before, and the cache does not fail, the full node is told that the message is new.
pub proof fn law_new_message_is_queued(
    info: RempCatchainInfo,
    message: Arc<RmqMessage>,
    forwarded: bool,
    pre: QueueState,
    q1: QueueState,
    q2: QueueState,
    q3: QueueState,
    s1: PollStep,
    s2: PollStep,
    s3: PollStep,
)
    requires
        poll_goes(info, pre, PollEvent::Registered { message, forwarded, reply: Ok(None) }, q1, s1),
        poll_goes(
            info,
            q1,
            PollEvent::Adding(
                AddEvent::Marked {
                    message,
                    status_to_send: Some(RempMessageStatus::RempNew),
                    reply: Ok(()),
                },
            ),
            q2,
            s2,
        ),
        poll_goes(info, q2, PollEvent::Adding(AddEvent::Responded), q3, s3),
    ensures
        q1.marks.get(message.message_id) == Some(true),
        pre.marks.get(message.message_id) == Some(true) ==> q1 == pre && s1 == PollStep::Receive,
        pre.marks.get(message.message_id) != Some(true) ==> is_queued_and_reported(
            info,
            message,
            RempMessageStatus::RempNew,
            pre,
            q1,
            s1,
            s2,
            s3,
        ),
        q2 == q1,
        q3 == q1,
{
    law_offering(pre, message.message_id, message.timestamp, true);
}

/// A message of an earlier session that the message cache knows, and that is not rejected, timed out
/// or accepted by the masterchain, is lowered to ignored, at the level that was found and with the
/// block of the status that it had, and waits for the collator afterwards. If it did not before, the
/// full node is told the lower status.
pub proof fn law_open_message_is_collated_again(
    info: RempCatchainInfo,
    message: Arc<RmqMessage>,
    old_status: RempMessageStatus,
    level: RempMessageLevel,
    stored: Option<RempMessageStatus>,
    pre: QueueState,
    q1: QueueState,
    q2: QueueState,
    q3: QueueState,
    q4: QueueState,
    q5: QueueState,
    s1: PollStep,
    s2: PollStep,
    s3: PollStep,
    s4: PollStep,
    s5: PollStep,
)
    requires
        !is_settled(old_status),
        poll_goes(
            info,
            pre,
            PollEvent::Registered { message, forwarded: true, reply: Ok(Some(old_status)) },
            q1,
            s1,
        ),
        poll_goes(info, q1, PollEvent::LevelFound { message, old_status, level }, q2, s2),
        s2 matches PollStep::Downgrade { new_status, .. } ==> {
            &&& poll_goes(
                info,
                q2,
                PollEvent::Downgraded { message, new_status, reply: Ok(stored) },
                q3,
                s3,
            )
            &&& poll_goes(
                info,
                q3,
                PollEvent::Adding(
                    AddEvent::Marked { message, status_to_send: Some(new_status), reply: Ok(()) },
                ),
                q4,
                s4,
            )
        },
        poll_goes(info, q4, PollEvent::Adding(AddEvent::Responded), q5, s5),
    ensures
        s1 == (PollStep::FindLevel { message, old_status }),
        q5.marks.get(message.message_id) == Some(true),
        s2 matches PollStep::Downgrade {
            message: same,
            new_status: RempMessageStatus::RempIgnored(ignored),
        } && {
            &&& same == message
            &&& ignored.level == level
            &&& is_block_of(old_status, ignored.block_id)
            &&& pre.marks.get(message.message_id) != Some(true) ==> is_queued_and_reported(
                info,
                message,
                RempMessageStatus::RempIgnored(ignored),
                pre,
                q5,
                s3,
                s4,
                s5,
            )
        },
{
    law_offering(pre, message.message_id, message.timestamp, true);
}

/// A message that the message cache knows is skipped if it is of the current session, or is rejected,
/// timed out or accepted by the masterchain.
pub proof fn law_known_message_is_skipped(
    info: RempCatchainInfo,
    message: Arc<RmqMessage>,
    forwarded: bool,
    old_status: RempMessageStatus,
    pre: QueueState,
    post: QueueState,
    step: PollStep,
)
    requires
        !forwarded || is_settled(old_status),
        poll_goes(
            info,
            pre,
            PollEvent::Registered { message, forwarded, reply: Ok(Some(old_status)) },
            post,
            step,
        ),
    ensures
        post == pre,
        step == PollStep::Receive,
{
}

/// The run of a digest whose messages the message cache takes in: the digest was checked, and each
/// later event tells that the message before it was taken in.
pub open spec fn digest_run(
    info: RempCatchainInfo,
    digest: RmqMessageDigest,
    states: Seq<QueueState>,
    events: Seq<PollEvent>,
    steps: Seq<PollStep>,
) -> bool {
    &&& events.len() == digest.messages.len() + 1
    &&& steps.len() == events.len()
    &&& states.len() == events.len() + 1
    &&& events[0] == (PollEvent::ExpiryChecked { digest, expired: false })
    &&& forall|i: int| #![trigger steps[i]]
        0 <= i < steps.len() ==> poll_goes(info, states[i], events[i], states[i + 1], steps[i])
    &&& forall|i: int| #![trigger events[i]]
        0 < i < events.len() ==> (steps[i - 1] matches PollStep::Reject { digest: d, done, .. }
            ==> events[i] matches PollEvent::Rejected { digest: same, done: same_done, reply: Ok(_) }
            && same == d && same_done == done)
}

/// The messages of a digest of a session that is not to come are made known as rejected, each once
/// and in their order, and then polling goes on. The messages under collation stay as they are.
pub proof fn law_digest_rejects_its_messages(
    info: RempCatchainInfo,
    digest: RmqMessageDigest,
    states: Seq<QueueState>,
    events: Seq<PollEvent>,
    steps: Seq<PollStep>,
    k: int,
)
    requires
        digest_run(info, digest, states, events, steps),
        seqno_of_field(digest.masterchain_seqno) <= info.master_cc_seqno,
        0 <= k < steps.len(),
    ensures
        states[k + 1] == states[0],
        k < digest.messages.len() ==> {
            &&& steps[k] matches PollStep::Reject { request, digest: d, done }
            &&& d == digest
            &&& done == k + 1
            &&& is_rejection(info, digest.messages[k], digest.masterchain_seqno, request)
        },
        k == digest.messages.len() ==> steps[k] == PollStep::Receive,
    decreases k,
{
    assert(poll_goes(info, states[k], events[k], states[k + 1], steps[k]));
    if k > 0 {
        law_digest_rejects_its_messages(info, digest, states, events, steps, k - 1);
        assert(events[k] == events[k]);
    }
}

/// A digest of a session that is too old, or of one that is to come, is passed over.
pub proof fn law_untimely_digest_is_passed_over(
    info: RempCatchainInfo,
    digest: RmqMessageDigest,
    expired: bool,
    pre: QueueState,
    post: QueueState,
    step: PollStep,
)
    requires
        expired || seqno_of_field(digest.masterchain_seqno) > info.master_cc_seqno,
        poll_goes(info, pre, PollEvent::ExpiryChecked { digest, expired }, post, step),
    ensures
        post == pre,
        step == PollStep::Receive,
{
}

/// A digest that was forwarded is read with the session and the messages that it was made of.
pub proof fn law_digest_is_read_as_written<Q>(
    from: ForwardState<Q>,
    sent: ForwardStep<Q>,
    info: RempCatchainInfo,
    pre: QueueState,
    post: QueueState,
    read: PollStep,
)
    requires
        forwards_digests(from, sent),
        sent is SendDigest,
        poll_goes(
            info,
            pre,
            PollEvent::Received(
                Ok(Some(ReceivedRecord::RmqMessageDigest(sent->SendDigest_digest))),
            ),
            post,
            read,
        ),
    ensures
        post == pre,
        read matches PollStep::CheckExpiry { message_cc, current_cc, digest } && {
            &&& from.digests.contains((message_cc as int, digest.messages@))
            &&& current_cc == info.master_cc_seqno
        },
{
    let progress = sent->SendDigest_progress@;
    let digest = sent->SendDigest_digest;
    assert(from.digests[progress.digest_at] == (
        seqno_of_field(digest.masterchain_seqno),
        digest.messages@,
    ));
}

/// A message that is put into a queue whose services do not fail is written to the catchain in this
/// validator's name, but otherwise as it is, and the full node is told that it is new.
pub proof fn law_put_message_is_written(
    info: RempCatchainInfo,
    old_message: Arc<RmqMessage>,
    s1: PutStep,
    s2: PutStep,
    s3: PutStep,
    s4: PutStep,
    s5: PutStep,
)
    requires
        put_goes(info, PutEvent::Called { old_message }, s1),
        s1 matches PutStep::Send { message, .. } ==> {
            &&& put_goes(info, PutEvent::Sent { message, reply: Ok(()) }, s2)
            &&& put_goes(info, PutEvent::SessionSought { message, found: true }, s3)
            &&& put_goes(info, PutEvent::BlockRequested { message }, s4)
        },
        put_goes(info, PutEvent::Responded, s5),
    ensures
        s1 matches PutStep::Send { message, master_cc_seqno } && {
            &&& (info.local_idx - message.source_idx) % 0x1_0000_0000 == 0
            &&& message.message_id == old_message.message_id
            &&& message.timestamp == old_message.timestamp
            &&& message.message == old_message.message
            &&& master_cc_seqno == info.master_cc_seqno
            &&& s2 == (PutStep::FindSession { queue_id: info.queue_id, message })
            &&& s3 == (PutStep::RequestNewBlock { message })
            &&& s4 matches PutStep::Respond(answer)
            &&& tells(answer, info, message, RempMessageStatus::RempNew)
        },
        s5 == PutStep::Return(Ok(())),
{
}

/// A message cannot be put into a queue without a session: no full node is told of it.
pub proof fn law_put_without_session_fails(
    info: RempCatchainInfo,
    message: Arc<RmqMessage>,
    step: PutStep,
)
    requires
        put_goes(info, PutEvent::SessionSought { message, found: false }, step),
    ensures
        step == PutStep::Return(Err(RmqError::NotStarted)),
{
}

/// The event tells what came of what the step asked for.
pub open spec fn add_answers(step: AddStep, event: AddEvent) -> bool {
    match (step, event) {
        (
            AddStep::MarkCollationAttempt { message, status_to_send, .. },
            AddEvent::Marked { message: same, status_to_send: same_status, .. },
        ) => same == message && same_status == status_to_send,
        (AddStep::Respond(_), AddEvent::Responded) => true,
        _ => false,
    }
}

/// The event tells what came of what the step asked for.
pub open spec fn poll_answers(step: PollStep, event: PollEvent) -> bool {
    match (step, event) {
        (PollStep::ReadStatus { rest, .. }, PollEvent::StatusRead { rest: same, .. }) => same
            == rest,
        (PollStep::Receive, PollEvent::Received(_)) => true,
        (
            PollStep::Register { message, forwarded, .. },
            PollEvent::Registered { message: same, forwarded: same_forwarded, .. },
        ) => same == message && same_forwarded == forwarded,
        (
            PollStep::FindLevel { message, old_status },
            PollEvent::LevelFound { message: same, old_status: same_status, .. },
        ) => same == message && same_status == old_status,
        (
            PollStep::Downgrade { message, new_status },
            PollEvent::Downgraded { message: same, new_status: same_status, .. },
        ) => same == message && same_status == new_status,
        (PollStep::Adding(step), PollEvent::Adding(event)) => add_answers(step, event),
        (
            PollStep::CheckExpiry { digest, .. },
            PollEvent::ExpiryChecked { digest: same, .. },
        ) => same == digest,
        (
            PollStep::Reject { digest, done, .. },
            PollEvent::Rejected { digest: same, done: same_done, .. },
        ) => same == digest && same_done == done,
        _ => false,
    }
}

/// A run of polling a queue with which nothing interferes, up to some step.
pub open spec fn poll_run(
    info: RempCatchainInfo,
    states: Seq<QueueState>,
    events: Seq<PollEvent>,
    steps: Seq<PollStep>,
) -> bool {
    &&& events.len() > 0
    &&& steps.len() == events.len()
    &&& states.len() == events.len() + 1
    &&& events[0] is Called
    &&& forall|i: int| #![trigger steps[i]]
        0 <= i < steps.len() ==> poll_goes(info, states[i], events[i], states[i + 1], steps[i])
    &&& forall|i: int| #![trigger events[i]]
        0 < i < events.len() ==> poll_answers(steps[i - 1], events[i])
}

/// The messages whose status was read, in their order.
pub open spec fn statuses_read(steps: Seq<PollStep>) -> Seq<UInt256>
    decreases steps.len(),
{
    if steps.len() == 0 {
        Seq::empty()
    } else {
        let before = statuses_read(steps.drop_last());
        match steps.last() {
            PollStep::ReadStatus { message_id, .. } => before.push(message_id),
            _ => before,
        }
    }
}

// The messages whose status is still to be read after a step, in their order.
spec fn still_to_read(step: PollStep) -> Seq<UInt256> {
    match step {
        PollStep::ReadStatus { rest, .. } => rest@.reverse(),
        _ => Seq::empty(),
    }
}

proof fn lemma_reads(rest: Seq<UInt256>, step: PollStep)
    requires
        poll_reads(rest, step),
    ensures
        rest.reverse() == match step {
            PollStep::ReadStatus { message_id, .. } => seq![message_id] + still_to_read(step),
            _ => Seq::empty(),
        },
{
    if let PollStep::ReadStatus { message_id, .. } = step {
        assert(rest.reverse() =~= seq![message_id] + still_to_read(step));
    } else {
        assert(rest.reverse() =~= Seq::empty());
    }
}

proof fn lemma_read_prefix(
    info: RempCatchainInfo,
    states: Seq<QueueState>,
    events: Seq<PollEvent>,
    steps: Seq<PollStep>,
    ids: Seq<UInt256>,
    k: int,
)
    requires
        poll_run(info, states, events, steps),
        poll_reads(ids, steps[0]),
        0 < k <= steps.len(),
    ensures
        statuses_read(steps.take(k)) + still_to_read(steps[k - 1]) == ids.reverse(),
    decreases k,
{
    let step = steps[k - 1];
    let event = events[k - 1];
    assert(poll_goes(info, states[k - 1], event, states[k], step));
    assert(steps.take(k).drop_last() =~= steps.take(k - 1));
    assert(steps.take(k).last() == step);
    if k == 1 {
        assert(statuses_read(steps.take(0)) =~= Seq::empty());
        lemma_reads(ids, step);
    } else {
        lemma_read_prefix(info, states, events, steps, ids, k - 1);
        assert(poll_answers(steps[k - 2], event));
        if let PollEvent::StatusRead { rest, .. } = event {
            lemma_reads(rest@, step);
        } else {
            assert(still_to_read(steps[k - 2]) =~= Seq::empty());
            assert(!(step is ReadStatus));
        }
    }
    assert(statuses_read(steps.take(k)) + still_to_read(step) =~= ids.reverse());
}

/// A complete run of polling reads the status of every message that was under collation when it was
/// called, each once, and of no other message.
pub proof fn law_polling_checks_old_messages(
    info: RempCatchainInfo,
    states: Seq<QueueState>,
    events: Seq<PollEvent>,
    steps: Seq<PollStep>,
)
    requires
        poll_run(info, states, events, steps),
        steps.last() is Return,
    ensures
        statuses_read(steps).no_duplicates(),
        statuses_read(steps).to_set() == states[0].marks.dom(),
{
    let n = steps.len() as int;
    assert(poll_goes(info, states[0], events[0], states[1], steps[0]));
    let ids = choose|ids: Seq<UInt256>|
        {
            &&& ids.no_duplicates()
            &&& #[trigger] ids.to_set() == states[0].marks.dom()
            &&& poll_reads(ids, steps[0])
        };
    lemma_read_prefix(info, states, events, steps, ids, n);
    assert(steps.take(n) =~= steps);
    let read = statuses_read(steps);
    assert(read =~= ids.reverse());
    assert forall|id: UInt256| #[trigger] read.to_set().contains(id) <==> ids.to_set().contains(
        id,
    ) by {
        if ids.contains(id) {
            let i = ids.index_of(id);
            assert(read[ids.len() - 1 - i] == id);
        }
        if read.contains(id) {
            let i = read.index_of(id);
            assert(ids[ids.len() - 1 - i] == id);
        }
    }
    assert(read.to_set() =~= states[0].marks.dom());
}

/// What the message cache is to be told of a message that was received.
pub open spec fn offer_of(
    info: RempCatchainInfo,
    message: Arc<RmqMessage>,
    masterchain_seqno: i32,
) -> ExternalMessageStatus {
    ExternalMessageStatus {
        message_id: message.message_id,
        message: Some(message),
        shard: info.shard,
        status: RempMessageStatus::RempNew,
        master_cc_seqno: seqno_of_field(masterchain_seqno) as u32,
    }
}

/// What the message cache is to be told of the messages that were received, in their order.
pub open spec fn offers_due(info: RempCatchainInfo, events: Seq<PollEvent>) -> Seq<
    ExternalMessageStatus,
>
    decreases events.len(),
{
    if events.len() == 0 {
        Seq::empty()
    } else {
        let before = offers_due(info, events.drop_last());
        match events.last() {
            PollEvent::Received(
                Ok(Some(ReceivedRecord::RmqMessage { message: Ok(message), masterchain_seqno })),
            ) => before.push(offer_of(info, message, masterchain_seqno)),
            _ => before,
        }
    }
}

/// What the message cache is told of messages that were received, in their order.
pub open spec fn offers_made(steps: Seq<PollStep>) -> Seq<ExternalMessageStatus>
    decreases steps.len(),
{
    if steps.len() == 0 {
        Seq::empty()
    } else {
        let before = offers_made(steps.drop_last());
        match steps.last() {
            PollStep::Register { request, .. } => before.push(request),
            _ => before,
        }
    }
}

proof fn lemma_offers_prefix(
    info: RempCatchainInfo,
    states: Seq<QueueState>,
    events: Seq<PollEvent>,
    steps: Seq<PollStep>,
    k: int,
)
    requires
        poll_run(info, states, events, steps),
        0 <= k <= steps.len(),
    ensures
        offers_made(steps.take(k)) == offers_due(info, events.take(k)),
    decreases k,
{
    if k == 0 {
        assert(offers_made(steps.take(0)) =~= Seq::empty());
        assert(offers_due(info, events.take(0)) =~= Seq::empty());
    } else {
        lemma_offers_prefix(info, states, events, steps, k - 1);
        let step = steps[k - 1];
        let event = events[k - 1];
        assert(poll_goes(info, states[k - 1], event, states[k], step));
        assert(steps.take(k).drop_last() =~= steps.take(k - 1));
        assert(steps.take(k).last() == step);
        assert(events.take(k).drop_last() =~= events.take(k - 1));
        assert(events.take(k).last() == event);
    }
}

proof fn lemma_waits_on(
    info: RempCatchainInfo,
    states: Seq<QueueState>,
    events: Seq<PollEvent>,
    steps: Seq<PollStep>,
    i: int,
    j: int,
    id: UInt256,
)
    requires
        poll_run(info, states, events, steps),
        0 <= i <= j < states.len(),
        states[i].is_waiting(id),
    ensures
        states[j].is_waiting(id),
    decreases j,
{
    if i < j {
        lemma_waits_on(info, states, events, steps, i, j - 1, id);
        assert(poll_goes(info, states[j - 1], events[j - 1], states[j], steps[j - 1]));
    }
}

/// In a run of polling, every message that is received is offered to the message cache exactly once,
/// as new, in the order in which the messages were received; no other message is offered so. Every
/// message that the cache takes as new, and every message that was lowered to ignored, waits for the
/// collator afterwards, and so does every message that waited before.
pub proof fn law_received_messages_are_offered(
    info: RempCatchainInfo,
    states: Seq<QueueState>,
    events: Seq<PollEvent>,
    steps: Seq<PollStep>,
)
    requires
        poll_run(info, states, events, steps),
    ensures
        offers_made(steps) == offers_due(info, events),
        forall|i: int| #![trigger events[i]]
            0 <= i < events.len() ==> (events[i] matches PollEvent::Registered {
                message,
                reply: Ok(None),
                ..
            } ==> states.last().is_waiting(message.message_id)),
        forall|i: int| #![trigger events[i]]
            0 <= i < events.len() ==> (events[i] matches PollEvent::Downgraded {
                message,
                reply: Ok(_),
                ..
            } ==> states.last().is_waiting(message.message_id)),
        forall|id: UInt256|
            states[0].is_waiting(id) ==> #[trigger] states.last().is_waiting(id),
{
    let n = steps.len() as int;
    lemma_offers_prefix(info, states, events, steps, n);
    assert(steps.take(n) =~= steps);
    assert(events.take(n) =~= events);
    assert forall|i: int| #![trigger events[i]] 0 <= i < events.len() implies (events[i] matches
        PollEvent::Registered { message, reply: Ok(None), .. } ==> states.last().is_waiting(
        message.message_id,
    )) by {
        if let PollEvent::Registered { message, reply: Ok(None), .. } = events[i] {
            assert(poll_goes(info, states[i], events[i], states[i + 1], steps[i]));
            lemma_waits_on(info, states, events, steps, i + 1, n, message.message_id);
        }
    }
    assert forall|i: int| #![trigger events[i]] 0 <= i < events.len() implies (events[i] matches
        PollEvent::Downgraded { message, reply: Ok(_), .. } ==> states.last().is_waiting(
        message.message_id,
    )) by {
        if let PollEvent::Downgraded { message, reply: Ok(_), .. } = events[i] {
            assert(poll_goes(info, states[i], events[i], states[i + 1], steps[i]));
            lemma_waits_on(info, states, events, steps, i + 1, n, message.message_id);
        }
    }
    assert forall|id: UInt256| states[0].is_waiting(id) implies #[trigger] states.last().is_waiting(
        id,
    ) by {
        lemma_waits_on(info, states, events, steps, 0, n, id);
    }
}

/// The message cache is to be told that the message of the digest's session was rejected by the
/// queue, in no block, because of the digest.
pub open spec fn is_rejection(
    info: RempCatchainInfo,
    message_id: UInt256,
    masterchain_seqno: i32,
    request: ExternalMessageStatus,
) -> bool {
    &&& request.message_id == message_id
    &&& request.message is None
    &&& request.shard == info.shard
    &&& same_bits(masterchain_seqno, request.master_cc_seqno as int)
    &&& request.status matches RempMessageStatus::RempRejected(r)
    &&& r.level == RempMessageLevel::RempQueue
    &&& stands_for_none(r.block_id)
    &&& r.error@ == "reject received from digest"@
}

/// What becomes of a message that polling adds: one that waits already is left alone and polling goes
/// on; any other is put into the collation queue, and the attempt is to be noted.
pub open spec fn polling_adds(
    pre: QueueState,
    message: Arc<RmqMessage>,
    status: RempMessageStatus,
    post: QueueState,
    step: PollStep,
) -> bool {
    if pre.marks.get(message.message_id) == Some(true) {
        &&& post == pre
        &&& step == PollStep::Receive
    } else {
        &&& is_put_into_queue(pre, message.message_id, message.timestamp, post)
        &&& step matches PollStep::Adding(
            AddStep::MarkCollationAttempt { message_id, message: same, status_to_send },
        )
        &&& message_id == message.message_id
        &&& same == message
        &&& status_to_send == Some(status)
    }
}

/// Receiving a record changes nothing. A message is made known as new, with its own session, and is
/// forwarded exactly if that session is earlier than the queue's; an unreadable one ends polling with
/// its error; a digest is checked against the queue's session; and if nothing can be received,
/// polling ends without an error.
pub proof fn law_records_are_received(
    queue: &mut MessageQueue,
    received: Result<Option<ReceivedRecord>, String>,
    step: PollStep,
)
    requires
        call_ensures(MessageQueue::poll, (queue, PollEvent::Received(received)), step),
    ensures
        final(queue)@ == old(queue)@,
        match received {
            Ok(Some(ReceivedRecord::RmqMessage { message: Ok(message), masterchain_seqno })) => {
                &&& step matches PollStep::Register { request, message: same, forwarded }
                &&& same == message
                &&& request.message_id == message.message_id
                &&& request.message == Some(message)
                &&& request.shard == old(queue).info().shard
                &&& request.status == RempMessageStatus::RempNew
                &&& same_bits(masterchain_seqno, request.master_cc_seqno as int)
                &&& forwarded <==> request.master_cc_seqno < old(queue).info().master_cc_seqno
            },
            Ok(Some(ReceivedRecord::RmqMessage { message: Err(text), .. })) => step
                == PollStep::Return(Err(RmqError::Service(text))),
            Ok(Some(ReceivedRecord::RmqMessageDigest(digest))) => {
                &&& step matches PollStep::CheckExpiry { message_cc, current_cc, digest: same }
                &&& same == digest
                &&& same_bits(digest.masterchain_seqno, message_cc as int)
                &&& current_cc == old(queue).info().master_cc_seqno
            },
            Ok(None) => step == PollStep::Return(Ok(())),
            Err(_) => step == PollStep::Return(Ok(())),
        },
{
}

/// A message that the cache did not know is added as new. One that it knew is taken up again exactly
/// if it comes from an earlier session and is not rejected, timed out or accepted by the masterchain;
/// any other is skipped, and so is one that the cache cannot take.
pub proof fn law_registered_messages(
    queue: &mut MessageQueue,
    message: Arc<RmqMessage>,
    forwarded: bool,
    reply: Result<Option<RempMessageStatus>, String>,
    step: PollStep,
)
    requires
        call_ensures(
            MessageQueue::poll,
            (queue, PollEvent::Registered { message, forwarded, reply }),
            step,
        ),
    ensures
        match reply {
            Ok(None) => polling_adds(
                old(queue)@,
                message,
                RempMessageStatus::RempNew,
                final(queue)@,
                step,
            ),
            Ok(Some(old_status)) => {
                &&& final(queue)@ == old(queue)@
                &&& step == if forwarded && !is_settled(old_status) {
                    PollStep::FindLevel { message, old_status }
                } else {
                    PollStep::Receive
                }
            },
            Err(_) => final(queue)@ == old(queue)@ && step == PollStep::Receive,
        },
{
    law_offering(queue@, message.message_id, message.timestamp, true);
}

/// A message that is taken up again is lowered to ignored, at the level that was found and with the
/// block of its status. If the cache takes that, the message is added with that very status; if not,
/// polling ends with the error.
pub proof fn law_lowered_messages(
    queue: &mut MessageQueue,
    message: Arc<RmqMessage>,
    old_status: RempMessageStatus,
    level: RempMessageLevel,
    lowering: PollStep,
    then: &mut MessageQueue,
    new_status: RempMessageStatus,
    reply: Result<Option<RempMessageStatus>, String>,
    step: PollStep,
)
    requires
        call_ensures(
            MessageQueue::poll,
            (queue, PollEvent::LevelFound { message, old_status, level }),
            lowering,
        ),
        call_ensures(
            MessageQueue::poll,
            (then, PollEvent::Downgraded { message, new_status, reply }),
            step,
        ),
    ensures
        final(queue)@ == old(queue)@,
        lowering matches PollStep::Downgrade {
            message: same,
            new_status: RempMessageStatus::RempIgnored(ignored),
        } && same == message && ignored.level == level && is_block_of(old_status, ignored.block_id),
        match reply {
            Ok(_) => polling_adds(old(then)@, message, new_status, final(then)@, step),
            Err(text) => final(then)@ == old(then)@ && step == PollStep::Return(
                Err(RmqError::Service(text)),
            ),
        },
{
    law_offering(then@, message.message_id, message.timestamp, true);
}

/// Adding a message puts it into the collation queue unless it waits there. If it did not, the
/// attempt is noted, and then the full node is told the status that is to be sent, if there is one.
/// Adding fails exactly as noting the attempt fails.
pub proof fn law_adding(queue: &mut MessageQueue, event: AddEvent, step: AddStep)
    requires
        call_ensures(MessageQueue::add_pending_collation, (queue, event), step),
    ensures
        match event {
            AddEvent::Called { message, status_to_send } => if old(queue)@.marks.get(
                message.message_id,
            ) == Some(true) {
                &&& final(queue)@ == old(queue)@
                &&& step == AddStep::Return(Ok(()))
            } else {
                &&& is_put_into_queue(
                    old(queue)@,
                    message.message_id,
                    message.timestamp,
                    final(queue)@,
                )
                &&& step matches AddStep::MarkCollationAttempt {
                    message_id,
                    message: same,
                    status_to_send: same_status,
                }
                &&& message_id == message.message_id
                &&& same == message
                &&& same_status == status_to_send
            },
            AddEvent::Marked { message, status_to_send: Some(status), reply: Ok(_) } => {
                &&& final(queue)@ == old(queue)@
                &&& step matches AddStep::Respond(answer)
                &&& tells(answer, old(queue).info(), message, status)
            },
            AddEvent::Marked { status_to_send: None, reply: Ok(_), .. } => {
                &&& final(queue)@ == old(queue)@
                &&& step == AddStep::Return(Ok(()))
            },
            AddEvent::Marked { reply: Err(text), .. } => {
                &&& final(queue)@ == old(queue)@
                &&& step == AddStep::Return(Err(RmqError::Service(text)))
            },
            AddEvent::Responded => {
                &&& final(queue)@ == old(queue)@
                &&& step == AddStep::Return(Ok(()))
            },
        },
{
    if let AddEvent::Called { message, .. } = event {
        law_offering(queue@, message.message_id, message.timestamp, true);
    }
}

/// While polling adds a message, it does what adding asks for; when the message is added, polling
/// receives the next record, and when adding fails, polling ends with the error.
pub proof fn law_polling_follows_adding(
    queue: &mut MessageQueue,
    alone: &mut MessageQueue,
    event: AddEvent,
    step: PollStep,
    adding: AddStep,
)
    requires
        queue@ == alone@,
        queue.info() == alone.info(),
        call_ensures(MessageQueue::poll, (queue, PollEvent::Adding(event)), step),
        call_ensures(MessageQueue::add_pending_collation, (alone, event), adding),
    ensures
        final(queue)@ == final(alone)@,
        match adding {
            AddStep::Return(Ok(_)) => step == PollStep::Receive,
            AddStep::Return(Err(e)) => step == PollStep::Return(Err(e)),
            AddStep::Respond(answer) => step == PollStep::Adding(AddStep::Respond(answer)),
            AddStep::MarkCollationAttempt { message_id, message, status_to_send } => step
                == PollStep::Adding(
                AddStep::MarkCollationAttempt { message_id, message, status_to_send },
            ),
        },
{
}

/// A digest rejects its messages one after the other, unless its session is too old or later than
/// the queue's. Rejecting ends polling with the error if the cache fails. Nothing under collation
/// changes.
pub proof fn law_digests_are_taken_in(queue: &mut MessageQueue, event: PollEvent, step: PollStep)
    requires
        call_ensures(MessageQueue::poll, (queue, event), step),
    ensures
        match event {
            PollEvent::ExpiryChecked { digest, expired } => {
                &&& final(queue)@ == old(queue)@
                &&& if !expired && digest.messages.len() > 0 && (exists|session: int|
                    same_bits(digest.masterchain_seqno, session) && session
                        <= old(queue).info().master_cc_seqno) {
                    &&& step matches PollStep::Reject { request, digest: same, done }
                    &&& same == digest
                    &&& done == 1
                    &&& is_rejection(
                        old(queue).info(),
                        digest.messages[0],
                        digest.masterchain_seqno,
                        request,
                    )
                } else {
                    step == PollStep::Receive
                }
            },
            PollEvent::Rejected { digest, done, reply: Ok(_) } => {
                &&& final(queue)@ == old(queue)@
                &&& if done < digest.messages.len() {
                    &&& step matches PollStep::Reject { request, digest: same, done: next }
                    &&& same == digest
                    &&& next == done + 1
                    &&& is_rejection(
                        old(queue).info(),
                        digest.messages[done as int],
                        digest.masterchain_seqno,
                        request,
                    )
                } else {
                    step == PollStep::Receive
                }
            },
            PollEvent::Rejected { reply: Err(text), .. } => {
                &&& final(queue)@ == old(queue)@
                &&& step == PollStep::Return(Err(RmqError::Service(text)))
            },
            _ => true,
        },
{
    if let PollEvent::ExpiryChecked { digest, .. } = event {
        assert(same_bits(
            digest.masterchain_seqno,
            seqno_of_field(digest.masterchain_seqno),
        ));
    }
}

/// Polling reads the status of one message after the other before it receives records, and changes
/// nothing.
pub proof fn law_statuses_are_read_first(
    queue: &mut MessageQueue,
    rest: Vec<UInt256>,
    status: Option<RempMessageStatus>,
    step: PollStep,
)
    requires
        call_ensures(MessageQueue::poll, (queue, PollEvent::StatusRead { rest, status }), step),
    ensures
        final(queue)@ == old(queue)@,
        rest.len() == 0 ==> step == PollStep::Receive,
        rest.len() > 0 ==> (step matches PollStep::ReadStatus { message_id, rest: r } && r@.push(
            message_id,
        ) == rest@),
{
    if rest.len() > 0 {
        assert(rest@ =~= rest@.drop_last().push(rest@.last()));
    }
}

} // verus!
