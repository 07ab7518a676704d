//! What a whole run of forwarding delivers to the next queues.
use std::sync::Arc;
use vstd::prelude::*;

use crate::digests::lemma_place_of;
use crate::digests::lemma_with_rejected;
use crate::digests::listed_under;
use crate::digests::place_of;
use crate::digests::well_listed;
use crate::digests::with_rejected;
use crate::digests::RejectedDigests;
use crate::error::RmqError;
use crate::forward::counted;
use crate::forward::forward_goes;
use crate::forward::forward_sends;
use crate::forward::forward_starts;
use crate::forward::forward_turns;
use crate::forward::forwards_digests;
use crate::forward::ForwardCandidate;
use crate::forward::ForwardEvent;
use crate::forward::ForwardState;
use crate::forward::ForwardStep;
use crate::ident::UInt256;
use crate::laws_status::same_bits;
use crate::manager::ManagerState;
use crate::manager::RmqQueueManager;
use crate::message::seqno_of_field;
use crate::message::RmqMessageDigest;
use crate::status::RempMessageStatus;

verus! {

/// What is known of the messages while they are forwarded.
pub struct Knowledge {
    /// The message cache.
    pub lookup: spec_fn(UInt256) -> Option<ForwardCandidate>,
    /// Whether the first session is too old in the second.
    pub expired: spec_fn(u32, u32) -> bool,
    pub finally_rejected: spec_fn(RempMessageStatus) -> bool,
    pub finally_accepted: spec_fn(RempMessageStatus) -> bool,
}

/// What becomes of a message.
pub enum Fate {
    /// It is not forwarded.
    Stays,
    /// It is forwarded as rejected.
    Rejected(ForwardCandidate),
    /// It is forwarded, to be collated.
    Open(ForwardCandidate),
}

/// Something that a next queue gets.
pub enum Delivery<Q> {
    Start(Arc<Q>),
    Message(Arc<Q>, ForwardCandidate),
    Digest(Arc<Q>, int, Seq<UInt256>),
}

impl Knowledge {
    /// What becomes of a message that has not timed out and is not too old.
    pub open spec fn fate_of_recent(self, candidate: ForwardCandidate) -> Fate {
        if (self.finally_rejected)(candidate.status) {
            Fate::Rejected(candidate)
        } else if (self.finally_accepted)(candidate.status) {
            Fate::Stays
        } else {
            Fate::Open(candidate)
        }
    }

    /// What becomes of a message.
    pub open spec fn fate(self, id: UInt256, new_cc: u32) -> Fate {
        match (self.lookup)(id) {
            None => Fate::Stays,
            Some(candidate) => if candidate.status is RempTimeout || (self.expired)(
                candidate.master_cc,
                new_cc,
            ) {
                Fate::Stays
            } else {
                self.fate_of_recent(candidate)
            },
        }
    }

    /// What the queues get for a list of messages: each message whose fate is open, in the order of
    /// the list, to all queues.
    pub open spec fn message_deliveries<Q>(
        self,
        new_cc: u32,
        queues: Seq<Arc<Q>>,
        ids: Seq<UInt256>,
    ) -> Seq<Delivery<Q>>
        decreases ids.len(),
    {
        if ids.len() == 0 {
            Seq::empty()
        } else {
            let rest = self.message_deliveries(new_cc, queues, ids.drop_first());
            match self.fate(ids[0], new_cc) {
                Fate::Open(candidate) => message_to(queues, candidate) + rest,
                _ => rest,
            }
        }
    }

    /// The listing of rejected messages after a list of messages was gone through.
    pub open spec fn listing(
        self,
        new_cc: u32,
        before: Seq<(int, Seq<UInt256>)>,
        ids: Seq<UInt256>,
    ) -> Seq<(int, Seq<UInt256>)>
        decreases ids.len(),
    {
        if ids.len() == 0 {
            before
        } else {
            match self.fate(ids[0], new_cc) {
                Fate::Rejected(c) => self.listing(
                    new_cc,
                    with_rejected(before, c.master_cc as int, c.message.message_id),
                    ids.drop_first(),
                ),
                _ => self.listing(new_cc, before, ids.drop_first()),
            }
        }
    }

    /// The rejected messages of one session among a list of messages, in the order of the list.
    pub open spec fn rejected_of_session(
        self,
        new_cc: u32,
        session: int,
        ids: Seq<UInt256>,
    ) -> Seq<UInt256>
        decreases ids.len(),
    {
        if ids.len() == 0 {
            Seq::empty()
        } else {
            let rest = self.rejected_of_session(new_cc, session, ids.drop_first());
            match self.fate(ids[0], new_cc) {
                Fate::Rejected(c) => if c.master_cc == session {
                    seq![c.message.message_id] + rest
                } else {
                    rest
                },
                _ => rest,
            }
        }
    }

    /// All that the queues get: they are started, get the open messages, and get the digests.
    pub open spec fn plan<Q>(
        self,
        new_cc: u32,
        queues: Seq<Arc<Q>>,
        pending: Seq<UInt256>,
    ) -> Seq<Delivery<Q>> {
        start_all(queues) + self.message_deliveries(new_cc, queues, pending) + digest_deliveries(
            queues,
            self.listing(new_cc, Seq::empty(), pending),
        )
    }
}

/// All queues are started.
pub open spec fn start_all<Q>(queues: Seq<Arc<Q>>) -> Seq<Delivery<Q>> {
    queues.map_values(|queue: Arc<Q>| Delivery::Start(queue))
}

/// A message goes to all queues.
pub open spec fn message_to<Q>(queues: Seq<Arc<Q>>, candidate: ForwardCandidate) -> Seq<
    Delivery<Q>,
> {
    queues.map_values(|queue: Arc<Q>| Delivery::Message(queue, candidate))
}

/// A digest goes to all queues.
pub open spec fn digest_to<Q>(queues: Seq<Arc<Q>>, digest: (int, Seq<UInt256>)) -> Seq<
    Delivery<Q>,
> {
    queues.map_values(|queue: Arc<Q>| Delivery::Digest(queue, digest.0, digest.1))
}

/// All digests of a listing go to all queues.
pub open spec fn digest_deliveries<Q>(
    queues: Seq<Arc<Q>>,
    listing: Seq<(int, Seq<UInt256>)>,
) -> Seq<Delivery<Q>>
    decreases listing.len(),
{
    if listing.len() == 0 {
        Seq::empty()
    } else {
        digest_to(queues, listing[0]) + digest_deliveries(queues, listing.drop_first())
    }
}

/// What a step delivers.
pub open spec fn delivered<Q>(step: ForwardStep<Q>) -> Seq<Delivery<Q>> {
    match step {
        ForwardStep::StartQueue { queue, .. } => seq![Delivery::Start(queue)],
        ForwardStep::SendMessage { queue, candidate, .. } => seq![
            Delivery::Message(queue, candidate),
        ],
        ForwardStep::SendDigest { queue, digest, .. } => seq![
            Delivery::Digest(queue, seqno_of_field(digest.masterchain_seqno), digest.messages@),
        ],
        _ => Seq::empty(),
    }
}

/// What a sequence of steps delivers.
pub open spec fn all_delivered<Q>(steps: Seq<ForwardStep<Q>>) -> Seq<Delivery<Q>>
    decreases steps.len(),
{
    if steps.len() == 0 {
        Seq::empty()
    } else {
        all_delivered(steps.drop_last()) + delivered(steps.last())
    }
}

/// The event tells what came of what the step asked for, where questions are answered from what is
/// known of the messages.
pub open spec fn forward_answers<Q>(
    world: Knowledge,
    step: ForwardStep<Q>,
    event: ForwardEvent<Q>,
) -> bool {
    match (step, event) {
        (
            ForwardStep::StartQueue { progress, .. },
            ForwardEvent::QueueStarted { progress: same },
        ) => same == progress,
        (
            ForwardStep::GetMessage { message_id, progress },
            ForwardEvent::Found { progress: same, found },
        ) => same == progress && found == (world.lookup)(message_id),
        (
            ForwardStep::CheckExpiry { new_cc_seqno, candidate, progress },
            ForwardEvent::ExpiryChecked { progress: same, candidate: same_candidate, expired },
        ) => same == progress && same_candidate == candidate && expired == (world.expired)(
            candidate.master_cc,
            new_cc_seqno,
        ),
        (
            ForwardStep::Classify { candidate, progress },
            ForwardEvent::Classified {
                progress: same,
                candidate: same_candidate,
                finally_rejected,
                finally_accepted,
            },
        ) => same == progress && same_candidate == candidate && finally_rejected == (
        world.finally_rejected)(candidate.status) && finally_accepted == (world.finally_accepted)(
            candidate.status,
        ),
        (
            ForwardStep::SendMessage { candidate, progress, .. },
            ForwardEvent::MessageSent { progress: same, candidate: same_candidate, .. },
        ) => same == progress && same_candidate == candidate,
        (
            ForwardStep::SendDigest { progress, .. },
            ForwardEvent::DigestSent { progress: same, .. },
        ) => same == progress,
        _ => false,
    }
}

/// A run of forwarding up to some step, from the listing of the messages on.
pub open spec fn forward_run<Q>(
    world: Knowledge,
    state: ManagerState<Q>,
    new_cc: u32,
    pending: Vec<UInt256>,
    events: Seq<ForwardEvent<Q>>,
    steps: Seq<ForwardStep<Q>>,
) -> bool {
    &&& events.len() > 0
    &&& steps.len() == events.len()
    &&& events[0] == (ForwardEvent::<Q>::Listed { new_cc_seqno: new_cc, listed: Ok(pending) })
    &&& forall|i: int| #![trigger steps[i]]
        0 <= i < steps.len() ==> forward_goes(state, events[i], steps[i])
    &&& forall|i: int| #![trigger events[i]]
        0 < i < events.len() ==> forward_answers(world, steps[i - 1], events[i])
}

/// The number of records that were sent.
pub open spec fn records_sent<Q>(events: Seq<ForwardEvent<Q>>) -> int
    decreases events.len(),
{
    if events.len() == 0 {
        0
    } else {
        records_sent(events.drop_last()) + match events.last() {
            ForwardEvent::MessageSent { sent: true, .. } => 1int,
            ForwardEvent::DigestSent { sent: true, .. } => 1,
            _ => 0,
        }
    }
}

// What is still to be delivered, when forwarding turns to the next message.
spec fn turn_owes<Q>(world: Knowledge, at: ForwardState<Q>) -> Seq<Delivery<Q>> {
    let ids = at.pending.skip(at.message_at);
    world.message_deliveries(at.new_cc_seqno, at.queues, ids) + digest_deliveries(
        at.queues,
        world.listing(at.new_cc_seqno, at.digests, ids),
    )
}

// What is still to be delivered, when the fate of a message is known.
spec fn fate_owes<Q>(world: Knowledge, at: ForwardState<Q>, fate: Fate) -> Seq<Delivery<Q>> {
    match fate {
        Fate::Stays => turn_owes(world, at),
        Fate::Rejected(c) => turn_owes(
            world,
            ForwardState {
                digests: with_rejected(at.digests, c.master_cc as int, c.message.message_id),
                ..at
            },
        ),
        Fate::Open(c) => message_to(at.queues, c) + turn_owes(world, at),
    }
}

// What is still to be delivered, when forwarding goes on with the digests.
spec fn digests_owe<Q>(at: ForwardState<Q>) -> Seq<Delivery<Q>> {
    if at.digest_at >= at.digests.len() {
        Seq::empty()
    } else {
        digest_to(at.queues.skip(at.queue_at), at.digests[at.digest_at]) + digest_deliveries(
            at.queues,
            at.digests.skip(at.digest_at + 1),
        )
    }
}

// What is still to be delivered, what the step delivers counted in.
spec fn owes<Q>(world: Knowledge, step: ForwardStep<Q>) -> Seq<Delivery<Q>> {
    match step {
        ForwardStep::StartQueue { queue, progress } => delivered(step) + (start_all(
            progress@.queues.skip(progress@.queue_at),
        ) + turn_owes(world, progress@)),
        ForwardStep::GetMessage { message_id, progress } => fate_owes(
            world,
            progress@,
            world.fate(message_id, progress@.new_cc_seqno),
        ),
        ForwardStep::CheckExpiry { candidate, new_cc_seqno, progress } => fate_owes(
            world,
            progress@,
            if (world.expired)(candidate.master_cc, new_cc_seqno) {
                Fate::Stays
            } else {
                world.fate_of_recent(candidate)
            },
        ),
        ForwardStep::Classify { candidate, progress } => fate_owes(
            world,
            progress@,
            world.fate_of_recent(candidate),
        ),
        ForwardStep::SendMessage { candidate, progress, .. } => delivered(step) + (message_to(
            progress@.queues.skip(progress@.queue_at),
            candidate,
        ) + turn_owes(world, progress@)),
        ForwardStep::SendDigest { progress, .. } => delivered(step) + digests_owe(progress@),
        _ => Seq::empty(),
    }
}

// The progress is one that a run can reach.
spec fn in_bounds<Q>(at: ForwardState<Q>, queues: Seq<Arc<Q>>, pending: Seq<UInt256>) -> bool {
    &&& at.queues == queues
    &&& at.pending == pending
    &&& queues.len() > 0
    &&& 0 <= at.queue_at <= queues.len()
    &&& 0 <= at.message_at <= pending.len()
    &&& 0 <= at.digest_at
}

spec fn step_in_bounds<Q>(
    step: ForwardStep<Q>,
    queues: Seq<Arc<Q>>,
    pending: Seq<UInt256>,
    sent: int,
) -> bool {
    match step {
        ForwardStep::ListPending { .. } => false,
        ForwardStep::StartQueue { progress, .. } => in_bounds(progress@, queues, pending)
            && progress@.sent == sent,
        ForwardStep::GetMessage { progress, .. } => in_bounds(progress@, queues, pending)
            && progress@.sent == sent,
        ForwardStep::CheckExpiry { progress, new_cc_seqno, .. } => in_bounds(
            progress@,
            queues,
            pending,
        ) && progress@.sent == sent && new_cc_seqno == progress@.new_cc_seqno,
        ForwardStep::Classify { progress, .. } => in_bounds(progress@, queues, pending)
            && progress@.sent == sent,
        ForwardStep::SendMessage { progress, .. } => in_bounds(progress@, queues, pending)
            && progress@.sent == sent,
        ForwardStep::SendDigest { progress, .. } => in_bounds(progress@, queues, pending)
            && progress@.sent == sent && progress@.digest_at < progress@.digests.len(),
        ForwardStep::Return(report) => report matches Some((total, count)) && total == pending.len()
            && count == sent,
    }
}

proof fn lemma_digests<Q>(world: Knowledge, from: ForwardState<Q>, step: ForwardStep<Q>)
    requires
        in_bounds(from, from.queues, from.pending),
        from.digest_at < from.digests.len() || from.queue_at == 0,
        forwards_digests(from, step),
    ensures
        owes(world, step) == digests_owe(from),
        step_in_bounds(step, from.queues, from.pending, from.sent),
{
    if from.queue_at < from.queues.len() {
        if from.digest_at < from.digests.len() {
            let digest = from.digests[from.digest_at];
            assert(digest_to(from.queues.skip(from.queue_at), digest) =~= seq![
                Delivery::Digest(from.queues[from.queue_at], digest.0, digest.1),
            ] + digest_to(from.queues.skip(from.queue_at + 1), digest));
            assert(owes(world, step) =~= digests_owe(from));
        }
    } else {
        let next = from.digest_at + 1;
        assert(digest_to(from.queues.skip(from.queue_at), from.digests[from.digest_at])
            =~= Seq::empty());
        let rest = from.digests.skip(next);
        if next < from.digests.len() {
            let digest = from.digests[next];
            assert(rest[0] == digest);
            assert(rest.drop_first() =~= from.digests.skip(next + 1));
            assert(digest_to(from.queues, digest) =~= seq![
                Delivery::Digest(from.queues[0], digest.0, digest.1),
            ] + digest_to(from.queues.skip(1), digest));
            assert(owes(world, step) =~= digests_owe(from));
        } else {
            assert(rest =~= Seq::empty());
            assert(owes(world, step) =~= digests_owe(from));
        }
    }
}

proof fn lemma_turns<Q>(world: Knowledge, from: ForwardState<Q>, step: ForwardStep<Q>)
    requires
        in_bounds(from, from.queues, from.pending),
        forward_turns(from, step),
    ensures
        owes(world, step) == turn_owes(world, from),
        step_in_bounds(step, from.queues, from.pending, from.sent),
{
    let ids = from.pending.skip(from.message_at);
    if from.message_at < from.pending.len() {
        assert(ids[0] == from.pending[from.message_at]);
        assert(ids.drop_first() =~= from.pending.skip(from.message_at + 1));
        assert(owes(world, step) =~= turn_owes(world, from));
    } else {
        assert(ids =~= Seq::empty());
        let start = ForwardState { queue_at: 0, digest_at: 0, ..from };
        lemma_digests(world, start, step);
        if from.digests.len() > 0 {
            assert(from.queues.skip(0) =~= from.queues);
            assert(from.digests.drop_first() =~= from.digests.skip(1));
        }
        assert(digests_owe(start) =~= digest_deliveries(from.queues, from.digests));
        assert(owes(world, step) =~= turn_owes(world, from));
    }
}

proof fn lemma_starts<Q>(world: Knowledge, from: ForwardState<Q>, step: ForwardStep<Q>)
    requires
        in_bounds(from, from.queues, from.pending),
        forward_starts(from, step),
    ensures
        owes(world, step) == start_all(from.queues.skip(from.queue_at)) + turn_owes(world, from),
        step_in_bounds(step, from.queues, from.pending, from.sent),
{
    if from.queue_at < from.queues.len() {
        assert(start_all(from.queues.skip(from.queue_at)) =~= seq![
            Delivery::Start(from.queues[from.queue_at]),
        ] + start_all(from.queues.skip(from.queue_at + 1)));
        assert(owes(world, step) =~= start_all(from.queues.skip(from.queue_at)) + turn_owes(
            world,
            from,
        ));
    } else {
        lemma_turns(world, from, step);
        assert(start_all(from.queues.skip(from.queue_at)) + turn_owes(world, from) =~= turn_owes(
            world,
            from,
        ));
    }
}

proof fn lemma_sends<Q>(
    world: Knowledge,
    from: ForwardState<Q>,
    candidate: ForwardCandidate,
    step: ForwardStep<Q>,
)
    requires
        in_bounds(from, from.queues, from.pending),
        forward_sends(from, candidate, step),
    ensures
        owes(world, step) == message_to(from.queues.skip(from.queue_at), candidate) + turn_owes(
            world,
            from,
        ),
        step_in_bounds(step, from.queues, from.pending, from.sent),
{
    if from.queue_at < from.queues.len() {
        assert(message_to(from.queues.skip(from.queue_at), candidate) =~= seq![
            Delivery::Message(from.queues[from.queue_at], candidate),
        ] + message_to(from.queues.skip(from.queue_at + 1), candidate));
        assert(owes(world, step) =~= message_to(from.queues.skip(from.queue_at), candidate)
            + turn_owes(world, from));
    } else {
        lemma_turns(world, from, step);
        assert(message_to(from.queues.skip(from.queue_at), candidate) + turn_owes(world, from)
            =~= turn_owes(world, from));
    }
}

// A turn owes the same whatever the position among the queues and digests is.
proof fn lemma_turn_position<Q>(world: Knowledge, a: ForwardState<Q>, b: ForwardState<Q>)
    requires
        a.new_cc_seqno == b.new_cc_seqno,
        a.queues == b.queues,
        a.pending == b.pending,
        a.message_at == b.message_at,
        a.digests == b.digests,
    ensures
        turn_owes(world, a) == turn_owes(world, b),
{
}

proof fn lemma_step<Q>(
    world: Knowledge,
    state: ManagerState<Q>,
    queues: Seq<Arc<Q>>,
    pending: Seq<UInt256>,
    before: ForwardStep<Q>,
    sent: int,
    event: ForwardEvent<Q>,
    after: ForwardStep<Q>,
    now_sent: int,
)
    requires
        step_in_bounds(before, queues, pending, sent),
        forward_answers(world, before, event),
        forward_goes(state, event, after),
        now_sent == sent + match event {
            ForwardEvent::MessageSent { sent: true, .. } => 1int,
            ForwardEvent::DigestSent { sent: true, .. } => 1,
            _ => 0,
        },
    ensures
        owes(world, before) == delivered(before) + owes(world, after),
        step_in_bounds(after, queues, pending, now_sent),
{
    match event {
        ForwardEvent::QueueStarted { progress } => {
            lemma_starts(world, progress@, after);
        },
        ForwardEvent::Found { progress, found } => {
            if found is None || found->0.status is RempTimeout {
                lemma_turns(world, progress@, after);
            }
            assert(owes(world, before) =~= delivered(before) + owes(world, after));
        },
        ForwardEvent::ExpiryChecked { progress, candidate, expired } => {
            if expired {
                lemma_turns(world, progress@, after);
            }
            assert(owes(world, before) =~= delivered(before) + owes(world, after));
        },
        ForwardEvent::Classified { progress, candidate, finally_rejected, finally_accepted } => {
            if finally_rejected {
                lemma_turns(
                    world,
                    ForwardState {
                        digests: with_rejected(
                            progress@.digests,
                            candidate.master_cc as int,
                            candidate.message.message_id,
                        ),
                        ..progress@
                    },
                    after,
                );
            } else if finally_accepted {
                lemma_turns(world, progress@, after);
            } else {
                let from = ForwardState { queue_at: 0, ..progress@ };
                lemma_sends(world, from, candidate, after);
                lemma_turn_position(world, from, progress@);
                assert(from.queues.skip(0) =~= from.queues);
            }
            assert(owes(world, before) =~= delivered(before) + owes(world, after));
        },
        ForwardEvent::MessageSent { progress, candidate, sent } => {
            let from = counted(progress@, sent);
            lemma_sends(world, from, candidate, after);
            lemma_turn_position(world, from, progress@);
        },
        ForwardEvent::DigestSent { progress, sent } => {
            let from = counted(progress@, sent);
            lemma_digests(world, from, after);
            assert(digests_owe(from) == digests_owe(progress@));
        },
        _ => {},
    }
}

proof fn lemma_run<Q>(
    world: Knowledge,
    state: ManagerState<Q>,
    new_cc: u32,
    pending: Vec<UInt256>,
    events: Seq<ForwardEvent<Q>>,
    steps: Seq<ForwardStep<Q>>,
    k: int,
)
    requires
        forward_run(world, state, new_cc, pending, events, steps),
        state.nexts.len() > 0,
        0 <= k < steps.len(),
    ensures
        step_in_bounds(steps[k], state.nexts, pending@, records_sent(events.take(k + 1))),
        all_delivered(steps.take(k)) + owes(world, steps[k]) == world.plan(
            new_cc,
            state.nexts,
            pending@,
        ),
    decreases k,
{
    let plan = world.plan(new_cc, state.nexts, pending@);
    assert(events.take(k + 1).drop_last() =~= events.take(k));
    assert(events.take(k + 1).last() == events[k]);
    assert(forward_goes(state, events[k], steps[k]));
    if k == 0 {
        let from = ForwardState {
            new_cc_seqno: new_cc,
            queues: state.nexts,
            queue_at: 0,
            pending: pending@,
            message_at: 0,
            digests: Seq::empty(),
            digest_at: 0,
            sent: 0,
        };
        assert(events.take(0) =~= Seq::empty());
        assert(steps.take(0) =~= Seq::empty());
        assert(records_sent(events.take(k)) == 0);
        assert(records_sent(events.take(k + 1)) == 0);
        lemma_starts(world, from, steps[0]);
        assert(from.queues.skip(0) =~= from.queues);
        assert(from.pending.skip(0) =~= from.pending);
        assert(all_delivered(steps.take(0)) + owes(world, steps[0]) =~= plan);
    } else {
        lemma_run(world, state, new_cc, pending, events, steps, k - 1);
        assert(events.take(k - 1 + 1) =~= events.take(k));
        assert(forward_answers(world, steps[k - 1], events[k]));
        lemma_step(
            world,
            state,
            state.nexts,
            pending@,
            steps[k - 1],
            records_sent(events.take(k)),
            events[k],
            steps[k],
            records_sent(events.take(k + 1)),
        );
        assert(steps.take(k).drop_last() =~= steps.take(k - 1));
        assert(steps.take(k).last() == steps[k - 1]);
        assert(all_delivered(steps.take(k)) + owes(world, steps[k]) =~= all_delivered(
            steps.take(k - 1),
        ) + owes(world, steps[k - 1]));
    }
}

/// A complete run of forwarding delivers exactly what is due, in this order: every next queue is
/// started, every message whose fate is open goes to every next queue, and the digests of the
/// rejected messages go to every next queue. The run reports how many messages it went through, and
/// how many records were sent.
pub proof fn law_forwarding_delivers<Q>(
    world: Knowledge,
    state: ManagerState<Q>,
    new_cc: u32,
    pending: Vec<UInt256>,
    events: Seq<ForwardEvent<Q>>,
    steps: Seq<ForwardStep<Q>>,
)
    requires
        forward_run(world, state, new_cc, pending, events, steps),
        state.nexts.len() > 0,
        steps.last() is Return,
    ensures
        all_delivered(steps) == world.plan(new_cc, state.nexts, pending@),
        steps.last() matches ForwardStep::Return(Some((total, sent))) && total == pending.len()
            && sent == records_sent(events),
{
    let n = steps.len() as int;
    lemma_run(world, state, new_cc, pending, events, steps, n - 1);
    assert(events.take(n) =~= events);
    assert(steps.drop_last() =~= steps.take(n - 1));
    assert(all_delivered(steps) =~= all_delivered(steps.take(n - 1)) + owes(world, steps.last()));
}

proof fn lemma_listing(
    world: Knowledge,
    new_cc: u32,
    before: Seq<(int, Seq<UInt256>)>,
    ids: Seq<UInt256>,
    session: int,
)
    requires
        well_listed(before),
    ensures
        well_listed(world.listing(new_cc, before, ids)),
        listed_under(world.listing(new_cc, before, ids), session) == listed_under(before, session)
            + world.rejected_of_session(new_cc, session, ids),
    decreases ids.len(),
{
    if ids.len() == 0 {
        assert(listed_under(before, session) =~= listed_under(before, session)
            + world.rejected_of_session(new_cc, session, ids));
    } else {
        let rest = ids.drop_first();
        match world.fate(ids[0], new_cc) {
            Fate::Rejected(c) => {
                let id = c.message.message_id;
                lemma_with_rejected(before, c.master_cc as int, id, session);
                lemma_listing(
                    world,
                    new_cc,
                    with_rejected(before, c.master_cc as int, id),
                    rest,
                    session,
                );
                assert(listed_under(world.listing(new_cc, before, ids), session) =~= listed_under(
                    before,
                    session,
                ) + world.rejected_of_session(new_cc, session, ids));
            },
            _ => {
                lemma_listing(world, new_cc, before, rest, session);
            },
        }
    }
}

/// The digests that are forwarded name each session once, are not empty, and hold exactly the
/// rejected messages of their session, in the order in which the messages were gone through. Every
/// session with a rejected message has its digest.
pub proof fn law_digests_hold_the_rejected(
    world: Knowledge,
    new_cc: u32,
    pending: Seq<UInt256>,
    session: int,
)
    ensures
        ({
            let digests = world.listing(new_cc, Seq::empty(), pending);
            &&& forall|i: int|
                0 <= i < digests.len() ==> (#[trigger] digests[i]).1.len() > 0
            &&& forall|i: int, j: int|
                0 <= i < j < digests.len() ==> (#[trigger] digests[i]).0 != (
                #[trigger] digests[j]).0
            &&& forall|i: int|
                0 <= i < digests.len() && (#[trigger] digests[i]).0 == session ==> digests[i].1
                    == world.rejected_of_session(new_cc, session, pending)
            &&& world.rejected_of_session(new_cc, session, pending).len() > 0 ==> exists|i: int|
                0 <= i < digests.len() && (#[trigger] digests[i]).0 == session
        }),
        listed_under(world.listing(new_cc, Seq::empty(), pending), session)
            == world.rejected_of_session(new_cc, session, pending),
{
    let empty = Seq::<(int, Seq<UInt256>)>::empty();
    let digests = world.listing(new_cc, empty, pending);
    lemma_listing(world, new_cc, empty, pending, session);
    assert(listed_under(empty, session) + world.rejected_of_session(new_cc, session, pending)
        =~= world.rejected_of_session(new_cc, session, pending));
    lemma_place_of(digests, session);
    let at = place_of(digests, session);
    assert forall|i: int| 0 <= i < digests.len() && (#[trigger] digests[i]).0
        == session implies digests[i].1 == world.rejected_of_session(
        new_cc,
        session,
        pending,
    ) by {
        assert(i == at);
    }
    if world.rejected_of_session(new_cc, session, pending).len() > 0 {
        assert(digests[at].0 == session);
    }
}

/// A rejected message goes to the end of the first digest of its session, or into a new digest behind
/// the others if there is none; nothing else changes.
pub proof fn law_rejected_message_is_listed(
    digests: &mut RejectedDigests,
    master_cc: u32,
    message_id: UInt256,
    at: int,
)
    requires
        call_ensures(RejectedDigests::add_rejected, (digests, master_cc, message_id), ()),
        0 <= at <= digests@.len(),
        forall|i: int| 0 <= i < at ==> (#[trigger] digests@[i]).0 != master_cc,
        at < digests@.len() ==> digests@[at].0 == master_cc,
    ensures
        at < old(digests)@.len() ==> final(digests)@ == old(digests)@.update(
            at,
            (master_cc as int, old(digests)@[at].1.push(message_id)),
        ),
        at == old(digests)@.len() ==> final(digests)@ == old(digests)@.push(
            (master_cc as int, seq![message_id]),
        ),
{
    lemma_place_of(digests@, master_cc as int);
    let found = place_of(digests@, master_cc as int);
    if found < at {
        assert(digests@[found].0 != master_cc);
    } else if at < found {
        assert(digests@[at].0 != master_cc);
    }
}

/// A digest is made of the session and the messages that are listed.
pub proof fn law_digest_is_made_as_listed(
    digests: RejectedDigests,
    at: usize,
    digest: RmqMessageDigest,
    count: usize,
)
    requires
        at < digests@.len(),
        call_ensures(RejectedDigests::digest, (&digests, at), digest),
        call_ensures(RejectedDigests::len, (&digests,), count),
    ensures
        count == digests@.len(),
        same_bits(digest.masterchain_seqno, digests@[at as int].0),
        digest.messages@ == digests@[at as int].1,
{
}

proof fn lemma_stays<Q>(
    world: Knowledge,
    new_cc: u32,
    queues: Seq<Arc<Q>>,
    before: Seq<(int, Seq<UInt256>)>,
    ids: Seq<UInt256>,
    i: int,
)
    requires
        0 <= i < ids.len(),
        world.fate(ids[i], new_cc) is Stays,
    ensures
        world.message_deliveries(new_cc, queues, ids) == world.message_deliveries(
            new_cc,
            queues,
            ids.remove(i),
        ),
        world.listing(new_cc, before, ids) == world.listing(new_cc, before, ids.remove(i)),
    decreases ids.len(),
{
    let rest = ids.drop_first();
    if i == 0 {
        assert(ids.remove(0) =~= rest);
    } else {
        assert(ids.remove(i).drop_first() =~= rest.remove(i - 1));
        assert(ids.remove(i)[0] == ids[0]);
        match world.fate(ids[0], new_cc) {
            Fate::Rejected(c) => {
                lemma_stays(
                    world,
                    new_cc,
                    queues,
                    with_rejected(before, c.master_cc as int, c.message.message_id),
                    rest,
                    i - 1,
                );
            },
            _ => {
                lemma_stays(world, new_cc, queues, before, rest, i - 1);
            },
        }
    }
}

/// A message that is unknown, timed out, is too old or was finally accepted reaches no next queue:
/// the next queues get what they would get if the message were not under collation.
pub proof fn law_settled_messages_stay<Q>(
    world: Knowledge,
    new_cc: u32,
    queues: Seq<Arc<Q>>,
    pending: Seq<UInt256>,
    i: int,
)
    requires
        0 <= i < pending.len(),
        (world.lookup)(pending[i]) matches Some(candidate) ==> candidate.status is RempTimeout || (
        world.expired)(candidate.master_cc, new_cc) || ((world.finally_accepted)(candidate.status)
            && !(world.finally_rejected)(candidate.status)),
    ensures
        world.plan(new_cc, queues, pending) == world.plan(new_cc, queues, pending.remove(i)),
{
    lemma_stays(world, new_cc, queues, Seq::empty(), pending, i);
}

/// The event tells what came of what the step asked for, from the call of forwarding on. `listing`
/// is what listing the messages of the current queue gives.
pub open spec fn forward_answers_from_call<Q>(
    world: Knowledge,
    listing: Result<Vec<UInt256>, RmqError>,
    step: ForwardStep<Q>,
    event: ForwardEvent<Q>,
) -> bool {
    match (step, event) {
        (
            ForwardStep::ListPending { new_cc_seqno, .. },
            ForwardEvent::Listed { new_cc_seqno: same, listed },
        ) => same == new_cc_seqno && listed == listing,
        _ => forward_answers(world, step, event),
    }
}

/// A run of forwarding up to some step, from its call on.
pub open spec fn forward_run_from_call<Q>(
    world: Knowledge,
    state: ManagerState<Q>,
    new_cc: u32,
    listing: Result<Vec<UInt256>, RmqError>,
    events: Seq<ForwardEvent<Q>>,
    steps: Seq<ForwardStep<Q>>,
) -> bool {
    &&& events.len() > 0
    &&& steps.len() == events.len()
    &&& events[0] == (ForwardEvent::<Q>::Called { new_cc_seqno: new_cc })
    &&& forall|i: int| #![trigger steps[i]]
        0 <= i < steps.len() ==> forward_goes(state, events[i], steps[i])
    &&& forall|i: int| #![trigger events[i]]
        0 < i < events.len() ==> forward_answers_from_call(world, listing, steps[i - 1], events[i])
}

proof fn lemma_only_one_listing<Q>(
    world: Knowledge,
    state: ManagerState<Q>,
    new_cc: u32,
    listing: Result<Vec<UInt256>, RmqError>,
    events: Seq<ForwardEvent<Q>>,
    steps: Seq<ForwardStep<Q>>,
    i: int,
)
    requires
        forward_run_from_call(world, state, new_cc, listing, events, steps),
        0 < i < events.len(),
    ensures
        !(steps[i] is ListPending),
        i > 1 ==> forward_answers(world, steps[i - 1], events[i]),
{
    assert(forward_goes(state, events[i], steps[i]));
    assert(forward_answers_from_call(world, listing, steps[i - 1], events[i]));
    if i > 1 {
        assert(forward_goes(state, events[i - 1], steps[i - 1]));
        assert(forward_answers_from_call(world, listing, steps[i - 2], events[i - 1]));
    }
}

proof fn lemma_delivered_after_first<Q>(steps: Seq<ForwardStep<Q>>)
    requires
        steps.len() > 0,
    ensures
        all_delivered(steps) == delivered(steps[0]) + all_delivered(steps.skip(1)),
    decreases steps.len(),
{
    if steps.len() == 1 {
        assert(steps.drop_last() =~= Seq::empty());
        assert(steps.skip(1) =~= Seq::empty());
        assert(all_delivered(steps.drop_last()) =~= Seq::<Delivery<Q>>::empty());
        assert(all_delivered(steps.skip(1)) =~= Seq::<Delivery<Q>>::empty());
        assert(all_delivered(steps) =~= delivered(steps[0]) + all_delivered(steps.skip(1)));
    } else {
        lemma_delivered_after_first(steps.drop_last());
        assert(steps.drop_last().skip(1) =~= steps.skip(1).drop_last());
        assert(steps.skip(1).last() == steps.last());
        assert(all_delivered(steps) =~= delivered(steps[0]) + all_delivered(steps.skip(1)));
    }
}

/// A complete run of forwarding from its call on. If the manager is switched on, has a current queue
/// and at least one next queue, and the messages of the current queue can be listed, they are listed
/// for the session of the call, and exactly what is due is delivered to all next queues. If any of
/// this is not so, nothing is delivered.
pub proof fn law_forwarding_from_its_call<Q>(
    world: Knowledge,
    state: ManagerState<Q>,
    new_cc: u32,
    listing: Result<Vec<UInt256>, RmqError>,
    events: Seq<ForwardEvent<Q>>,
    steps: Seq<ForwardStep<Q>>,
)
    requires
        forward_run_from_call(world, state, new_cc, listing, events, steps),
        steps.last() is Return,
    ensures
        state.enabled && state.cur is Some ==> (steps[0] matches ForwardStep::ListPending {
            queue,
            new_cc_seqno,
        } && Some(queue) == state.cur && new_cc_seqno == new_cc),
        state.enabled && state.cur is Some && state.nexts.len() > 0 && listing is Ok ==> {
            &&& all_delivered(steps) == world.plan(new_cc, state.nexts, listing->Ok_0@)
            &&& steps.last() matches ForwardStep::Return(Some((total, sent)))
            &&& total == listing->Ok_0.len()
            &&& sent == records_sent(events)
        },
        !(state.enabled && state.cur is Some && state.nexts.len() > 0 && listing is Ok) ==> {
            &&& all_delivered(steps) == Seq::<Delivery<Q>>::empty()
            &&& steps.last() == ForwardStep::<Q>::Return(None)
        },
{
    let n = steps.len() as int;
    assert(forward_goes(state, events[0], steps[0]));
    if n > 1 {
        assert(forward_goes(state, events[1], steps[1]));
        assert(forward_answers_from_call(world, listing, steps[0], events[1]));
    }
    lemma_delivered_after_first(steps);
    if state.enabled && state.cur is Some && state.nexts.len() > 0 && listing is Ok {
        let later_events = events.skip(1);
        let later_steps = steps.skip(1);
        assert forall|i: int| #![trigger later_steps[i]] 0 <= i
            < later_steps.len() implies forward_goes(state, later_events[i], later_steps[i]) by {
            assert(forward_goes(state, events[i + 1], steps[i + 1]));
        }
        assert forall|i: int| #![trigger later_events[i]] 0 < i
            < later_events.len() implies forward_answers(
            world,
            later_steps[i - 1],
            later_events[i],
        ) by {
            lemma_only_one_listing(world, state, new_cc, listing, events, steps, i + 1);
        }
        assert(later_steps.last() == steps.last());
        law_forwarding_delivers(
            world,
            state,
            new_cc,
            listing->Ok_0,
            later_events,
            later_steps,
        );
        lemma_sent_after_first(events);
        assert(all_delivered(steps) =~= all_delivered(later_steps));
    } else {
        if n > 2 {
            assert(forward_answers_from_call(world, listing, steps[1], events[2]));
        }
        assert(n <= 2);
        assert(all_delivered(Seq::<ForwardStep<Q>>::empty()) =~= Seq::<Delivery<Q>>::empty());
        if n == 2 {
            lemma_delivered_after_first(steps.skip(1));
            assert(steps.skip(1).skip(1) =~= Seq::empty());
        } else {
            assert(steps.skip(1) =~= Seq::empty());
        }
        assert(all_delivered(steps) =~= Seq::<Delivery<Q>>::empty());
    }
}

proof fn lemma_sent_after_first<Q>(events: Seq<ForwardEvent<Q>>)
    requires
        events.len() > 0,
        events[0] is Called,
    ensures
        records_sent(events) == records_sent(events.skip(1)),
    decreases events.len(),
{
    if events.len() == 1 {
        assert(events.drop_last() =~= Seq::empty());
        assert(events.skip(1) =~= Seq::empty());
        assert(records_sent(events.drop_last()) == 0);
        assert(records_sent(events.skip(1)) == 0);
    } else {
        lemma_sent_after_first(events.drop_last());
        assert(events.drop_last().skip(1) =~= events.skip(1).drop_last());
        assert(events.skip(1).last() == events.last());
    }
}

/// For every manager that is switched on and has a current queue, a call of forwarding asks for the
/// list of exactly that queue's messages, for the session of the call, however many next queues there
/// are; any other manager has nothing to forward.
pub proof fn law_call_lists_the_current_queue<Q>(
    manager: RmqQueueManager<Q>,
    new_cc: u32,
    step: ForwardStep<Q>,
)
    requires
        call_ensures(
            RmqQueueManager::<Q>::forward_messages,
            (&manager, ForwardEvent::Called { new_cc_seqno: new_cc }),
            step,
        ),
    ensures
        step matches ForwardStep::ListPending { queue, new_cc_seqno } ==> {
            &&& manager@.enabled
            &&& manager@.cur == Some(queue)
            &&& new_cc_seqno == new_cc
        },
        step is ListPending <==> manager@.enabled && manager@.cur is Some,
        step is ListPending || step == ForwardStep::<Q>::Return(None),
{
}

} // verus!
