//! Handing the messages of the current queue over to the next queues.
//!
//! First all next queues are started. Then the messages of the current queue are gone through. A
//! message whose fate is open goes to every next queue; the finally rejected ones are gathered in
//! digests, one for each masterchain session, which go to every next queue at the end. Messages that
//! timed out, are too old or were finally accepted stay behind.
use std::sync::Arc;
use vstd::prelude::*;

use crate::digests::with_rejected;
use crate::digests::RejectedDigests;
use crate::error::RmqError;
use crate::ident::UInt256;
use crate::manager::ManagerState;
use crate::manager::RmqQueueManager;
use crate::message::seqno_of_field;
use crate::message::RmqMessage;
use crate::message::RmqMessageDigest;
use crate::status::RempMessageStatus;

verus! {

/// A message of the current queue, as the message cache has it.
#[derive(Debug, PartialEq, Eq)]
pub struct ForwardCandidate {
    pub message: Arc<RmqMessage>,
    pub status: RempMessageStatus,
    /// The masterchain session that the message comes from.
    pub master_cc: u32,
}

/// How far forwarding has come.
pub struct ForwardProgress<Q> {
    pub new_cc_seqno: u32,
    /// The queues that get the messages.
    pub queues: Vec<Arc<Q>>,
    /// How many of the queues have been served in the current round.
    pub queue_at: usize,
    /// The messages to go through.
    pub pending: Vec<UInt256>,
    /// How many of the messages have been looked up.
    pub message_at: usize,
    pub digests: RejectedDigests,
    /// How many of the digests have gone to all queues.
    pub digest_at: usize,
    /// How many records were sent.
    pub sent: u64,
}

/// How far forwarding has come.
#[verifier::reject_recursive_types(Q)]
#[verifier::ext_equal]
pub struct ForwardState<Q> {
    pub new_cc_seqno: u32,
    pub queues: Seq<Arc<Q>>,
    pub queue_at: int,
    pub pending: Seq<UInt256>,
    pub message_at: int,
    pub digests: Seq<(int, Seq<UInt256>)>,
    pub digest_at: int,
    pub sent: int,
}

impl<Q> View for ForwardProgress<Q> {
    type V = ForwardState<Q>;

    open spec fn view(&self) -> ForwardState<Q> {
        ForwardState {
            new_cc_seqno: self.new_cc_seqno,
            queues: self.queues@,
            queue_at: self.queue_at as int,
            pending: self.pending@,
            message_at: self.message_at as int,
            digests: self.digests@,
            digest_at: self.digest_at as int,
            sent: self.sent as int,
        }
    }
}

/// What `forward_messages` is told.
pub enum ForwardEvent<Q> {
    Called { new_cc_seqno: u32 },
    /// The messages of the current queue were listed, or could not be.
    Listed { new_cc_seqno: u32, listed: Result<Vec<UInt256>, RmqError> },
    /// Starting the queue was attempted.
    QueueStarted { progress: ForwardProgress<Q> },
    /// The message was sought in the message cache.
    Found { progress: ForwardProgress<Q>, found: Option<ForwardCandidate> },
    /// It was determined whether the session of the message is too old.
    ExpiryChecked { progress: ForwardProgress<Q>, candidate: ForwardCandidate, expired: bool },
    /// It was determined whether the status of the message is a final one.
    Classified {
        progress: ForwardProgress<Q>,
        candidate: ForwardCandidate,
        finally_rejected: bool,
        finally_accepted: bool,
    },
    /// The message was written to the catchain of a queue, or could not be.
    MessageSent { progress: ForwardProgress<Q>, candidate: ForwardCandidate, sent: bool },
    /// The digest was written to the catchain of a queue, or could not be.
    DigestSent { progress: ForwardProgress<Q>, sent: bool },
}

/// What `forward_messages` asks for.
pub enum ForwardStep<Q> {
    /// List the messages of the current queue.
    ListPending { queue: Arc<Q>, new_cc_seqno: u32 },
    /// Start a next queue, whatever comes of it.
    StartQueue { queue: Arc<Q>, progress: ForwardProgress<Q> },
    /// Seek the message in the message cache.
    GetMessage { message_id: UInt256, progress: ForwardProgress<Q> },
    /// Determine whether session `candidate.master_cc` is too old in session `new_cc_seqno`.
    CheckExpiry {
        new_cc_seqno: u32,
        candidate: ForwardCandidate,
        progress: ForwardProgress<Q>,
    },
    /// Determine whether `candidate.status` is finally rejected, and whether finally accepted.
    Classify { candidate: ForwardCandidate, progress: ForwardProgress<Q> },
    /// Write the message to the catchain of the queue, with session `candidate.master_cc`.
    SendMessage {
        queue: Arc<Q>,
        candidate: ForwardCandidate,
        progress: ForwardProgress<Q>,
    },
    /// Write the digest to the catchain of the queue.
    SendDigest { queue: Arc<Q>, digest: RmqMessageDigest, progress: ForwardProgress<Q> },
    /// How many messages there were and how many records were sent, unless there was nothing to do.
    Return(Option<(usize, u64)>),
}

/// Forwarding goes on with the digests.
pub open spec fn forwards_digests<Q>(from: ForwardState<Q>, step: ForwardStep<Q>) -> bool {
    let all_served = from.queue_at >= from.queues.len();
    let digest_at = if all_served {
        from.digest_at + 1
    } else {
        from.digest_at
    };
    let queue_at = if all_served {
        0
    } else {
        from.queue_at
    };
    if digest_at < from.digests.len() && queue_at < from.queues.len() {
        &&& step matches ForwardStep::SendDigest { queue, digest, progress }
        &&& queue == from.queues[queue_at]
        &&& seqno_of_field(digest.masterchain_seqno) == from.digests[digest_at].0
        &&& digest.messages@ == from.digests[digest_at].1
        &&& digest.messages@.len() > 0
        &&& progress@ == (ForwardState { digest_at, queue_at: queue_at + 1, ..from })
    } else {
        &&& step matches ForwardStep::Return(Some((total, sent)))
        &&& total == from.pending.len()
        &&& sent == from.sent
    }
}

/// Forwarding turns to the next message, or to the digests if there is none.
pub open spec fn forward_turns<Q>(from: ForwardState<Q>, step: ForwardStep<Q>) -> bool {
    if from.message_at < from.pending.len() {
        &&& step matches ForwardStep::GetMessage { message_id, progress }
        &&& message_id == from.pending[from.message_at]
        &&& progress@ == (ForwardState { message_at: from.message_at + 1, ..from })
    } else {
        forwards_digests(ForwardState { queue_at: 0, digest_at: 0, ..from }, step)
    }
}

/// Forwarding starts the next queue, or turns to the first message if all are started.
pub open spec fn forward_starts<Q>(from: ForwardState<Q>, step: ForwardStep<Q>) -> bool {
    if from.queue_at < from.queues.len() {
        &&& step matches ForwardStep::StartQueue { queue, progress }
        &&& queue == from.queues[from.queue_at]
        &&& progress@ == (ForwardState { queue_at: from.queue_at + 1, ..from })
    } else {
        forward_turns(from, step)
    }
}

/// Forwarding sends a message to the next queue, or turns to the next message if all have it.
pub open spec fn forward_sends<Q>(
    from: ForwardState<Q>,
    candidate: ForwardCandidate,
    step: ForwardStep<Q>,
) -> bool {
    if from.queue_at < from.queues.len() {
        &&& step matches ForwardStep::SendMessage { queue, candidate: c, progress }
        &&& queue == from.queues[from.queue_at]
        &&& c == candidate
        &&& progress@ == (ForwardState { queue_at: from.queue_at + 1, ..from })
    } else {
        forward_turns(from, step)
    }
}

/// The progress with one more record counted, if it was sent.
pub open spec fn counted<Q>(from: ForwardState<Q>, sent: bool) -> ForwardState<Q> {
    if sent {
        ForwardState { sent: from.sent + 1, ..from }
    } else {
        from
    }
}

/// How `forward_messages` goes from one step to the next.
pub open spec fn forward_goes<Q>(
    state: ManagerState<Q>,
    event: ForwardEvent<Q>,
    step: ForwardStep<Q>,
) -> bool {
    match event {
        ForwardEvent::Called { new_cc_seqno } => match state.cur {
            Some(queue) => if state.enabled {
                step == (ForwardStep::ListPending { queue, new_cc_seqno })
            } else {
                step == ForwardStep::<Q>::Return(None)
            },
            None => step == ForwardStep::<Q>::Return(None),
        },
        ForwardEvent::Listed { new_cc_seqno, listed } => match listed {
            Ok(pending) => if state.nexts.len() > 0 {
                forward_starts(
                    ForwardState {
                        new_cc_seqno,
                        queues: state.nexts,
                        queue_at: 0,
                        pending: pending@,
                        message_at: 0,
                        digests: Seq::empty(),
                        digest_at: 0,
                        sent: 0,
                    },
                    step,
                )
            } else {
                step == ForwardStep::<Q>::Return(None)
            },
            Err(_) => step == ForwardStep::<Q>::Return(None),
        },
        ForwardEvent::QueueStarted { progress } => forward_starts(progress@, step),
        ForwardEvent::Found { progress, found } => match found {
            Some(candidate) => if candidate.status is RempTimeout {
                forward_turns(progress@, step)
            } else {
                step == (ForwardStep::CheckExpiry {
                    new_cc_seqno: progress.new_cc_seqno,
                    candidate,
                    progress,
                })
            },
            None => forward_turns(progress@, step),
        },
        ForwardEvent::ExpiryChecked { progress, candidate, expired } => if expired {
            forward_turns(progress@, step)
        } else {
            step == (ForwardStep::Classify { candidate, progress })
        },
        ForwardEvent::Classified { progress, candidate, finally_rejected, finally_accepted } =>
            if finally_rejected {
            forward_turns(
                ForwardState {
                    digests: with_rejected(
                        progress@.digests,
                        candidate.master_cc as int,
                        candidate.message.message_id,
                    ),
                    ..progress@
                },
                step,
            )
        } else if finally_accepted {
            forward_turns(progress@, step)
        } else {
            forward_sends(ForwardState { queue_at: 0, ..progress@ }, candidate, step)
        },
        ForwardEvent::MessageSent { progress, candidate, sent } => forward_sends(
            counted(progress@, sent),
            candidate,
            step,
        ),
        ForwardEvent::DigestSent { progress, sent } => forwards_digests(
            counted(progress@, sent),
            step,
        ),
    }
}

impl<Q> RmqQueueManager<Q> {
    fn forwarding_digests(progress: ForwardProgress<Q>) -> (step: ForwardStep<Q>)
        ensures
            forwards_digests(progress@, step),
    {
        let mut progress = progress;
        let mut digest_at: usize = progress.digest_at;
        let mut queue_at: usize = progress.queue_at;
        if queue_at >= progress.queues.len() {
            if digest_at >= progress.digests.len() {
                return ForwardStep::Return(Some((progress.pending.len(), progress.sent)));
            }
            digest_at = digest_at + 1;
            queue_at = 0;
        }
        if digest_at < progress.digests.len() && queue_at < progress.queues.len() {
            let queue = progress.queues[queue_at].clone();
            let digest = progress.digests.digest(digest_at);
            progress.digest_at = digest_at;
            progress.queue_at = queue_at + 1;
            ForwardStep::SendDigest { queue, digest, progress }
        } else {
            ForwardStep::Return(Some((progress.pending.len(), progress.sent)))
        }
    }

    fn forward_turning(progress: ForwardProgress<Q>) -> (step: ForwardStep<Q>)
        ensures
            forward_turns(progress@, step),
    {
        let mut progress = progress;
        if progress.message_at < progress.pending.len() {
            let message_id = progress.pending[progress.message_at];
            progress.message_at = progress.message_at + 1;
            ForwardStep::GetMessage { message_id, progress }
        } else {
            progress.queue_at = 0;
            progress.digest_at = 0;
            Self::forwarding_digests(progress)
        }
    }

    fn forward_starting(progress: ForwardProgress<Q>) -> (step: ForwardStep<Q>)
        ensures
            forward_starts(progress@, step),
    {
        let mut progress = progress;
        if progress.queue_at < progress.queues.len() {
            let queue = progress.queues[progress.queue_at].clone();
            progress.queue_at = progress.queue_at + 1;
            ForwardStep::StartQueue { queue, progress }
        } else {
            Self::forward_turning(progress)
        }
    }

    fn forward_sending(progress: ForwardProgress<Q>, candidate: ForwardCandidate) -> (step:
        ForwardStep<Q>)
        ensures
            forward_sends(progress@, candidate, step),
    {
        let mut progress = progress;
        if progress.queue_at < progress.queues.len() {
            let queue = progress.queues[progress.queue_at].clone();
            progress.queue_at = progress.queue_at + 1;
            ForwardStep::SendMessage { queue, candidate, progress }
        } else {
            Self::forward_turning(progress)
        }
    }

    /// Hands the messages of the current queue over to the next queues, which begin with session
    /// `new_cc_seqno`.
    pub fn forward_messages(&self, event: ForwardEvent<Q>) -> (step: ForwardStep<Q>)
        requires
            event matches ForwardEvent::MessageSent { progress, .. } ==> progress.sent < u64::MAX,
            event matches ForwardEvent::DigestSent { progress, .. } ==> progress.sent < u64::MAX,
        ensures
            forward_goes(self@, event, step),
    {
        match event {
            ForwardEvent::Called { new_cc_seqno } => {
                if !self.is_service_enabled() {
                    return ForwardStep::Return(None);
                }
                match self.cur_queue() {
                    Some(queue) => ForwardStep::ListPending { queue, new_cc_seqno },
                    None => ForwardStep::Return(None),
                }
            },
            ForwardEvent::Listed { new_cc_seqno, listed } => match listed {
                Err(_) => ForwardStep::Return(None),
                Ok(pending) => {
                    let queues = self.next_queues();
                    if queues.len() == 0 {
                        return ForwardStep::Return(None);
                    }
                    Self::forward_starting(
                        ForwardProgress {
                            new_cc_seqno,
                            queues,
                            queue_at: 0,
                            pending,
                            message_at: 0,
                            digests: RejectedDigests::new(),
                            digest_at: 0,
                            sent: 0,
                        },
                    )
                },
            },
            ForwardEvent::QueueStarted { progress } => Self::forward_starting(progress),
            ForwardEvent::Found { progress, found } => match found {
                None => Self::forward_turning(progress),
                Some(candidate) => match candidate.status {
                    RempMessageStatus::RempTimeout => Self::forward_turning(progress),
                    _ => ForwardStep::CheckExpiry {
                        new_cc_seqno: progress.new_cc_seqno,
                        candidate,
                        progress,
                    },
                },
            },
            ForwardEvent::ExpiryChecked { progress, candidate, expired } => if expired {
                Self::forward_turning(progress)
            } else {
                ForwardStep::Classify { candidate, progress }
            },
            ForwardEvent::Classified { progress, candidate, finally_rejected, finally_accepted } => {
                let mut progress = progress;
                if finally_rejected {
                    progress.digests.add_rejected(
                        candidate.master_cc,
                        candidate.message.message_id,
                    );
                    Self::forward_turning(progress)
                } else if finally_accepted {
                    Self::forward_turning(progress)
                } else {
                    progress.queue_at = 0;
                    Self::forward_sending(progress, candidate)
                }
            },
            ForwardEvent::MessageSent { progress, candidate, sent } => {
                let mut progress = progress;
                if sent {
                    progress.sent = progress.sent + 1;
                }
                Self::forward_sending(progress, candidate)
            },
            ForwardEvent::DigestSent { progress, sent } => {
                let mut progress = progress;
                if sent {
                    progress.sent = progress.sent + 1;
                }
                Self::forwarding_digests(progress)
            },
        }
    }
}

} // verus!
