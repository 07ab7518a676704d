//! Checking the messages under collation, and reading what the other validators wrote to the
//! catchain.
use std::sync::Arc;
use vstd::prelude::*;

use crate::error::RmqError;
use crate::ident::no_block;
use crate::ident::BlockIdExt;
use crate::ident::ShardIdent;
use crate::ident::UInt256;
use crate::message::seqno_from_field;
use crate::message::seqno_of_field;
use crate::message::ReceivedRecord;
use crate::message::RmqMessage;
use crate::message::RmqMessageDigest;
use crate::message_queue::response;
use crate::message_queue::FullnodeResponse;
use crate::message_queue::MessageQueue;
use crate::message_queue::RempCatchainInfo;
use crate::queue_impl::QueueState;
use crate::status::RempIgnored;
use crate::status::RempMessageLevel;
use crate::status::RempMessageStatus;
use crate::status::RempRejected;

verus! {

/// A message that the message cache shall know, with its status.
#[derive(Debug, PartialEq, Eq)]
pub struct ExternalMessageStatus {
    pub message_id: UInt256,
    pub message: Option<Arc<RmqMessage>>,
    pub shard: ShardIdent,
    pub status: RempMessageStatus,
    pub master_cc_seqno: u32,
}

/// What `add_pending_collation` is told.
pub enum AddEvent {
    Called { message: Arc<RmqMessage>, status_to_send: Option<RempMessageStatus> },
    /// The message cache noted the collation attempt, or failed.
    Marked {
        message: Arc<RmqMessage>,
        status_to_send: Option<RempMessageStatus>,
        reply: Result<(), String>,
    },
    /// The response was sent.
    Responded,
}

/// What `add_pending_collation` asks for.
#[derive(Debug, PartialEq, Eq)]
pub enum AddStep {
    /// Let the message cache note a collation attempt of the message.
    MarkCollationAttempt {
        message_id: UInt256,
        message: Arc<RmqMessage>,
        status_to_send: Option<RempMessageStatus>,
    },
    Respond(FullnodeResponse),
    Return(Result<(), RmqError>),
}

/// What `poll` is told.
pub enum PollEvent {
    Called,
    /// The status of a message was read from the message cache, which may lack the message. The
    /// messages in `rest` are still to be checked.
    StatusRead { rest: Vec<UInt256>, status: Option<RempMessageStatus> },
    /// A record was received, or there is none, or receiving failed.
    Received(Result<Option<ReceivedRecord>, String>),
    /// The message cache took the message as new, or gives the status that it knows, or failed.
    Registered {
        message: Arc<RmqMessage>,
        forwarded: bool,
        reply: Result<Option<RempMessageStatus>, String>,
    },
    /// The level of a status was determined.
    LevelFound { message: Arc<RmqMessage>, old_status: RempMessageStatus, level: RempMessageLevel },
    /// The message cache took the lower status, or failed.
    Downgraded {
        message: Arc<RmqMessage>,
        new_status: RempMessageStatus,
        reply: Result<Option<RempMessageStatus>, String>,
    },
    /// Adding a message to the collation queue goes on.
    Adding(AddEvent),
    /// It was determined whether the session of a digest is too old.
    ExpiryChecked { digest: RmqMessageDigest, expired: bool },
    /// The message cache took the rejection of one message of a digest, or failed.
    Rejected {
        digest: RmqMessageDigest,
        done: usize,
        reply: Result<Option<RempMessageStatus>, String>,
    },
}

/// What `poll` asks for.
#[derive(Debug, PartialEq, Eq)]
pub enum PollStep {
    /// Read the status of a message from the message cache. The messages in `rest` are still to be
    /// checked.
    ReadStatus { message_id: UInt256, rest: Vec<UInt256> },
    /// Receive a record.
    Receive,
    /// Let the message cache know a message.
    Register { request: ExternalMessageStatus, message: Arc<RmqMessage>, forwarded: bool },
    /// Determine the level of a status.
    FindLevel { message: Arc<RmqMessage>, old_status: RempMessageStatus },
    /// Hand the status of the message to the message cache.
    Downgrade { message: Arc<RmqMessage>, new_status: RempMessageStatus },
    /// Do what adding a message to the collation queue asks for.
    Adding(AddStep),
    /// Determine whether session `message_cc` is too old in session `current_cc`.
    CheckExpiry { message_cc: u32, current_cc: u32, digest: RmqMessageDigest },
    /// Let the message cache know a rejected message.
    Reject { request: ExternalMessageStatus, digest: RmqMessageDigest, done: usize },
    Return(Result<(), RmqError>),
}

/// The state that a step of `add_pending_collation` leaves.
pub open spec fn add_leaves(pre: QueueState, event: AddEvent) -> QueueState {
    match event {
        AddEvent::Called { message, .. } => pre.after_add(
            message.message_id,
            message.timestamp,
            true,
        ),
        _ => pre,
    }
}

/// What `add_pending_collation` does next.
pub open spec fn add_next(info: RempCatchainInfo, pre: QueueState, event: AddEvent) -> AddStep {
    match event {
        AddEvent::Called { message, status_to_send } => if pre.is_waiting(message.message_id) {
            AddStep::Return(Ok(()))
        } else {
            AddStep::MarkCollationAttempt {
                message_id: message.message_id,
                message,
                status_to_send,
            }
        },
        AddEvent::Marked { message, status_to_send, reply } => match (reply, status_to_send) {
            (Ok(_), Some(status)) => AddStep::Respond(response(info, message, status)),
            (Ok(_), None) => AddStep::Return(Ok(())),
            (Err(e), _) => AddStep::Return(Err(RmqError::Service(e))),
        },
        AddEvent::Responded => AddStep::Return(Ok(())),
    }
}

/// How `poll` goes on after a step of adding a message.
pub open spec fn poll_after_adding(step: AddStep) -> PollStep {
    match step {
        AddStep::Return(Ok(_)) => PollStep::Receive,
        AddStep::Return(Err(e)) => PollStep::Return(Err(e)),
        step => PollStep::Adding(step),
    }
}

/// `poll` goes on by adding a message.
pub open spec fn poll_adds(
    info: RempCatchainInfo,
    pre: QueueState,
    event: AddEvent,
    post: QueueState,
    step: PollStep,
) -> bool {
    &&& post == add_leaves(pre, event)
    &&& step == poll_after_adding(add_next(info, pre, event))
}

/// The reason that is given for messages rejected by a digest.
pub open spec fn digest_reason() -> Seq<char> {
    "reject received from digest"@
}

/// `poll` goes on with the messages of a digest, of which `done` are through.
pub open spec fn poll_rejects(
    info: RempCatchainInfo,
    digest: RmqMessageDigest,
    done: usize,
    step: PollStep,
) -> bool {
    if done < digest.messages.len() {
        &&& step matches PollStep::Reject { request, digest: d, done: n }
        &&& d == digest
        &&& n == done + 1
        &&& request.message_id == digest.messages[done as int]
        &&& request.message is None
        &&& request.shard == info.shard
        &&& request.master_cc_seqno == seqno_of_field(digest.masterchain_seqno)
        &&& request.status matches RempMessageStatus::RempRejected(r)
        &&& r.level == RempMessageLevel::RempQueue
        &&& r.block_id == no_block()
        &&& r.error@ == digest_reason()
    } else {
        step == PollStep::Receive
    }
}

/// `poll` goes on with the messages whose status is still to be checked, from the last to the first,
/// and then receives records.
pub open spec fn poll_reads(rest: Seq<UInt256>, step: PollStep) -> bool {
    if rest.len() > 0 {
        &&& step matches PollStep::ReadStatus { message_id, rest: r }
        &&& message_id == rest.last()
        &&& r@ == rest.drop_last()
    } else {
        step == PollStep::Receive
    }
}

/// How `poll` goes from one step to the next.
pub open spec fn poll_goes(
    info: RempCatchainInfo,
    pre: QueueState,
    event: PollEvent,
    post: QueueState,
    step: PollStep,
) -> bool {
    match event {
        PollEvent::Called => {
            &&& post == pre
            &&& exists|ids: Seq<UInt256>|
                {
                    &&& ids.no_duplicates()
                    &&& #[trigger] ids.to_set() == pre.marks.dom()
                    &&& poll_reads(ids, step)
                }
        },
        PollEvent::StatusRead { rest, .. } => post == pre && poll_reads(rest@, step),
        PollEvent::Received(received) => {
            &&& post == pre
            &&& match received {
                Ok(Some(ReceivedRecord::RmqMessage { message: Ok(message), masterchain_seqno })) => {
                    &&& step matches PollStep::Register { request, message: m, forwarded }
                    &&& m == message
                    &&& forwarded == (info.master_cc_seqno > seqno_of_field(masterchain_seqno))
                    &&& request.message_id == message.message_id
                    &&& request.message == Some(message)
                    &&& request.shard == info.shard
                    &&& request.status == RempMessageStatus::RempNew
                    &&& request.master_cc_seqno == seqno_of_field(masterchain_seqno)
                },
                Ok(Some(ReceivedRecord::RmqMessage { message: Err(e), .. })) => step
                    == PollStep::Return(Err(RmqError::Service(e))),
                Ok(Some(ReceivedRecord::RmqMessageDigest(digest))) => {
                    &&& step matches PollStep::CheckExpiry { message_cc, current_cc, digest: d }
                    &&& message_cc == seqno_of_field(digest.masterchain_seqno)
                    &&& current_cc == info.master_cc_seqno
                    &&& d == digest
                },
                // Nothing is left to read, or nothing can be read.
                Ok(None) => step == PollStep::Return(Ok(())),
                Err(_) => step == PollStep::Return(Ok(())),
            }
        },
        PollEvent::Registered { message, forwarded, reply } => match reply {
            Ok(None) => poll_adds(
                info,
                pre,
                AddEvent::Called { message, status_to_send: Some(RempMessageStatus::RempNew) },
                post,
                step,
            ),
            Ok(Some(old_status)) => post == pre && step == if forwarded && !old_status.is_final() {
                PollStep::FindLevel { message, old_status }
            } else {
                PollStep::Receive
            },
            Err(_) => post == pre && step == PollStep::Receive,
        },
        PollEvent::LevelFound { message, old_status, level } => {
            &&& post == pre
            &&& step == PollStep::Downgrade {
                message,
                new_status: RempMessageStatus::RempIgnored(
                    RempIgnored { level, block_id: old_status.block() },
                ),
            }
        },
        PollEvent::Downgraded { message, new_status, reply } => match reply {
            Ok(_) => poll_adds(
                info,
                pre,
                AddEvent::Called { message, status_to_send: Some(new_status) },
                post,
                step,
            ),
            Err(e) => post == pre && step == PollStep::Return(Err(RmqError::Service(e))),
        },
        PollEvent::Adding(event) => poll_adds(info, pre, event, post, step),
        PollEvent::ExpiryChecked { digest, expired } => {
            &&& post == pre
            &&& if expired || seqno_of_field(digest.masterchain_seqno) > info.master_cc_seqno {
                step == PollStep::Receive
            } else {
                poll_rejects(info, digest, 0, step)
            }
        },
        PollEvent::Rejected { digest, done, reply } => {
            &&& post == pre
            &&& match reply {
                Ok(_) => poll_rejects(info, digest, done, step),
                Err(e) => step == PollStep::Return(Err(RmqError::Service(e))),
            }
        },
    }
}

impl MessageQueue {
    /// Adds a message to the collation set and queue. If it did not wait there already, the attempt
    /// is noted, and the full node is told `status_to_send`.
    pub fn add_pending_collation(&mut self, event: AddEvent) -> (step: AddStep)
        ensures
            final(self).info() == old(self).info(),
            final(self)@ == add_leaves(old(self)@, event),
            step == add_next(old(self).info(), old(self)@, event),
            old(self)@.consistent() ==> final(self)@.consistent(),
    {
        match event {
            AddEvent::Called { message, status_to_send } => match self.queues_mut().add_to_collation_queue(
                &message.message_id,
                message.timestamp,
                true,
            ) {
                Ok((added_to_queue, _)) => if added_to_queue {
                    AddStep::MarkCollationAttempt {
                        message_id: message.message_id,
                        message,
                        status_to_send,
                    }
                } else {
                    AddStep::Return(Ok(()))
                },
                Err(e) => AddStep::Return(Err(e)),
            },
            AddEvent::Marked { message, status_to_send, reply } => match reply {
                Ok(_) => match status_to_send {
                    Some(status) => AddStep::Respond(
                        self.send_response_to_fullnode(message, status),
                    ),
                    None => AddStep::Return(Ok(())),
                },
                Err(e) => AddStep::Return(Err(RmqError::Service(e))),
            },
            AddEvent::Responded => AddStep::Return(Ok(())),
        }
    }

    fn poll_adding(&mut self, event: AddEvent) -> (step: PollStep)
        ensures
            final(self).info() == old(self).info(),
            poll_adds(old(self).info(), old(self)@, event, final(self)@, step),
            old(self)@.consistent() ==> final(self)@.consistent(),
    {
        match self.add_pending_collation(event) {
            AddStep::Return(Ok(_)) => PollStep::Receive,
            AddStep::Return(Err(e)) => PollStep::Return(Err(e)),
            step => PollStep::Adding(step),
        }
    }

    fn poll_rejecting(&self, digest: RmqMessageDigest, done: usize) -> (step: PollStep)
        ensures
            poll_rejects(self.info(), digest, done, step),
    {
        if done < digest.messages.len() {
            let reject = RempRejected {
                level: RempMessageLevel::RempQueue,
                block_id: BlockIdExt::default(),
                error: "reject received from digest".to_string(),
            };
            let request = ExternalMessageStatus {
                message_id: digest.messages[done],
                message: None,
                shard: self.catchain_info().shard,
                status: RempMessageStatus::RempRejected(reject),
                master_cc_seqno: seqno_from_field(digest.masterchain_seqno),
            };
            PollStep::Reject { request, digest, done: done + 1 }
        } else {
            PollStep::Receive
        }
    }

    fn poll_reading(mut rest: Vec<UInt256>) -> (step: PollStep)
        ensures
            poll_reads(rest@, step),
    {
        match rest.pop() {
            Some(message_id) => PollStep::ReadStatus { message_id, rest },
            None => PollStep::Receive,
        }
    }

    /// Checks the status of all messages that are under collation already. Then reads all records
    /// that were received. New messages are made known to the message cache and
    /// put into the collation queue; so are messages of earlier sessions whose fate is open. The
    /// messages of a digest are made known as rejected.
    pub fn poll(&mut self, event: PollEvent) -> (step: PollStep)
        ensures
            final(self).info() == old(self).info(),
            poll_goes(old(self).info(), old(self)@, event, final(self)@, step),
            old(self)@.consistent() ==> final(self)@.consistent(),
    {
        match event {
            PollEvent::Called => match self.list_pending_for_forwarding() {
                Ok(ids) => MessageQueue::poll_reading(ids),
                Err(e) => PollStep::Return(Err(e)),
            },
            PollEvent::StatusRead { rest, .. } => MessageQueue::poll_reading(rest),
            PollEvent::Received(received) => match received {
                Err(_) => PollStep::Return(Ok(())),
                Ok(None) => PollStep::Return(Ok(())),
                Ok(Some(ReceivedRecord::RmqMessage { message, masterchain_seqno })) => match message {
                    Err(e) => PollStep::Return(Err(RmqError::Service(e))),
                    Ok(message) => {
                        let master_cc_seqno: u32 = seqno_from_field(masterchain_seqno);
                        let forwarded = self.catchain_info().master_cc_seqno > master_cc_seqno;
                        let request = ExternalMessageStatus {
                            message_id: message.message_id,
                            message: Some(message.clone()),
                            shard: self.catchain_info().shard,
                            status: RempMessageStatus::RempNew,
                            master_cc_seqno,
                        };
                        PollStep::Register { request, message, forwarded }
                    },
                },
                Ok(Some(ReceivedRecord::RmqMessageDigest(digest))) => PollStep::CheckExpiry {
                    message_cc: seqno_from_field(digest.masterchain_seqno),
                    current_cc: self.catchain_info().master_cc_seqno,
                    digest,
                },
            },
            PollEvent::Registered { message, forwarded, reply } => match reply {
                Err(_) => PollStep::Receive,
                Ok(Some(old_status)) => if forwarded && !MessageQueue::is_final_status(&old_status) {
                    PollStep::FindLevel { message, old_status }
                } else {
                    PollStep::Receive
                },
                Ok(None) => self.poll_adding(
                    AddEvent::Called { message, status_to_send: Some(RempMessageStatus::RempNew) },
                ),
            },
            PollEvent::LevelFound { message, old_status, level } => PollStep::Downgrade {
                message,
                new_status: RempMessageStatus::RempIgnored(
                    RempIgnored { level, block_id: MessageQueue::get_status_blockid(&old_status) },
                ),
            },
            PollEvent::Downgraded { message, new_status, reply } => match reply {
                Ok(_) => self.poll_adding(
                    AddEvent::Called { message, status_to_send: Some(new_status) },
                ),
                Err(e) => PollStep::Return(Err(RmqError::Service(e))),
            },
            PollEvent::Adding(event) => self.poll_adding(event),
            PollEvent::ExpiryChecked { digest, expired } => {
                let message_cc: u32 = seqno_from_field(digest.masterchain_seqno);
                if expired || message_cc > self.catchain_info().master_cc_seqno {
                    PollStep::Receive
                } else {
                    self.poll_rejecting(digest, 0)
                }
            },
            PollEvent::Rejected { digest, done, reply } => match reply {
                Ok(_) => self.poll_rejecting(digest, done),
                Err(e) => PollStep::Return(Err(RmqError::Service(e))),
            },
        }
    }
}

} // verus!
