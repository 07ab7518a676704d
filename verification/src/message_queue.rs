//! A queue: creation, start and stop, and putting messages into it.
//!
//! The operations that wait for services outside the queue are written as steps. An operation is
//! called with an event: first `Called`, later the outcome of what was asked for. It answers with
//! the next thing to do, and ends with `Return`. What an operation has to remember between two
//! steps travels in the step, and comes back in the event.
use std::sync::Arc;
use vstd::prelude::*;

use crate::error::RmqError;
use crate::ident::ShardIdent;
use crate::ident::UInt256;
use crate::message::RmqMessage;
use crate::queue_impl::MessageQueueImpl;
use crate::queue_impl::MessageQueueStatus;
use crate::queue_impl::QueueState;
use crate::status::RempMessageStatus;

verus! {

/// The pause between two attempts to stop a queue that is starting, in milliseconds.
pub const RMQ_STOP_POLLING_INTERVAL_MS: u64 = 1;

/// The catchain that a queue belongs to, and this validator's place in it.
#[derive(Clone, Copy, Debug, PartialEq, Eq, Hash, Structural)]
pub struct RempCatchainInfo {
    pub local_idx: u64,
    pub local_key_id: UInt256,
    pub queue_id: UInt256,
    pub shard: ShardIdent,
    pub master_cc_seqno: u32,
}

/// An answer to the full node that sent a message.
#[derive(Debug, PartialEq, Eq)]
pub struct FullnodeResponse {
    pub local_key_id: UInt256,
    pub message: Arc<RmqMessage>,
    pub status: RempMessageStatus,
}

/// A message queue of one catchain.
pub struct MessageQueue {
    catchain_info: RempCatchainInfo,
    queues: MessageQueueImpl,
}

impl View for MessageQueue {
    type V = QueueState;

    closed spec fn view(&self) -> QueueState {
        self.queues@
    }
}

/// What `start` is told.
pub enum StartEvent {
    Called,
    /// The catchain was started, or could not be.
    CatchainStarted(Result<(), String>),
    /// The catchain instance was set up, or could not be.
    InstanceInitialised(Result<(), String>),
}

/// What `start` asks for.
#[derive(Debug, PartialEq, Eq)]
pub enum StartStep {
    StartCatchain,
    InitInstance,
    Return(Result<(), RmqError>),
}

/// What `stop` asks for.
#[derive(Debug, PartialEq, Eq)]
pub enum StopStep {
    /// Stop the catchain, and return what that returns.
    StopCatchain { queue_id: UInt256 },
    /// The queue was never started: return.
    Return,
    /// The queue is starting: call `stop` again, after a pause.
    Wait,
}

/// What `put_message_to_rmq` is told.
pub enum PutEvent {
    Called { old_message: Arc<RmqMessage> },
    /// The message was written to the catchain, or could not be.
    Sent { message: Arc<RmqMessage>, reply: Result<(), String> },
    /// The session of the queue was sought.
    SessionSought { message: Arc<RmqMessage>, found: bool },
    /// The session was asked for a new block.
    BlockRequested { message: Arc<RmqMessage> },
    /// The response was sent.
    Responded,
}

/// What `put_message_to_rmq` asks for.
#[derive(Debug, PartialEq, Eq)]
pub enum PutStep {
    /// Write the message to the catchain, with this masterchain session number.
    Send { message: Arc<RmqMessage>, master_cc_seqno: u32 },
    /// Seek the session of the queue.
    FindSession { queue_id: UInt256, message: Arc<RmqMessage> },
    /// Ask the session that was found for a new block.
    RequestNewBlock { message: Arc<RmqMessage> },
    Respond(FullnodeResponse),
    Return(Result<(), RmqError>),
}

/// The state after the status changed from `required` to `new`, if it was `required`.
pub open spec fn after_status_change(
    pre: QueueState,
    required: MessageQueueStatus,
    new: MessageQueueStatus,
) -> QueueState {
    if pre.status == required {
        QueueState { status: new, ..pre }
    } else {
        pre
    }
}

/// What a change of status from `required` yields.
pub open spec fn status_change(pre: QueueState, required: MessageQueueStatus) -> Result<
    (),
    RmqError,
> {
    if pre.status == required {
        Ok(())
    } else {
        Err(RmqError::WrongQueueStatus { actual: pre.status, required })
    }
}

/// How `start` goes from one step to the next.
pub open spec fn start_goes(
    pre: QueueState,
    event: StartEvent,
    post: QueueState,
    step: StartStep,
) -> bool {
    match event {
        StartEvent::Called => {
            &&& post == after_status_change(
                pre,
                MessageQueueStatus::Created,
                MessageQueueStatus::Starting,
            )
            &&& step == match status_change(pre, MessageQueueStatus::Created) {
                Ok(_) => StartStep::StartCatchain,
                Err(e) => StartStep::Return(Err(e)),
            }
        },
        StartEvent::CatchainStarted(reply) => {
            &&& post == pre
            &&& step == match reply {
                Ok(_) => StartStep::InitInstance,
                Err(e) => StartStep::Return(Err(RmqError::Service(e))),
            }
        },
        StartEvent::InstanceInitialised(Ok(_)) => {
            &&& post == after_status_change(
                pre,
                MessageQueueStatus::Starting,
                MessageQueueStatus::Active,
            )
            &&& step == StartStep::Return(status_change(pre, MessageQueueStatus::Starting))
        },
        StartEvent::InstanceInitialised(Err(e)) => {
            &&& post == pre
            &&& step == StartStep::Return(Err(RmqError::Service(e)))
        },
    }
}

/// How one attempt to stop a queue ends.
pub open spec fn stop_goes(
    info: RempCatchainInfo,
    pre: QueueState,
    post: QueueState,
    result: Result<StopStep, RmqError>,
) -> bool {
    match pre.status {
        MessageQueueStatus::Created => {
            &&& post == (QueueState { status: MessageQueueStatus::Stopping, ..pre })
            &&& result == Ok::<StopStep, RmqError>(StopStep::Return)
        },
        MessageQueueStatus::Starting => {
            &&& post == pre
            &&& result == Ok::<StopStep, RmqError>(StopStep::Wait)
        },
        MessageQueueStatus::Active => {
            &&& post == (QueueState { status: MessageQueueStatus::Stopping, ..pre })
            &&& result == Ok::<StopStep, RmqError>(
                StopStep::StopCatchain { queue_id: info.queue_id },
            )
        },
        MessageQueueStatus::Stopping => {
            &&& post == pre
            &&& result == Err::<StopStep, RmqError>(RmqError::AlreadyStopping)
        },
    }
}

/// The answer to a full node that a queue of this catchain gives.
pub open spec fn response(
    info: RempCatchainInfo,
    message: Arc<RmqMessage>,
    status: RempMessageStatus,
) -> FullnodeResponse {
    FullnodeResponse { local_key_id: info.local_key_id, message, status }
}

/// This validator's index as messages carry it: its low 32 bits.
pub open spec fn source_idx_of(info: RempCatchainInfo) -> int {
    info.local_idx as int % 0x1_0000_0000
}

/// How `put_message_to_rmq` goes from one step to the next.
pub open spec fn put_goes(info: RempCatchainInfo, event: PutEvent, step: PutStep) -> bool {
    match event {
        PutEvent::Called { old_message } => step == PutStep::Send {
            message: Arc::new(
                RmqMessage { source_idx: source_idx_of(info) as u32, ..*old_message },
            ),
            master_cc_seqno: info.master_cc_seqno,
        },
        PutEvent::Sent { message, reply: Ok(_) } => step == PutStep::FindSession {
            queue_id: info.queue_id,
            message,
        },
        PutEvent::Sent { message, reply: Err(e) } => step == PutStep::Return(
            Err(RmqError::Service(e)),
        ),
        PutEvent::SessionSought { message, found } => if found {
            step == PutStep::RequestNewBlock { message }
        } else {
            step == PutStep::Return(Err(RmqError::NotStarted))
        },
        PutEvent::BlockRequested { message } => step == PutStep::Respond(
            response(info, message, RempMessageStatus::RempNew),
        ),
        PutEvent::Responded => step == PutStep::Return(Ok(())),
    }
}

impl MessageQueue {
    /// The catchain of the queue.
    pub closed spec fn info(&self) -> RempCatchainInfo {
        self.catchain_info
    }

    /// The catchain of the queue.
    pub fn catchain_info(&self) -> (info: &RempCatchainInfo)
        ensures
            *info == self.info(),
    {
        &self.catchain_info
    }

    /// The messages and the status of the queue.
    pub(crate) fn queues(&self) -> (queues: &MessageQueueImpl)
        ensures
            queues@ == self@,
    {
        &self.queues
    }

    /// The messages and the status of the queue, to change them.
    pub(crate) fn queues_mut(&mut self) -> (queues: &mut MessageQueueImpl)
        ensures
            queues@ == old(self)@,
            final(queues)@ == final(self)@,
            final(self).info() == old(self).info(),
    {
        &mut self.queues
    }

    /// Creates a queue for a catchain, if the catchain could be described.
    pub fn create(info: Result<RempCatchainInfo, RmqError>) -> (result: Result<
        MessageQueue,
        RmqError,
    >)
        ensures
            match info {
                Ok(info) => result matches Ok(queue) && queue.info() == info && queue@
                    == QueueState::fresh() && queue@.consistent(),
                Err(e) => result == Err::<MessageQueue, RmqError>(e),
            },
    {
        match info {
            Ok(catchain_info) => Ok(
                MessageQueue { catchain_info, queues: MessageQueueImpl::new() },
            ),
            Err(e) => Err(e),
        }
    }

    /// Changes the status of the queue to `new_status`, provided that it is `required_status`.
    fn set_queue_status(
        &mut self,
        required_status: MessageQueueStatus,
        new_status: MessageQueueStatus,
    ) -> (result: Result<(), RmqError>)
        ensures
            final(self).info() == old(self).info(),
            final(self)@ == after_status_change(old(self)@, required_status, new_status),
            result == status_change(old(self)@, required_status),
    {
        let actual = self.queues.status();
        if actual != required_status {
            Err(RmqError::WrongQueueStatus { actual, required: required_status })
        } else {
            self.queues.set_status(new_status);
            Ok(())
        }
    }

    /// Starts the queue: a created queue becomes a starting one, the catchain is started and its
    /// instance set up, and the queue becomes active.
    pub fn start(&mut self, event: StartEvent) -> (step: StartStep)
        ensures
            final(self).info() == old(self).info(),
            start_goes(old(self)@, event, final(self)@, step),
    {
        match event {
            StartEvent::Called => match self.set_queue_status(
                MessageQueueStatus::Created,
                MessageQueueStatus::Starting,
            ) {
                Ok(_) => StartStep::StartCatchain,
                Err(e) => StartStep::Return(Err(e)),
            },
            StartEvent::CatchainStarted(reply) => match reply {
                Ok(_) => StartStep::InitInstance,
                Err(e) => StartStep::Return(Err(RmqError::Service(e))),
            },
            StartEvent::InstanceInitialised(reply) => match reply {
                Ok(_) => StartStep::Return(
                    self.set_queue_status(MessageQueueStatus::Starting, MessageQueueStatus::Active),
                ),
                Err(e) => StartStep::Return(Err(RmqError::Service(e))),
            },
        }
    }

    /// Attempts to stop the queue.
    pub fn stop(&mut self) -> (result: Result<StopStep, RmqError>)
        ensures
            final(self).info() == old(self).info(),
            stop_goes(old(self).info(), old(self)@, final(self)@, result),
    {
        match self.queues.status() {
            MessageQueueStatus::Created => {
                self.queues.set_status(MessageQueueStatus::Stopping);
                Ok(StopStep::Return)
            },
            MessageQueueStatus::Starting => Ok(StopStep::Wait),
            MessageQueueStatus::Stopping => Err(RmqError::AlreadyStopping),
            MessageQueueStatus::Active => {
                self.queues.set_status(MessageQueueStatus::Stopping);
                Ok(StopStep::StopCatchain { queue_id: self.catchain_info.queue_id })
            },
        }
    }

    /// The answer that tells a full node the status of a message.
    pub fn send_response_to_fullnode(
        &self,
        rmq_message: Arc<RmqMessage>,
        status: RempMessageStatus,
    ) -> (answer: FullnodeResponse)
        ensures
            answer == response(self.info(), rmq_message, status),
    {
        FullnodeResponse {
            local_key_id: self.catchain_info.local_key_id,
            message: rmq_message,
            status,
        }
    }

    /// Writes a message to the catchain in this validator's name, and asks for a new block.
    pub fn put_message_to_rmq(&self, event: PutEvent) -> (step: PutStep)
        ensures
            put_goes(self.info(), event, step),
    {
        match event {
            PutEvent::Called { old_message } => {
                let local_idx: u64 = self.catchain_info.local_idx;
                assert(local_idx as u32 == local_idx % 0x1_0000_0000) by (bit_vector);
                let source_idx: u32 = local_idx as u32;
                let message = Arc::new(old_message.new_with_updated_source_idx(source_idx));
                PutStep::Send { message, master_cc_seqno: self.catchain_info.master_cc_seqno }
            },
            PutEvent::Sent { message, reply } => match reply {
                Ok(_) => PutStep::FindSession { queue_id: self.catchain_info.queue_id, message },
                Err(e) => PutStep::Return(Err(RmqError::Service(e))),
            },
            PutEvent::SessionSought { message, found } => if found {
                PutStep::RequestNewBlock { message }
            } else {
                PutStep::Return(Err(RmqError::NotStarted))
            },
            PutEvent::BlockRequested { message } => PutStep::Respond(
                // The message is not registered yet: the status is a temporary one.
                self.send_response_to_fullnode(message, RempMessageStatus::RempNew),
            ),
            PutEvent::Responded => PutStep::Return(Ok(())),
        }
    }

    /// The messages under collation, each once.
    pub fn list_pending_for_forwarding(&mut self) -> (result: Result<Vec<UInt256>, RmqError>)
        ensures
            final(self).info() == old(self).info(),
            final(self)@ == old(self)@,
            match result {
                Ok(ids) => ids@.no_duplicates() && ids@.to_set() == old(self)@.marks.dom(),
                Err(_) => false,
            },
    {
        self.queues.list_pending_for_forwarding()
    }

    /// The number of messages under collation.
    pub fn received_messages_count(&self) -> (count: usize)
        ensures
            count == self@.marks.len(),
    {
        self.queues.count()
    }
}

} // verus!
