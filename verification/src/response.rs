//! Recording a new status of a message, and telling it to the full node.
use std::sync::Arc;
use vstd::prelude::*;

use crate::ident::BlockIdExt;
use crate::ident::UInt256;
use crate::message::RmqMessage;
use crate::message_queue::response;
use crate::message_queue::FullnodeResponse;
use crate::message_queue::MessageQueue;
use crate::message_queue::RempCatchainInfo;
use crate::status::RempMessageLevel;
use crate::status::RempMessageStatus;

verus! {

/// What `update_status_send_response` is told.
pub enum UpdateEvent {
    Called { message_id: UInt256, message: Arc<RmqMessage>, new_status: RempMessageStatus },
    /// The message cache took the status and gives the one to report, or gives nothing, or failed.
    Updated { message: Arc<RmqMessage>, reply: Result<Option<RempMessageStatus>, String> },
    /// The response was sent.
    Responded,
}

/// What `update_status_send_response` asks for.
#[derive(Debug, PartialEq, Eq)]
pub enum UpdateStep {
    /// Hand the status to the message cache.
    UpdateStatus { message_id: UInt256, message: Arc<RmqMessage>, new_status: RempMessageStatus },
    Respond(FullnodeResponse),
    Return,
}

/// What `update_status_send_response_by_id` is told.
pub enum UpdateByIdEvent {
    Called { message_id: UInt256, new_status: RempMessageStatus },
    /// The message was sought in the message cache.
    Found {
        message_id: UInt256,
        new_status: RempMessageStatus,
        found: Option<Arc<RmqMessage>>,
    },
    /// The update of `message` goes on.
    Updating { message: Arc<RmqMessage>, event: UpdateEvent },
}

/// What `update_status_send_response_by_id` asks for.
#[derive(Debug, PartialEq, Eq)]
pub enum UpdateByIdStep {
    /// Seek the message in the message cache.
    GetMessage { message_id: UInt256, new_status: RempMessageStatus },
    /// Do what the update of `message` asks for.
    Updating { message: Arc<RmqMessage>, step: UpdateStep },
    /// The message, if the cache has it.
    Return(Option<Arc<RmqMessage>>),
}

/// What `update_status_send_response` does next.
pub open spec fn update_next(info: RempCatchainInfo, event: UpdateEvent) -> UpdateStep {
    match event {
        UpdateEvent::Called { message_id, message, new_status } => UpdateStep::UpdateStatus {
            message_id,
            message,
            new_status,
        },
        UpdateEvent::Updated { message, reply: Ok(Some(final_status)) } => UpdateStep::Respond(
            response(info, message, final_status),
        ),
        UpdateEvent::Updated { .. } => UpdateStep::Return,
        UpdateEvent::Responded => UpdateStep::Return,
    }
}

/// What `update_status_send_response_by_id` does next.
pub open spec fn update_by_id_next(info: RempCatchainInfo, event: UpdateByIdEvent) -> UpdateByIdStep {
    match event {
        UpdateByIdEvent::Called { message_id, new_status } => UpdateByIdStep::GetMessage {
            message_id,
            new_status,
        },
        UpdateByIdEvent::Found { message_id, new_status, found: Some(message) } =>
            UpdateByIdStep::Updating {
            message,
            step: UpdateStep::UpdateStatus { message_id, message, new_status },
        },
        UpdateByIdEvent::Found { found: None, .. } => UpdateByIdStep::Return(None),
        UpdateByIdEvent::Updating { message, event } => match update_next(info, event) {
            UpdateStep::Return => UpdateByIdStep::Return(Some(message)),
            step => UpdateByIdStep::Updating { message, step },
        },
    }
}

impl MessageQueue {
    /// Records a new status of a message, and reports the status that the message cache answers
    /// with, if it does.
    pub fn update_status_send_response(&self, event: UpdateEvent) -> (step: UpdateStep)
        ensures
            step == update_next(self.info(), event),
    {
        match event {
            UpdateEvent::Called { message_id, message, new_status } => UpdateStep::UpdateStatus {
                message_id,
                message,
                new_status,
            },
            UpdateEvent::Updated { message, reply } => match reply {
                Ok(Some(final_status)) => UpdateStep::Respond(
                    self.send_response_to_fullnode(message, final_status),
                ),
                // No status is to be reported.
                Ok(None) => UpdateStep::Return,
                Err(_) => UpdateStep::Return,
            },
            UpdateEvent::Responded => UpdateStep::Return,
        }
    }

    /// Records and reports a new status of a message that is known by its identifier. Gives the
    /// message, if the message cache has it.
    pub fn update_status_send_response_by_id(&self, event: UpdateByIdEvent) -> (step:
        UpdateByIdStep)
        ensures
            step == update_by_id_next(self.info(), event),
    {
        match event {
            UpdateByIdEvent::Called { message_id, new_status } => UpdateByIdStep::GetMessage {
                message_id,
                new_status,
            },
            UpdateByIdEvent::Found { message_id, new_status, found } => match found {
                Some(message) => {
                    let step = self.update_status_send_response(
                        UpdateEvent::Called { message_id, message: message.clone(), new_status },
                    );
                    UpdateByIdStep::Updating { message, step }
                },
                None => UpdateByIdStep::Return(None),
            },
            UpdateByIdEvent::Updating { message, event } => match self.update_status_send_response(
                event,
            ) {
                UpdateStep::Return => UpdateByIdStep::Return(Some(message)),
                step => UpdateByIdStep::Updating { message, step },
            },
        }
    }

    /// Tells whether the fate of a message is settled.
    pub fn is_final_status(status: &RempMessageStatus) -> (settled: bool)
        ensures
            settled == status.is_final(),
    {
        match status {
            RempMessageStatus::RempRejected(_) => true,
            RempMessageStatus::RempTimeout => true,
            RempMessageStatus::RempAccepted(a) => match a.level {
                RempMessageLevel::RempMasterchain => true,
                _ => false,
            },
            _ => false,
        }
    }

    /// The block that a status speaks of; the default one where it speaks of none.
    pub fn get_status_blockid(status: &RempMessageStatus) -> (block_id: BlockIdExt)
        ensures
            block_id == status.block(),
    {
        match status {
            RempMessageStatus::RempNew => BlockIdExt::default(),
            RempMessageStatus::RempAccepted(a) => a.block_id,
            RempMessageStatus::RempRejected(r) => r.block_id,
            RempMessageStatus::RempIgnored(i) => i.block_id,
            RempMessageStatus::RempTimeout => BlockIdExt::default(),
            RempMessageStatus::RempDuplicate(b) => b.block_id,
            RempMessageStatus::RempSentToValidators(_) => BlockIdExt::default(),
        }
    }
}

/// Gives a new status to the messages of a block, one after the other.
#[derive(Debug, PartialEq, Eq)]
pub struct StatusUpdater {
    pub new_status: RempMessageStatus,
}

impl StatusUpdater {
    /// The update that a message of the block calls for.
    pub fn process_message(&self, message_id: &UInt256) -> (update: UpdateByIdEvent)
        ensures
            update == (UpdateByIdEvent::Called {
                message_id: *message_id,
                new_status: self.new_status,
            }),
    {
        UpdateByIdEvent::Called { message_id: *message_id, new_status: self.new_status.clone() }
    }
}

} // verus!
