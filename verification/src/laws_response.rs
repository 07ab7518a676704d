//! What putting a message into a queue does, and how a new status is recorded and reported.
use std::sync::Arc;
use vstd::prelude::*;

use crate::error::RmqError;
use crate::ident::UInt256;
use crate::laws_status::tells;
use crate::message::RmqMessage;
use crate::message_queue::MessageQueue;
use crate::message_queue::PutEvent;
use crate::message_queue::PutStep;
use crate::message_queue::RempCatchainInfo;
use crate::response::update_by_id_next;
use crate::response::update_next;
use crate::response::StatusUpdater;
use crate::response::UpdateByIdEvent;
use crate::response::UpdateByIdStep;
use crate::response::UpdateEvent;
use crate::response::UpdateStep;
use crate::status::RempMessageStatus;

verus! {

/// A message that is put into a queue is written with the session of the queue and the low 32 bits of
/// this validator's index, and is otherwise as it was. If it was written, the session of the queue is
/// sought; if there is one, it is asked for a block, the full node is told that the message is new,
/// and putting succeeds. If there is none, or writing failed, putting fails and nobody is told.
pub proof fn law_putting(queue: MessageQueue, event: PutEvent, step: PutStep)
    requires
        call_ensures(MessageQueue::put_message_to_rmq, (&queue, event), step),
    ensures
        match event {
            PutEvent::Called { old_message } => {
                &&& step matches PutStep::Send { message, master_cc_seqno }
                &&& master_cc_seqno == queue.info().master_cc_seqno
                &&& message.message_id == old_message.message_id
                &&& message.timestamp == old_message.timestamp
                &&& message.message == old_message.message
                &&& (queue.info().local_idx - message.source_idx) % 0x1_0000_0000 == 0
            },
            PutEvent::Sent { message, reply: Ok(_) } => {
                &&& step matches PutStep::FindSession { queue_id, message: same }
                &&& queue_id == queue.info().queue_id
                &&& same == message
            },
            PutEvent::Sent { message, reply: Err(text) } => step == PutStep::Return(
                Err(RmqError::Service(text)),
            ),
            PutEvent::SessionSought { message, found: true } => step matches
                PutStep::RequestNewBlock { message: same } && same == message,
            PutEvent::SessionSought { message, found: false } => step == PutStep::Return(
                Err(RmqError::NotStarted),
            ),
            PutEvent::BlockRequested { message } => step matches PutStep::Respond(answer) && tells(
                answer,
                queue.info(),
                message,
                RempMessageStatus::RempNew,
            ),
            PutEvent::Responded => step == PutStep::Return(Ok(())),
        },
{
}

/// How an update of a status goes on: the status is handed to the message cache, and the full node
/// is told the status that the cache gives back, if it gives one.
pub open spec fn update_goes_on(
    info: RempCatchainInfo,
    event: UpdateEvent,
    step: UpdateStep,
) -> bool {
    match event {
        UpdateEvent::Called { message_id, message, new_status } => {
            &&& step matches UpdateStep::UpdateStatus { message_id: i, message: m, new_status: s }
            &&& i == message_id
            &&& m == message
            &&& s == new_status
        },
        UpdateEvent::Updated { message, reply: Ok(Some(status)) } => step matches
            UpdateStep::Respond(answer) && tells(answer, info, message, status),
        UpdateEvent::Updated { reply: Ok(None), .. } => step is Return,
        UpdateEvent::Updated { reply: Err(_), .. } => step is Return,
        UpdateEvent::Responded => step is Return,
    }
}

/// An update hands the very status of the very message to the message cache, and the full node is
/// told exactly the status that the cache gives back; if it gives none, or fails, nobody is told.
pub proof fn law_updating(queue: MessageQueue, event: UpdateEvent, step: UpdateStep)
    requires
        call_ensures(MessageQueue::update_status_send_response, (&queue, event), step),
    ensures
        update_goes_on(queue.info(), event, step),
        update_goes_on(queue.info(), event, update_next(queue.info(), event)),
{
}

/// How an update by identifier goes on: the message is sought; if it is found, it is updated, and
/// given back when the update is done; if not, nothing is given back.
pub open spec fn update_by_id_goes_on(
    info: RempCatchainInfo,
    event: UpdateByIdEvent,
    step: UpdateByIdStep,
) -> bool {
    match event {
        UpdateByIdEvent::Called { message_id, new_status } => {
            &&& step matches UpdateByIdStep::GetMessage { message_id: i, new_status: s }
            &&& i == message_id
            &&& s == new_status
        },
        UpdateByIdEvent::Found { message_id, new_status, found: Some(message) } => {
            &&& step matches UpdateByIdStep::Updating { message: m, step: update }
            &&& m == message
            &&& update_goes_on(
                info,
                UpdateEvent::Called { message_id, message, new_status },
                update,
            )
        },
        UpdateByIdEvent::Found { found: None, .. } => step == UpdateByIdStep::Return(None),
        UpdateByIdEvent::Updating { message, event } => {
            ||| {
                &&& step matches UpdateByIdStep::Updating { message: m, step: update }
                &&& m == message
                &&& !(update is Return)
                &&& update_goes_on(info, event, update)
            }
            ||| {
                &&& step == UpdateByIdStep::Return(Some(message))
                &&& update_goes_on(info, event, UpdateStep::Return)
            }
        },
    }
}

/// An update by identifier seeks the message, updates it with the very status if it is found, and
/// gives it back when the update is done.
pub proof fn law_updating_by_id(queue: MessageQueue, event: UpdateByIdEvent, step: UpdateByIdStep)
    requires
        call_ensures(MessageQueue::update_status_send_response_by_id, (&queue, event), step),
    ensures
        update_by_id_goes_on(queue.info(), event, step),
        update_by_id_goes_on(queue.info(), event, update_by_id_next(queue.info(), event)),
{
}

/// A complete update by identifier of a message that the cache has: the cache is handed the status,
/// the full node is told exactly what the cache answers, and the message is given back.
pub proof fn law_update_reaches_the_full_node(
    queue: MessageQueue,
    message_id: UInt256,
    new_status: RempMessageStatus,
    message: Arc<RmqMessage>,
    answered: RempMessageStatus,
    s1: UpdateByIdStep,
    s2: UpdateByIdStep,
    s3: UpdateByIdStep,
    s4: UpdateByIdStep,
)
    requires
        call_ensures(
            MessageQueue::update_status_send_response_by_id,
            (&queue, UpdateByIdEvent::Called { message_id, new_status }),
            s1,
        ),
        s1 matches UpdateByIdStep::GetMessage { message_id: i, new_status: s } ==> call_ensures(
            MessageQueue::update_status_send_response_by_id,
            (&queue, UpdateByIdEvent::Found { message_id: i, new_status: s, found: Some(message) }),
            s2,
        ),
        s2 matches UpdateByIdStep::Updating {
            message: m,
            step: UpdateStep::UpdateStatus { message: n, .. },
        } ==> call_ensures(
            MessageQueue::update_status_send_response_by_id,
            (
                &queue,
                UpdateByIdEvent::Updating {
                    message: m,
                    event: UpdateEvent::Updated { message: n, reply: Ok(Some(answered)) },
                },
            ),
            s3,
        ),
        s3 matches UpdateByIdStep::Updating { message: m, step: UpdateStep::Respond(_) }
            ==> call_ensures(
            MessageQueue::update_status_send_response_by_id,
            (&queue, UpdateByIdEvent::Updating { message: m, event: UpdateEvent::Responded }),
            s4,
        ),
    ensures
        s1 == (UpdateByIdStep::GetMessage { message_id, new_status }),
        s2 matches UpdateByIdStep::Updating {
            step: UpdateStep::UpdateStatus { message_id: i, message: m, new_status: s },
            ..
        } && i == message_id && m == message && s == new_status,
        s3 matches UpdateByIdStep::Updating { step: UpdateStep::Respond(answer), .. } && tells(
            answer,
            queue.info(),
            message,
            answered,
        ),
        s4 == UpdateByIdStep::Return(Some(message)),
{
}

/// Each message of a block calls for an update of that message to the status of the updater.
pub proof fn law_block_messages_are_updated(
    updater: StatusUpdater,
    message_id: UInt256,
    update: UpdateByIdEvent,
)
    requires
        call_ensures(StatusUpdater::process_message, (&updater, &message_id), update),
    ensures
        update is Called,
        update->Called_message_id == message_id,
        update->Called_new_status == updater.new_status,
{
}

} // verus!
