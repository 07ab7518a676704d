//! Giving messages to the collator, and taking in what became of them.
use std::sync::Arc;
use vstd::prelude::*;

use crate::collation_order::is_first;
use crate::collation_set::ids_of;
use crate::collation_set::marks_of;
use crate::error::RmqError;
use crate::ident::no_block;
use crate::ident::BlockIdExt;
use crate::ident::ShardIdent;
use crate::ident::UInt256;
use crate::message::Message;
use crate::message::RmqMessage;
use crate::message_queue::MessageQueue;
use crate::message_queue::RempCatchainInfo;
use crate::queue_impl::QueueState;
use crate::response::update_by_id_next;
use crate::response::update_next;
use crate::response::UpdateByIdEvent;
use crate::response::UpdateByIdStep;
use crate::response::UpdateEvent;
use crate::response::UpdateStep;
use crate::status::RempAccepted;
use crate::status::RempMessageLevel;
use crate::status::RempMessageStatus;

verus! {

/// What `collect_messages_for_collation` is told.
pub enum CollectEvent {
    Called,
    /// The message was sought in the message cache, with its status.
    Found {
        message_id: UInt256,
        count: u64,
        found: Option<(Arc<RmqMessage>, RempMessageStatus)>,
    },
    /// The message was sent to the collator, or could not be.
    Sent {
        message_id: UInt256,
        message: Arc<RmqMessage>,
        count: u64,
        reply: Result<(), String>,
    },
    /// The update of a message that was sent goes on.
    Updating { count: u64, event: UpdateEvent },
}

/// What `collect_messages_for_collation` asks for. `count` messages have been sent to the collator.
#[derive(Debug, PartialEq, Eq)]
pub enum CollectStep {
    /// Seek the message in the message cache, with its status.
    GetMessageWithStatus { message_id: UInt256, count: u64 },
    /// Send the body of the message to the collator.
    SendToCollator {
        message_id: UInt256,
        body: Arc<Message>,
        message: Arc<RmqMessage>,
        count: u64,
    },
    /// Do what the update of the message asks for.
    Updating { count: u64, step: UpdateStep },
    /// The number of messages that were sent to the collator.
    Return(Result<u64, RmqError>),
}

/// What the collator says of a message.
#[derive(Debug, PartialEq, Eq)]
pub struct CollatorResult {
    pub message_id: UInt256,
    pub status: RempMessageStatus,
}

/// What `process_one_deque_remp_message_status` is told.
pub enum ReceiptEvent {
    Called,
    /// The next answer of the collator, if there is one.
    Polled(Option<CollatorResult>),
    /// The update of the message goes on.
    Updating { result: CollatorResult, event: UpdateByIdEvent },
    /// The message was sought in the message cache, to be collated again.
    Found { result: CollatorResult, message: Option<Arc<RmqMessage>> },
}

/// What `process_one_deque_remp_message_status` asks for.
#[derive(Debug, PartialEq, Eq)]
pub enum ReceiptStep {
    /// Get the next answer of the collator for a message of this shard.
    PollReceipts { shard: ShardIdent },
    /// Do what the update of the message asks for.
    Updating { result: CollatorResult, step: UpdateByIdStep },
    /// Seek the message in the message cache.
    GetMessage { result: CollatorResult },
    Return(Result<Option<RempMessageStatus>, RmqError>),
}

/// How many messages the collator accepted, rejected and ignored.
#[derive(Clone, Copy, Debug, PartialEq, Eq, Hash, Structural)]
pub struct CollationTally {
    pub accepted: u64,
    pub rejected: u64,
    pub ignored: u64,
}

/// What `process_collation_result` is told.
pub enum ResultEvent {
    Called,
    /// One answer of the collator was processed.
    Processed { tally: CollationTally, reply: Result<Option<RempMessageStatus>, RmqError> },
}

/// What `process_collation_result` asks for.
#[derive(Debug, PartialEq, Eq)]
pub enum ResultStep {
    /// Process one answer of the collator.
    ProcessOne { tally: CollationTally },
    Return(CollationTally),
}

/// What `all_accepted_by_collator_to_ignored` is told.
pub enum DowngradeEvent {
    Called,
    /// The message cache changed the status of the message and gives its timestamp, or left it.
    Changed {
        message_id: UInt256,
        reply: Option<u32>,
        rest: Vec<(UInt256, bool)>,
        downgrading: Vec<(UInt256, u32)>,
    },
}

/// What `all_accepted_by_collator_to_ignored` asks for.
#[derive(Debug, PartialEq, Eq)]
pub enum DowngradeStep {
    /// Change the status of the message from accepted by the collator to ignored, if it is that.
    ChangeToIgnored {
        message_id: UInt256,
        /// Whether the message waits for the collator. If so, its status should not be that.
        waiting: bool,
        rest: Vec<(UInt256, bool)>,
        downgrading: Vec<(UInt256, u32)>,
    },
    /// The messages whose status was changed, with their timestamps.
    Return(Vec<(UInt256, u32)>),
}

/// The status of a message that was sent to the collator.
pub open spec fn sent_to_collator() -> RempMessageStatus {
    RempMessageStatus::RempAccepted(
        RempAccepted {
            level: RempMessageLevel::RempQueue,
            block_id: no_block(),
            master_id: no_block(),
        },
    )
}

/// Collecting turns to the next waiting message, after `count` were sent.
pub open spec fn collect_turns(
    pre: QueueState,
    count: int,
    post: QueueState,
    step: CollectStep,
) -> bool {
    &&& pre.order.len() > 0 ==> is_first(pre.order, pre.first())
    &&& post == pre.after_take()
    &&& step == match pre.taken() {
        Ok(Some((message_id, _))) => CollectStep::GetMessageWithStatus {
            message_id,
            count: count as u64,
        },
        Ok(None) => CollectStep::Return(Ok(count as u64)),
        Err(e) => CollectStep::Return(Err(e)),
    }
}

/// How `collect_messages_for_collation` goes from one step to the next.
pub open spec fn collect_goes(
    info: RempCatchainInfo,
    pre: QueueState,
    event: CollectEvent,
    post: QueueState,
    step: CollectStep,
) -> bool {
    match event {
        CollectEvent::Called => collect_turns(pre, 0, post, step),
        CollectEvent::Found { message_id, count, found } => match found {
            Some((message, status)) => if status.can_be_collated() {
                &&& post == pre
                &&& step == CollectStep::SendToCollator {
                    message_id,
                    body: message.message,
                    message,
                    count,
                }
            } else {
                collect_turns(pre, count as int, post, step)
            },
            None => collect_turns(pre, count as int, post, step),
        },
        CollectEvent::Sent { message_id, message, count, reply } => match reply {
            Ok(_) => {
                &&& post == pre
                &&& step == CollectStep::Updating {
                    count,
                    step: UpdateStep::UpdateStatus {
                        message_id,
                        message,
                        new_status: sent_to_collator(),
                    },
                }
            },
            Err(_) => collect_turns(pre, count as int, post, step),
        },
        CollectEvent::Updating { count, event } => match update_next(info, event) {
            UpdateStep::Return => collect_turns(pre, count + 1, post, step),
            update => post == pre && step == (CollectStep::Updating { count, step: update }),
        },
    }
}

/// The answer is one that the collator may give: it accepted, rejected or ignored the message.
pub open spec fn is_collator_answer(status: RempMessageStatus) -> bool {
    match status {
        RempMessageStatus::RempAccepted(a) => a.level == RempMessageLevel::RempCollator,
        RempMessageStatus::RempRejected(r) => r.level == RempMessageLevel::RempCollator,
        RempMessageStatus::RempIgnored(i) => i.level == RempMessageLevel::RempCollator,
        _ => false,
    }
}

/// The state after a message of the message cache was offered to the collation queue.
pub open spec fn requeue_leaves(
    pre: QueueState,
    id: UInt256,
    message: Option<RmqMessage>,
    add_if_absent: bool,
) -> QueueState {
    match message {
        Some(message) => pre.after_add(id, message.timestamp, add_if_absent),
        None => pre,
    }
}

/// What offering a message of the message cache to the collation queue yields.
pub open spec fn requeue_result(
    pre: QueueState,
    id: UInt256,
    message: Option<RmqMessage>,
    add_if_absent: bool,
) -> Result<(), RmqError> {
    if message is None {
        Err(RmqError::NotInMessageCache(id))
    } else if !pre.admits(id, add_if_absent) {
        Err(RmqError::NotInCollationSet(id))
    } else {
        Ok(())
    }
}

/// The message behind an optional pointer.
pub open spec fn pointee(message: Option<Arc<RmqMessage>>) -> Option<RmqMessage> {
    match message {
        Some(message) => Some(*message),
        None => None,
    }
}

/// The state that a step of `process_one_deque_remp_message_status` leaves.
pub open spec fn receipt_leaves(pre: QueueState, event: ReceiptEvent) -> QueueState {
    match event {
        ReceiptEvent::Found { result, message } => requeue_leaves(
            pre,
            result.message_id,
            pointee(message),
            false,
        ),
        _ => pre,
    }
}

/// What `process_one_deque_remp_message_status` does next.
pub open spec fn receipt_next(
    info: RempCatchainInfo,
    pre: QueueState,
    event: ReceiptEvent,
) -> ReceiptStep {
    match event {
        ReceiptEvent::Called => ReceiptStep::PollReceipts { shard: info.shard },
        ReceiptEvent::Polled(None) => ReceiptStep::Return(Ok(None)),
        ReceiptEvent::Polled(Some(result)) => if is_collator_answer(result.status) {
            ReceiptStep::Updating {
                result,
                step: UpdateByIdStep::GetMessage {
                    message_id: result.message_id,
                    new_status: result.status,
                },
            }
        } else {
            ReceiptStep::Return(
                Err(
                    RmqError::UnexpectedStatus {
                        message_id: result.message_id,
                        status: result.status,
                    },
                ),
            )
        },
        ReceiptEvent::Updating { result, event } => match update_by_id_next(info, event) {
            UpdateByIdStep::Return(_) => if result.status is RempIgnored {
                ReceiptStep::GetMessage { result }
            } else {
                ReceiptStep::Return(Ok(Some(result.status)))
            },
            step => ReceiptStep::Updating { result, step },
        },
        ReceiptEvent::Found { result, message } => match requeue_result(
            pre,
            result.message_id,
            pointee(message),
            false,
        ) {
            Ok(_) => ReceiptStep::Return(Ok(Some(result.status))),
            Err(e) => ReceiptStep::Return(Err(e)),
        },
    }
}

impl CollationTally {
    /// The number of answers counted.
    pub open spec fn total(self) -> int {
        self.accepted + self.rejected + self.ignored
    }

    /// The tally with one more answer, or nothing if the answer is none of the collator's.
    pub open spec fn with(self, status: RempMessageStatus) -> Option<CollationTally> {
        match status {
            RempMessageStatus::RempAccepted(_) => Some(
                CollationTally { accepted: (self.accepted + 1) as u64, ..self },
            ),
            RempMessageStatus::RempRejected(_) => Some(
                CollationTally { rejected: (self.rejected + 1) as u64, ..self },
            ),
            RempMessageStatus::RempIgnored(_) => Some(
                CollationTally { ignored: (self.ignored + 1) as u64, ..self },
            ),
            _ => None,
        }
    }
}

/// What `process_collation_result` does next.
pub open spec fn result_next(event: ResultEvent) -> ResultStep {
    match event {
        ResultEvent::Called => ResultStep::ProcessOne {
            tally: CollationTally { accepted: 0, rejected: 0, ignored: 0 },
        },
        ResultEvent::Processed { tally, reply: Ok(Some(status)) } => match tally.with(status) {
            Some(tally) => ResultStep::ProcessOne { tally },
            None => ResultStep::Return(tally),
        },
        ResultEvent::Processed { tally, .. } => ResultStep::Return(tally),
    }
}

/// What `all_accepted_by_collator_to_ignored` does when it turns to the next message.
pub open spec fn downgrade_turns(
    rest: Seq<(UInt256, bool)>,
    downgrading: Seq<(UInt256, u32)>,
    step: DowngradeStep,
) -> bool {
    match step {
        DowngradeStep::ChangeToIgnored { message_id, waiting, rest: r, downgrading: d } => {
            &&& rest.len() > 0
            &&& (message_id, waiting) == rest.last()
            &&& r@ == rest.drop_last()
            &&& d@ == downgrading
        },
        DowngradeStep::Return(d) => rest.len() == 0 && d@ == downgrading,
    }
}

/// How `all_accepted_by_collator_to_ignored` goes from one step to the next.
pub open spec fn downgrade_goes(
    state: QueueState,
    event: DowngradeEvent,
    step: DowngradeStep,
) -> bool {
    match event {
        DowngradeEvent::Called => exists|entries: Seq<(UInt256, bool)>|
            {
                &&& ids_of(entries).no_duplicates()
                &&& #[trigger] marks_of(entries) == state.marks
                &&& downgrade_turns(entries, Seq::empty(), step)
            },
        DowngradeEvent::Changed { message_id, reply, rest, downgrading } => downgrade_turns(
            rest@,
            match reply {
                Some(timestamp) => downgrading@.push((message_id, timestamp)),
                None => downgrading@,
            },
            step,
        ),
    }
}

impl MessageQueue {
    fn collect_turning(&mut self, count: u64) -> (step: CollectStep)
        ensures
            final(self).info() == old(self).info(),
            collect_turns(old(self)@, count as int, final(self)@, step),
            old(self)@.consistent() ==> final(self)@.consistent(),
    {
        match self.queues_mut().take_first_for_collation() {
            Ok(Some((message_id, _))) => CollectStep::GetMessageWithStatus { message_id, count },
            Ok(None) => CollectStep::Return(Ok(count)),
            Err(e) => CollectStep::Return(Err(e)),
        }
    }

    /// Empties the collation queue before a collation: sends each message that can still be
    /// collated to the collator, and reports it as accepted by the queue.
    pub fn collect_messages_for_collation(&mut self, event: CollectEvent) -> (step: CollectStep)
        requires
            event matches CollectEvent::Updating { count, .. } ==> count < u64::MAX,
        ensures
            final(self).info() == old(self).info(),
            collect_goes(old(self).info(), old(self)@, event, final(self)@, step),
            old(self)@.consistent() ==> final(self)@.consistent(),
    {
        match event {
            CollectEvent::Called => self.collect_turning(0),
            CollectEvent::Found { message_id, count, found } => match found {
                None => self.collect_turning(count),
                Some((message, status)) => match status {
                    RempMessageStatus::RempNew
                    | RempMessageStatus::RempIgnored(_) => CollectStep::SendToCollator {
                        message_id,
                        body: message.message.clone(),
                        message,
                        count,
                    },
                    // The message is past collation.
                    _ => self.collect_turning(count),
                },
            },
            CollectEvent::Sent { message_id, message, count, reply } => match reply {
                // A failure inside the collator says nothing of the message: its status is left
                // as it is until the collation ends.
                Err(_) => self.collect_turning(count),
                Ok(_) => {
                    let new_status = RempMessageStatus::RempAccepted(
                        RempAccepted {
                            level: RempMessageLevel::RempQueue,
                            block_id: BlockIdExt::default(),
                            master_id: BlockIdExt::default(),
                        },
                    );
                    let step = self.update_status_send_response(
                        UpdateEvent::Called { message_id, message, new_status },
                    );
                    CollectStep::Updating { count, step }
                },
            },
            CollectEvent::Updating { count, event } => match self.update_status_send_response(
                event,
            ) {
                UpdateStep::Return => self.collect_turning(count + 1),
                step => CollectStep::Updating { count, step },
            },
        }
    }

    /// Puts a message into the collation queue of the current collator. `message` is the message as
    /// the message cache has it.
    ///
    /// Each queue has two stores: the collation set (all messages under collation) and the collation
    /// queue (all messages that wait for the collator). A message that is absent from the set is
    /// added there if `add_if_absent` says so, one that is absent from the queue is added there, and
    /// one that is present in the queue is skipped. If the message is absent from the message cache,
    /// an error is returned.
    pub fn add_to_collation_queue(
        &mut self,
        message_id: &UInt256,
        message: Option<Arc<RmqMessage>>,
        add_if_absent: bool,
    ) -> (result: Result<(), RmqError>)
        ensures
            final(self).info() == old(self).info(),
            final(self)@ == requeue_leaves(
                old(self)@,
                *message_id,
                pointee(message),
                add_if_absent,
            ),
            result == requeue_result(old(self)@, *message_id, pointee(message), add_if_absent),
            old(self)@.consistent() ==> final(self)@.consistent(),
    {
        match message {
            Some(message) => match self.queues_mut().add_to_collation_queue(
                message_id,
                message.timestamp,
                add_if_absent,
            ) {
                Ok(_) => Ok(()),
                Err(e) => Err(e),
            },
            None => Err(RmqError::NotInMessageCache(*message_id)),
        }
    }

    /// Processes one answer of the collator: the status that it gives is recorded and reported, and
    /// a message that it ignored returns to the collation queue. Gives the status if the answer was
    /// processed, and nothing if no answers remain.
    pub fn process_one_deque_remp_message_status(&mut self, event: ReceiptEvent) -> (step:
        ReceiptStep)
        ensures
            final(self).info() == old(self).info(),
            final(self)@ == receipt_leaves(old(self)@, event),
            step == receipt_next(old(self).info(), old(self)@, event),
            old(self)@.consistent() ==> final(self)@.consistent(),
    {
        match event {
            ReceiptEvent::Called => ReceiptStep::PollReceipts { shard: self.catchain_info().shard },
            ReceiptEvent::Polled(None) => ReceiptStep::Return(Ok(None)),
            ReceiptEvent::Polled(Some(result)) => {
                let expected = match &result.status {
                    RempMessageStatus::RempRejected(r) => r.level == RempMessageLevel::RempCollator,
                    RempMessageStatus::RempAccepted(a) => a.level == RempMessageLevel::RempCollator,
                    RempMessageStatus::RempIgnored(i) => i.level == RempMessageLevel::RempCollator,
                    _ => false,
                };
                if expected {
                    let step = self.update_status_send_response_by_id(
                        UpdateByIdEvent::Called {
                            message_id: result.message_id,
                            new_status: result.status.clone(),
                        },
                    );
                    ReceiptStep::Updating { result, step }
                } else {
                    ReceiptStep::Return(
                        Err(
                            RmqError::UnexpectedStatus {
                                message_id: result.message_id,
                                status: result.status,
                            },
                        ),
                    )
                }
            },
            ReceiptEvent::Updating { result, event } => match self.update_status_send_response_by_id(
                event,
            ) {
                UpdateByIdStep::Return(_) => match &result.status {
                    // All messages ignored by the collator itself are to be collated again.
                    RempMessageStatus::RempIgnored(_) => ReceiptStep::GetMessage { result },
                    _ => ReceiptStep::Return(Ok(Some(result.status))),
                },
                step => ReceiptStep::Updating { result, step },
            },
            ReceiptEvent::Found { result, message } => match self.add_to_collation_queue(
                &result.message_id,
                message,
                false,
            ) {
                Ok(_) => ReceiptStep::Return(Ok(Some(result.status))),
                Err(e) => ReceiptStep::Return(Err(e)),
            },
        }
    }

    /// Processes the answers of the collator after a collation, until none is left or one cannot be
    /// processed, and counts them.
    pub fn process_collation_result(event: ResultEvent) -> (step: ResultStep)
        requires
            event matches ResultEvent::Processed { tally, .. } ==> tally.total() < u64::MAX,
        ensures
            step == result_next(event),
    {
        match event {
            ResultEvent::Called => ResultStep::ProcessOne {
                tally: CollationTally { accepted: 0, rejected: 0, ignored: 0 },
            },
            ResultEvent::Processed { tally, reply } => match reply {
                Err(_) => ResultStep::Return(tally),
                Ok(None) => ResultStep::Return(tally),
                Ok(Some(RempMessageStatus::RempAccepted(_))) => ResultStep::ProcessOne {
                    tally: CollationTally { accepted: tally.accepted + 1, ..tally },
                },
                Ok(Some(RempMessageStatus::RempRejected(_))) => ResultStep::ProcessOne {
                    tally: CollationTally { rejected: tally.rejected + 1, ..tally },
                },
                Ok(Some(RempMessageStatus::RempIgnored(_))) => ResultStep::ProcessOne {
                    tally: CollationTally { ignored: tally.ignored + 1, ..tally },
                },
                Ok(Some(_)) => ResultStep::Return(tally),
            },
        }
    }

    fn downgrade_turning(
        mut rest: Vec<(UInt256, bool)>,
        downgrading: Vec<(UInt256, u32)>,
    ) -> (step: DowngradeStep)
        ensures
            downgrade_turns(rest@, downgrading@, step),
    {
        match rest.pop() {
            Some((message_id, waiting)) => DowngradeStep::ChangeToIgnored {
                message_id,
                waiting,
                rest,
                downgrading,
            },
            None => DowngradeStep::Return(downgrading),
        }
    }

    /// Changes every message under collation that the collator accepted, but that did not get into
    /// the shardchain, to ignored. Gives the messages that were changed, with their timestamps.
    pub fn all_accepted_by_collator_to_ignored(&self, event: DowngradeEvent) -> (step:
        DowngradeStep)
        ensures
            downgrade_goes(self@, event, step),
    {
        match event {
            DowngradeEvent::Called => MessageQueue::downgrade_turning(
                self.queues().list_with_marks(),
                Vec::new(),
            ),
            DowngradeEvent::Changed { message_id, reply, rest, mut downgrading } => {
                if let Some(timestamp) = reply {
                    downgrading.push((message_id, timestamp));
                }
                MessageQueue::downgrade_turning(rest, downgrading)
            },
        }
    }
}

} // verus!
