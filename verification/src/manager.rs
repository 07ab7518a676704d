//! The queues of one shard: the current one, and those of the sessions that come next.
//!
//! A manager holds its queues behind shared pointers to a type `Q` of the caller's choice, which
//! guards a `MessageQueue`. Operations that wait are written as steps, as those of a queue are.
use std::sync::Arc;
use vstd::prelude::*;

use crate::error::ManagerOperation;
use crate::error::RmqError;
use crate::ident::no_block;
use crate::ident::BlockIdExt;
use crate::ident::ShardIdent;
use crate::ident::UInt256;
use crate::message::RmqMessage;
use crate::response::StatusUpdater;
use crate::status::RempAccepted;
use crate::status::RempMessageLevel;
use crate::status::RempMessageStatus;

verus! {

/// The state of a manager.
#[verifier::reject_recursive_types(Q)]
#[verifier::ext_equal]
pub struct ManagerState<Q> {
    /// Whether reliable delivery is switched on.
    pub enabled: bool,
    pub shard: ShardIdent,
    pub cur: Option<Arc<Q>>,
    pub nexts: Seq<Arc<Q>>,
}

impl<Q> ManagerState<Q> {
    /// The state of a manager that has just been made.
    pub open spec fn fresh(enabled: bool, shard: ShardIdent) -> ManagerState<Q> {
        ManagerState { enabled, shard, cur: None, nexts: Seq::empty() }
    }
}

/// Controls message queues: the actual one and the next ones.
pub struct RmqQueueManager<Q> {
    service_enabled: bool,
    shard: ShardIdent,
    cur_queue: Option<Arc<Q>>,
    next_queues: Vec<Arc<Q>>,
}

impl<Q> View for RmqQueueManager<Q> {
    type V = ManagerState<Q>;

    closed spec fn view(&self) -> ManagerState<Q> {
        ManagerState {
            enabled: self.service_enabled,
            shard: self.shard,
            cur: self.cur_queue,
            nexts: self.next_queues@,
        }
    }
}

/// What became of a queue that was to be added.
#[derive(Clone, Copy, Debug, PartialEq, Eq, Hash, Structural)]
pub enum AddQueueOutcome {
    Added,
    /// There is a queue for the same catchain.
    AlreadyThere,
    /// The queue could not be created.
    NotCreated,
    /// The manager has no current queue.
    NoCurrentQueue,
    /// Reliable delivery is switched off.
    Disabled,
}

/// What `stop` is told.
#[derive(Clone, Copy, Debug, PartialEq, Eq, Hash, Structural)]
pub enum StopAllEvent {
    Called,
    /// Stopping the queue was attempted.
    Stopped,
}

/// What `stop` asks for.
pub enum StopAllStep<Q> {
    /// Stop the queue, whatever comes of it.
    StopQueue(Arc<Q>),
    Return,
}

/// What `process_messages_from_accepted_shardblock` is told.
pub enum ShardBlockEvent<Q> {
    Called { block_id: BlockIdExt },
    /// The messages of the block were processed, or could not be.
    BlockProcessed { queue: Arc<Q>, outcome: Result<(), String> },
    /// The messages that the collator accepted and the shardchain lacks were changed to ignored.
    Downgraded { queue: Arc<Q>, returned: Vec<(UInt256, u32)> },
    /// A message was offered to the collation queue, or refused.
    Requeued {
        queue: Arc<Q>,
        returned: Vec<(UInt256, u32)>,
        done: usize,
        reply: Result<(), RmqError>,
    },
}

/// What `process_messages_from_accepted_shardblock` asks for.
pub enum ShardBlockStep<Q> {
    /// Let `updater` process each message of the block.
    ProcessBlock { queue: Arc<Q>, block_id: BlockIdExt, updater: StatusUpdater },
    /// Change what the collator of the queue accepted to ignored.
    Downgrade { queue: Arc<Q> },
    /// Return the message to the collation queue; it is in the collation set.
    Requeue {
        message_id: UInt256,
        add_if_absent: bool,
        queue: Arc<Q>,
        returned: Vec<(UInt256, u32)>,
        done: usize,
    },
    Return(Result<(), RmqError>),
}

/// What `poll` is told.
pub enum PollAllEvent<Q> {
    Called,
    /// It was determined whether the session of the queue is active.
    SessionChecked { queue: Arc<Q>, active: bool },
    /// The queue was polled, whatever came of it.
    QueuePolled,
    /// The next message from a full node, if there is one.
    Incoming { count: u64, incoming: Option<Arc<RmqMessage>> },
    /// The message was put into the current queue, or could not be.
    Put { count: u64, message: Arc<RmqMessage>, reply: Result<(), RmqError> },
    /// The message is again where it came from.
    Returned { count: u64 },
}

/// What `poll` asks for. `count` messages have been put into the queue.
pub enum PollAllStep<Q> {
    CheckSession { queue: Arc<Q> },
    PollQueue { queue: Arc<Q> },
    /// Get the next message that full nodes sent for the shard.
    PollIncoming { shard: ShardIdent, count: u64 },
    /// Put the message into the current queue.
    Put { message: Arc<RmqMessage>, count: u64 },
    /// Put the message back to those from full nodes.
    ReturnToIncoming { message: Arc<RmqMessage>, shard: ShardIdent, count: u64 },
    /// The number of messages that were put into the queue, if there is a current queue.
    Return(Option<u64>),
}

/// Whose messages `print_messages` shows.
pub enum PrintStep<Q> {
    /// Those of the current queue.
    Print(Arc<Q>),
    /// There is no current queue.
    Nothing,
    /// Reliable delivery is switched off.
    Disabled,
}

/// The queue that an operation of the manager goes to.
pub open spec fn current<Q>(state: ManagerState<Q>, operation: ManagerOperation) -> Result<
    Arc<Q>,
    RmqError,
> {
    match state.cur {
        Some(queue) => Ok(queue),
        None => Err(RmqError::NoCurrentQueue(operation)),
    }
}

/// The state after the current queue was to be set.
pub open spec fn after_set_queues<Q>(
    state: ManagerState<Q>,
    created: Result<Arc<Q>, RmqError>,
) -> ManagerState<Q> {
    if !state.enabled {
        state
    } else {
        ManagerState {
            cur: match created {
                Ok(queue) => Some(queue),
                Err(_) => None,
            },
            ..state
        }
    }
}

/// What becomes of a queue that is to be added, where `same` tells for each next queue whether it
/// has the same catchain.
pub open spec fn add_queue_outcome<Q>(
    state: ManagerState<Q>,
    created: Result<Arc<Q>, RmqError>,
    same: Seq<bool>,
) -> AddQueueOutcome {
    if !state.enabled {
        AddQueueOutcome::Disabled
    } else if state.cur is None {
        AddQueueOutcome::NoCurrentQueue
    } else if created is Err {
        AddQueueOutcome::NotCreated
    } else if same.contains(true) {
        AddQueueOutcome::AlreadyThere
    } else {
        AddQueueOutcome::Added
    }
}

/// The state after a queue was to be added.
pub open spec fn after_add_queue<Q>(
    state: ManagerState<Q>,
    created: Result<Arc<Q>, RmqError>,
    same: Seq<bool>,
) -> ManagerState<Q> {
    if add_queue_outcome(state, created, same) == AddQueueOutcome::Added {
        ManagerState { nexts: state.nexts.push(created->Ok_0), ..state }
    } else {
        state
    }
}

/// How `stop` goes from one step to the next: the current queue first, then the next queues from
/// the last to the first.
pub open spec fn stop_all_goes<Q>(
    pre: ManagerState<Q>,
    event: StopAllEvent,
    post: ManagerState<Q>,
    step: StopAllStep<Q>,
) -> bool {
    if event is Called && pre.cur is Some {
        &&& post == pre
        &&& step == StopAllStep::StopQueue(pre.cur->0)
    } else if pre.nexts.len() > 0 {
        &&& post == (ManagerState { nexts: pre.nexts.drop_last(), ..pre })
        &&& step == StopAllStep::StopQueue(pre.nexts.last())
    } else {
        &&& post == pre
        &&& step == StopAllStep::<Q>::Return
    }
}

/// The status of a message in a block of the shardchain.
pub open spec fn in_shard_block(block_id: BlockIdExt) -> RempMessageStatus {
    RempMessageStatus::RempAccepted(
        RempAccepted {
            level: RempMessageLevel::RempShardchain,
            block_id,
            master_id: no_block(),
        },
    )
}

/// The manager returns messages to the collation queue, of which `done` are through.
pub open spec fn requeues<Q>(
    queue: Arc<Q>,
    returned: Vec<(UInt256, u32)>,
    done: usize,
) -> ShardBlockStep<Q> {
    if done < returned.len() {
        ShardBlockStep::Requeue {
            message_id: returned[done as int].0,
            add_if_absent: false,
            queue,
            returned,
            done: (done + 1) as usize,
        }
    } else {
        ShardBlockStep::Return(Ok(()))
    }
}

/// What `process_messages_from_accepted_shardblock` does next.
pub open spec fn shard_block_next<Q>(
    state: ManagerState<Q>,
    event: ShardBlockEvent<Q>,
) -> ShardBlockStep<Q> {
    match event {
        ShardBlockEvent::Called { block_id } => match current(
            state,
            ManagerOperation::ApplyBlock(block_id),
        ) {
            Ok(queue) => ShardBlockStep::ProcessBlock {
                queue,
                block_id,
                updater: StatusUpdater { new_status: in_shard_block(block_id) },
            },
            Err(e) => ShardBlockStep::Return(Err(e)),
        },
        ShardBlockEvent::BlockProcessed { queue, outcome: Ok(_) } => ShardBlockStep::Downgrade {
            queue,
        },
        ShardBlockEvent::BlockProcessed { queue, outcome: Err(e) } => ShardBlockStep::Return(
            Err(RmqError::Service(e)),
        ),
        ShardBlockEvent::Downgraded { queue, returned } => requeues(queue, returned, 0),
        ShardBlockEvent::Requeued { queue, returned, done, reply: Ok(_) } => requeues(
            queue,
            returned,
            done,
        ),
        ShardBlockEvent::Requeued { reply: Err(e), .. } => ShardBlockStep::Return(Err(e)),
    }
}

/// What `poll` does next.
pub open spec fn poll_all_next<Q>(state: ManagerState<Q>, event: PollAllEvent<Q>) -> PollAllStep<
    Q,
> {
    match event {
        PollAllEvent::Called => match state.cur {
            Some(queue) => PollAllStep::CheckSession { queue },
            None => PollAllStep::Return(None),
        },
        PollAllEvent::SessionChecked { queue, active } => if active {
            PollAllStep::PollQueue { queue }
        } else {
            PollAllStep::PollIncoming { shard: state.shard, count: 0 }
        },
        PollAllEvent::QueuePolled => PollAllStep::PollIncoming { shard: state.shard, count: 0 },
        PollAllEvent::Incoming { count, incoming: Some(message) } => PollAllStep::Put {
            message,
            count,
        },
        PollAllEvent::Incoming { count, incoming: None } => PollAllStep::Return(Some(count)),
        PollAllEvent::Put { count, message, reply: Ok(_) } => PollAllStep::PollIncoming {
            shard: state.shard,
            count: (count + 1) as u64,
        },
        PollAllEvent::Put { count, message, reply: Err(_) } => PollAllStep::ReturnToIncoming {
            message,
            shard: state.shard,
            count,
        },
        PollAllEvent::Returned { count } => PollAllStep::Return(Some(count)),
    }
}

fn holds_somewhere(flags: &Vec<bool>) -> (holds: bool)
    ensures
        holds == flags@.contains(true),
{
    let mut i: usize = 0;
    while i < flags.len()
        invariant
            i <= flags.len(),
            forall|j: int| 0 <= j < i ==> !flags@[j],
        decreases flags.len() - i,
    {
        if flags[i] {
            return true;
        }
        i = i + 1;
    }
    false
}

impl<Q> RmqQueueManager<Q> {
    /// A manager without queues.
    pub fn new(service_enabled: bool, shard: ShardIdent) -> (manager: RmqQueueManager<Q>)
        ensures
            manager@ == ManagerState::<Q>::fresh(service_enabled, shard),
    {
        RmqQueueManager { service_enabled, shard, cur_queue: None, next_queues: Vec::new() }
    }

    /// Whether reliable delivery is switched on.
    pub fn is_service_enabled(&self) -> (enabled: bool)
        ensures
            enabled == self@.enabled,
    {
        self.service_enabled
    }

    /// Makes the queue that was created the current one, if reliable delivery is switched on. If the
    /// queue could not be created, there is no current queue afterwards.
    pub fn set_queues(&mut self, created: Result<Arc<Q>, RmqError>)
        ensures
            final(self)@ == after_set_queues(old(self)@, created),
    {
        if self.service_enabled {
            self.cur_queue = match created {
                Ok(queue) => Some(queue),
                Err(_) => None,
            };
        }
    }

    /// The next queues, as they are now.
    pub fn next_queues(&self) -> (queues: Vec<Arc<Q>>)
        ensures
            queues@ == self@.nexts,
    {
        let mut queues: Vec<Arc<Q>> = Vec::new();
        let mut i: usize = 0;
        while i < self.next_queues.len()
            invariant
                i <= self.next_queues.len(),
                queues@ == self.next_queues@.take(i as int),
            decreases self.next_queues.len() - i,
        {
            queues.push(self.next_queues[i].clone());
            i = i + 1;
        }
        assert(queues@ =~= self.next_queues@);
        queues
    }

    /// Adds a next queue, unless there is one for the same catchain: `same` tells for each next
    /// queue whether it is.
    pub fn add_new_queue(&mut self, created: Result<Arc<Q>, RmqError>, same: &Vec<bool>) -> (outcome:
        AddQueueOutcome)
        ensures
            outcome == add_queue_outcome(old(self)@, created, same@),
            final(self)@ == after_add_queue(old(self)@, created, same@),
    {
        if !self.service_enabled {
            return AddQueueOutcome::Disabled;
        }
        if self.cur_queue.is_none() {
            return AddQueueOutcome::NoCurrentQueue;
        }
        match created {
            Err(_) => AddQueueOutcome::NotCreated,
            Ok(queue) => if holds_somewhere(same) {
                AddQueueOutcome::AlreadyThere
            } else {
                self.next_queues.push(queue);
                AddQueueOutcome::Added
            },
        }
    }

    fn current_for(&self, operation: ManagerOperation) -> (result: Result<Arc<Q>, RmqError>)
        ensures
            result == current(self@, operation),
    {
        match &self.cur_queue {
            Some(queue) => Ok(queue.clone()),
            None => Err(RmqError::NoCurrentQueue(operation)),
        }
    }

    /// The current queue, if there is one.
    pub fn cur_queue(&self) -> (queue: Option<Arc<Q>>)
        ensures
            queue == self@.cur,
    {
        match &self.cur_queue {
            Some(queue) => Some(queue.clone()),
            None => None,
        }
    }

    /// The queue to start: the current one, if there is one.
    pub fn start(&self) -> (queue: Option<Arc<Q>>)
        ensures
            queue == self@.cur,
    {
        self.cur_queue()
    }

    /// Stops all queues. The next queues leave the manager.
    pub fn stop(&mut self, event: StopAllEvent) -> (step: StopAllStep<Q>)
        ensures
            stop_all_goes(old(self)@, event, final(self)@, step),
    {
        match event {
            StopAllEvent::Called => {
                if let Some(queue) = &self.cur_queue {
                    return StopAllStep::StopQueue(queue.clone());
                }
            },
            StopAllEvent::Stopped => {},
        }
        match self.next_queues.pop() {
            Some(queue) => StopAllStep::StopQueue(queue),
            None => StopAllStep::Return,
        }
    }

    /// The queue that a message is put into.
    pub fn put_message_to_rmq(&self) -> (result: Result<Arc<Q>, RmqError>)
        ensures
            result == current(self@, ManagerOperation::PutMessage),
    {
        self.current_for(ManagerOperation::PutMessage)
    }

    /// The queue whose messages are collected for collation.
    pub fn collect_messages_for_collation(&self) -> (result: Result<Arc<Q>, RmqError>)
        ensures
            result == current(self@, ManagerOperation::CollectMessages),
    {
        self.current_for(ManagerOperation::CollectMessages)
    }

    /// The queue that processes the result of a collation.
    pub fn process_collation_result(&self) -> (result: Result<Arc<Q>, RmqError>)
        ensures
            result == current(self@, ManagerOperation::ProcessCollationResult),
    {
        self.current_for(ManagerOperation::ProcessCollationResult)
    }

    fn requeuing(queue: Arc<Q>, returned: Vec<(UInt256, u32)>, done: usize) -> (step:
        ShardBlockStep<Q>)
        ensures
            step == requeues(queue, returned, done),
    {
        if done < returned.len() {
            ShardBlockStep::Requeue {
                message_id: returned[done].0,
                add_if_absent: false,
                queue,
                returned,
                done: done + 1,
            }
        } else {
            ShardBlockStep::Return(Ok(()))
        }
    }

    /// Takes in a block that the shardchain accepted: its messages are accepted by the shardchain,
    /// and those that the collator accepted but the block lacks are collated again.
    pub fn process_messages_from_accepted_shardblock(&self, event: ShardBlockEvent<Q>) -> (step:
        ShardBlockStep<Q>)
        ensures
            step == shard_block_next(self@, event),
    {
        match event {
            ShardBlockEvent::Called { block_id } => match self.current_for(
                ManagerOperation::ApplyBlock(block_id),
            ) {
                Ok(queue) => {
                    let new_status = RempMessageStatus::RempAccepted(
                        RempAccepted {
                            level: RempMessageLevel::RempShardchain,
                            block_id,
                            master_id: BlockIdExt::default(),
                        },
                    );
                    ShardBlockStep::ProcessBlock {
                        queue,
                        block_id,
                        updater: StatusUpdater { new_status },
                    }
                },
                Err(e) => ShardBlockStep::Return(Err(e)),
            },
            ShardBlockEvent::BlockProcessed { queue, outcome } => match outcome {
                Ok(_) => ShardBlockStep::Downgrade { queue },
                Err(e) => ShardBlockStep::Return(Err(RmqError::Service(e))),
            },
            ShardBlockEvent::Downgraded { queue, returned } => Self::requeuing(queue, returned, 0),
            ShardBlockEvent::Requeued { queue, returned, done, reply } => match reply {
                Ok(_) => Self::requeuing(queue, returned, done),
                Err(e) => ShardBlockStep::Return(Err(e)),
            },
        }
    }

    /// Polls the current queue if its session is active, and puts the messages that full nodes sent
    /// into the queue, until none is left or one cannot be put.
    pub fn poll(&self, event: PollAllEvent<Q>) -> (step: PollAllStep<Q>)
        requires
            event matches PollAllEvent::Put { count, .. } ==> count < u64::MAX,
        ensures
            step == poll_all_next(self@, event),
    {
        match event {
            PollAllEvent::Called => match self.cur_queue() {
                Some(queue) => PollAllStep::CheckSession { queue },
                None => PollAllStep::Return(None),
            },
            PollAllEvent::SessionChecked { queue, active } => if active {
                PollAllStep::PollQueue { queue }
            } else {
                PollAllStep::PollIncoming { shard: self.shard, count: 0 }
            },
            PollAllEvent::QueuePolled => PollAllStep::PollIncoming { shard: self.shard, count: 0 },
            PollAllEvent::Incoming { count, incoming } => match incoming {
                Some(message) => PollAllStep::Put { message, count },
                None => PollAllStep::Return(Some(count)),
            },
            PollAllEvent::Put { count, message, reply } => match reply {
                Ok(_) => PollAllStep::PollIncoming { shard: self.shard, count: count + 1 },
                Err(_) => PollAllStep::ReturnToIncoming { message, shard: self.shard, count },
            },
            PollAllEvent::Returned { count } => PollAllStep::Return(Some(count)),
        }
    }

    /// Whose messages are to be shown.
    pub fn print_messages(&self) -> (step: PrintStep<Q>)
        ensures
            step == if !self@.enabled {
                PrintStep::Disabled
            } else {
                match self@.cur {
                    Some(queue) => PrintStep::Print(queue),
                    None => PrintStep::Nothing,
                }
            },
    {
        if self.service_enabled {
            match self.cur_queue() {
                Some(queue) => PrintStep::Print(queue),
                None => PrintStep::Nothing,
            }
        } else {
            PrintStep::Disabled
        }
    }
}

} // verus!
