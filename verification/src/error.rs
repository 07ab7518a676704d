//! Why an operation on a queue failed.
use vstd::prelude::*;

use crate::ident::BlockIdExt;
use crate::ident::UInt256;
use crate::queue_impl::MessageQueueStatus;
use crate::status::RempMessageStatus;

verus! {

/// The operations of a queue manager that need a current queue.
#[derive(Clone, Copy, Debug, PartialEq, Eq, Hash, Structural)]
pub enum ManagerOperation {
    PutMessage,
    CollectMessages,
    ProcessCollationResult,
    /// Taking in this block of the shardchain.
    ApplyBlock(BlockIdExt),
}

/// An error of a queue or of a queue manager.
#[derive(Debug, PartialEq, Eq)]
pub enum RmqError {
    /// The queue has another status than the operation requires.
    WrongQueueStatus { actual: MessageQueueStatus, required: MessageQueueStatus },
    /// The queue is being stopped already.
    AlreadyStopping,
    /// The message cannot return to the collation queue: it is not in the collation set.
    NotInCollationSet(UInt256),
    /// The message was taken from the collation queue, but the collation set lacks it.
    TakenButNotInSet(UInt256),
    /// The message was taken from the collation queue, but was given to the collator before.
    AlreadyGivenToCollator(UInt256),
    /// The message cannot return to the collation queue: the message cache lacks it.
    NotInMessageCache(UInt256),
    /// The collator answered with a status that it may not give.
    UnexpectedStatus { message_id: UInt256, status: RempMessageStatus },
    /// The queue has no session to put messages to.
    NotStarted,
    /// The manager has no current queue.
    NoCurrentQueue(ManagerOperation),
    /// A service that the queue relies on failed, with this explanation.
    Service(String),
}

} // verus!
