//! The status of an external message on its way into a block.
use vstd::prelude::*;

use crate::ident::BlockIdExt;

verus! {

/// How far a message has come.
#[derive(Clone, Copy, Debug, PartialEq, Eq, Hash, Structural)]
pub enum RempMessageLevel {
    RempFullnode,
    RempQueue,
    RempCollator,
    RempShardchain,
    RempMasterchain,
}

/// A message that was accepted at some level.
#[derive(Clone, Copy, Debug, PartialEq, Eq, Hash, Structural)]
pub struct RempAccepted {
    pub level: RempMessageLevel,
    pub block_id: BlockIdExt,
    pub master_id: BlockIdExt,
}

/// A message that was rejected at some level.
#[derive(Debug, PartialEq, Eq, Hash)]
pub struct RempRejected {
    pub level: RempMessageLevel,
    pub block_id: BlockIdExt,
    pub error: String,
}

/// A message that was passed over at some level, and may be tried again.
#[derive(Clone, Copy, Debug, PartialEq, Eq, Hash, Structural)]
pub struct RempIgnored {
    pub level: RempMessageLevel,
    pub block_id: BlockIdExt,
}

/// A message that is in a block already.
#[derive(Clone, Copy, Debug, PartialEq, Eq, Hash, Structural)]
pub struct RempDuplicate {
    pub block_id: BlockIdExt,
}

/// A message that a full node has handed to validators.
#[derive(Clone, Copy, Debug, PartialEq, Eq, Hash, Structural)]
pub struct RempSentToValidators {
    pub sent_to: i32,
    pub total_validators: i32,
}

/// The status of a message.
#[derive(Debug, PartialEq, Eq, Hash)]
pub enum RempMessageStatus {
    RempNew,
    RempAccepted(RempAccepted),
    RempRejected(RempRejected),
    RempIgnored(RempIgnored),
    RempTimeout,
    RempDuplicate(RempDuplicate),
    RempSentToValidators(RempSentToValidators),
}

impl Clone for RempRejected {
    fn clone(&self) -> (copy: RempRejected)
        ensures
            copy == *self,
    {
        RempRejected { level: self.level, block_id: self.block_id, error: self.error.clone() }
    }
}

impl Clone for RempMessageStatus {
    fn clone(&self) -> (copy: RempMessageStatus)
        ensures
            copy == *self,
    {
        match self {
            RempMessageStatus::RempNew => RempMessageStatus::RempNew,
            RempMessageStatus::RempAccepted(a) => RempMessageStatus::RempAccepted(*a),
            RempMessageStatus::RempRejected(r) => RempMessageStatus::RempRejected(r.clone()),
            RempMessageStatus::RempIgnored(i) => RempMessageStatus::RempIgnored(*i),
            RempMessageStatus::RempTimeout => RempMessageStatus::RempTimeout,
            RempMessageStatus::RempDuplicate(d) => RempMessageStatus::RempDuplicate(*d),
            RempMessageStatus::RempSentToValidators(s) => RempMessageStatus::RempSentToValidators(
                *s,
            ),
        }
    }
}

impl RempMessageStatus {
    /// The fate of the message is settled: it is rejected, timed out, or accepted by the
    /// masterchain.
    pub open spec fn is_final(self) -> bool {
        match self {
            RempMessageStatus::RempRejected(_) => true,
            RempMessageStatus::RempTimeout => true,
            RempMessageStatus::RempAccepted(a) => a.level == RempMessageLevel::RempMasterchain,
            _ => false,
        }
    }

    /// The message has not been given to a collator, or was passed over: it can be collated.
    pub open spec fn can_be_collated(self) -> bool {
        self is RempNew || self is RempIgnored
    }

    /// The block that the status speaks of.
    pub open spec fn block(self) -> BlockIdExt {
        match self {
            RempMessageStatus::RempAccepted(a) => a.block_id,
            RempMessageStatus::RempRejected(r) => r.block_id,
            RempMessageStatus::RempIgnored(i) => i.block_id,
            RempMessageStatus::RempDuplicate(d) => d.block_id,
            _ => crate::ident::no_block(),
        }
    }
}

} // verus!
