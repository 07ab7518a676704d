//! Messages and the records in which validators exchange them.
use std::sync::Arc;
use vstd::prelude::*;

use crate::ident::UInt256;

verus! {

/// The serialised body of an external message.
#[derive(Debug, PartialEq, Eq, Hash)]
pub struct Message {
    pub body: Vec<u8>,
}

/// An external message as the queues handle it.
#[derive(Debug, PartialEq, Eq, Hash)]
pub struct RmqMessage {
    pub message_id: UInt256,
    pub timestamp: u32,
    /// The index of the validator that put the message into the queue.
    pub source_idx: u32,
    pub message: Arc<Message>,
}

impl RmqMessage {
    /// The same message, put into the queue by the validator `source_idx`.
    pub fn new_with_updated_source_idx(&self, source_idx: u32) -> (updated: RmqMessage)
        ensures
            updated == (RmqMessage { source_idx, ..*self }),
    {
        RmqMessage {
            message_id: self.message_id,
            timestamp: self.timestamp,
            source_idx,
            message: self.message.clone(),
        }
    }
}

/// The messages of one masterchain session that were rejected.
#[derive(Debug, PartialEq, Eq, Hash)]
pub struct RmqMessageDigest {
    pub masterchain_seqno: i32,
    pub messages: Vec<UInt256>,
}

/// A record received from the other validators. The message of a message record may have been
/// unreadable.
#[derive(Debug, PartialEq, Eq)]
pub enum ReceivedRecord {
    RmqMessage { message: Result<Arc<RmqMessage>, String>, masterchain_seqno: i32 },
    RmqMessageDigest(RmqMessageDigest),
}

/// The session number that a record's signed field stands for: the same bits, read as unsigned.
pub open spec fn seqno_of_field(field: i32) -> int {
    if field >= 0 {
        field as int
    } else {
        field + 0x1_0000_0000
    }
}

/// Reads a record's session number.
pub fn seqno_from_field(field: i32) -> (seqno: u32)
    ensures
        seqno == seqno_of_field(field),
{
    assert(field >= 0 ==> field as u32 == field) by (bit_vector);
    assert(field < 0 ==> field as u32 == field + 0x1_0000_0000) by (bit_vector);
    field as u32
}

/// Writes a session number into a record.
pub fn seqno_to_field(seqno: u32) -> (field: i32)
    ensures
        seqno_of_field(field) == seqno,
{
    assert(seqno < 0x8000_0000 ==> seqno as i32 == seqno) by (bit_vector);
    assert(seqno >= 0x8000_0000 ==> seqno as i32 == seqno - 0x1_0000_0000) by (bit_vector);
    seqno as i32
}

} // verus!
