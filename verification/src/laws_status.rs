//! What identifiers, session numbers and statuses mean.
use std::sync::Arc;
use vstd::prelude::*;

use crate::collation::is_collator_answer;
use crate::collation::sent_to_collator;
use crate::collation_order::Waiting;
use crate::ident::no_block;
use crate::ident::BlockIdExt;
use crate::ident::UInt256;
use crate::manager::in_shard_block;
use crate::message::seqno_from_field;
use crate::message::seqno_of_field;
use crate::message::seqno_to_field;
use crate::message::RmqMessage;
use crate::message_queue::response;
use crate::message_queue::source_idx_of;
use crate::message_queue::FullnodeResponse;
use crate::message_queue::MessageQueue;
use crate::message_queue::RempCatchainInfo;
use crate::status::RempMessageLevel;
use crate::status::RempMessageStatus;

verus! {

/// The number that an identifier stands for.
pub open spec fn number_of(id: UInt256) -> int {
    id.hi * 0x1_0000_0000_0000_0000_0000_0000_0000_0000 + id.lo
}

/// The number has the same 32 bits as the signed field of a record.
pub open spec fn same_bits(field: i32, number: int) -> bool {
    &&& 0 <= number < 0x1_0000_0000
    &&& number == field || number == field + 0x1_0000_0000
}

/// The message is given to the collator before the other: it is earlier, or of the same time and
/// greater.
pub open spec fn collated_before(one: Waiting, other: Waiting) -> bool {
    one.timestamp < other.timestamp || (one.timestamp == other.timestamp && number_of(
        one.message_id,
    ) > number_of(other.message_id))
}

/// The block stands for none: number and hashes are zero, in the shard that covers workchain zero.
pub open spec fn stands_for_none(block: BlockIdExt) -> bool {
    &&& block.shard_id.workchain_id == 0
    &&& block.shard_id.prefix == 0x8000_0000_0000_0000u64
    &&& block.seq_no == 0
    &&& number_of(block.root_hash) == 0
    &&& number_of(block.file_hash) == 0
}

/// The message is rejected, timed out, or accepted by the masterchain.
pub open spec fn is_settled(status: RempMessageStatus) -> bool {
    match status {
        RempMessageStatus::RempNew => false,
        RempMessageStatus::RempAccepted(a) => match a.level {
            RempMessageLevel::RempFullnode => false,
            RempMessageLevel::RempQueue => false,
            RempMessageLevel::RempCollator => false,
            RempMessageLevel::RempShardchain => false,
            RempMessageLevel::RempMasterchain => true,
        },
        RempMessageStatus::RempRejected(_) => true,
        RempMessageStatus::RempIgnored(_) => false,
        RempMessageStatus::RempTimeout => true,
        RempMessageStatus::RempDuplicate(_) => false,
        RempMessageStatus::RempSentToValidators(_) => false,
    }
}

/// The message is new, or was passed over at whatever level.
pub open spec fn is_open(status: RempMessageStatus) -> bool {
    match status {
        RempMessageStatus::RempNew => true,
        RempMessageStatus::RempAccepted(_) => false,
        RempMessageStatus::RempRejected(_) => false,
        RempMessageStatus::RempIgnored(_) => true,
        RempMessageStatus::RempTimeout => false,
        RempMessageStatus::RempDuplicate(_) => false,
        RempMessageStatus::RempSentToValidators(_) => false,
    }
}

/// The level that a status of an accepted, rejected or ignored message gives.
pub open spec fn level_of(status: RempMessageStatus) -> Option<RempMessageLevel> {
    match status {
        RempMessageStatus::RempNew => None,
        RempMessageStatus::RempAccepted(a) => Some(a.level),
        RempMessageStatus::RempRejected(r) => Some(r.level),
        RempMessageStatus::RempIgnored(i) => Some(i.level),
        RempMessageStatus::RempTimeout => None,
        RempMessageStatus::RempDuplicate(_) => None,
        RempMessageStatus::RempSentToValidators(_) => None,
    }
}

/// `block` is the block that the status names; where it names none, `block` stands for none.
pub open spec fn is_block_of(status: RempMessageStatus, block: BlockIdExt) -> bool {
    match status {
        RempMessageStatus::RempNew => stands_for_none(block),
        RempMessageStatus::RempAccepted(a) => block == a.block_id,
        RempMessageStatus::RempRejected(r) => block == r.block_id,
        RempMessageStatus::RempIgnored(i) => block == i.block_id,
        RempMessageStatus::RempTimeout => stands_for_none(block),
        RempMessageStatus::RempDuplicate(d) => block == d.block_id,
        RempMessageStatus::RempSentToValidators(_) => stands_for_none(block),
    }
}

/// Identifiers are ordered as the numbers that they stand for.
pub proof fn law_identifiers_are_numbers(one: UInt256, other: UInt256, smaller: bool)
    requires
        call_ensures(UInt256::is_below, (&one, &other), smaller),
    ensures
        smaller <==> number_of(one) < number_of(other),
        one.below(other) <==> number_of(one) < number_of(other),
        one == other <==> number_of(one) == number_of(other),
{
}

/// The earlier message is collated first, and among messages of one time the greater one.
pub proof fn law_collation_order(one: Waiting, other: Waiting, before: bool)
    requires
        call_ensures(Waiting::is_before, (&one, &other), before),
    ensures
        before <==> collated_before(one, other),
        one.precedes(other) <==> collated_before(one, other),
        one == other || collated_before(one, other) || collated_before(other, one),
{
}

/// A session number that is written to a record is read again as it was; a record's field holds the
/// same 32 bits, taken as a signed number.
pub proof fn law_session_numbers(seqno: u32, field: i32, read: u32)
    requires
        call_ensures(seqno_to_field, (seqno,), field),
        call_ensures(seqno_from_field, (field,), read),
    ensures
        read == seqno,
        seqno_of_field(field) == seqno,
        field == if seqno < 0x8000_0000 {
            seqno as int
        } else {
            seqno - 0x1_0000_0000
        },
{
}

/// A record's field is read as the number with the same 32 bits.
pub proof fn law_fields_are_read(field: i32, read: u32)
    requires
        call_ensures(seqno_from_field, (field,), read),
    ensures
        same_bits(field, read as int),
        seqno_of_field(field) == read,
{
}

/// The default block stands for none.
pub proof fn law_default_block_is_empty(block: BlockIdExt)
    requires
        call_ensures(BlockIdExt::default, (), block),
    ensures
        stands_for_none(block),
        block == no_block(),
{
}

/// A message that is put into a queue by another validator is otherwise the same.
pub proof fn law_only_the_source_is_updated(old: RmqMessage, source_idx: u32, updated: RmqMessage)
    requires
        call_ensures(RmqMessage::new_with_updated_source_idx, (&old, source_idx), updated),
    ensures
        updated.source_idx == source_idx,
        updated.message_id == old.message_id,
        updated.timestamp == old.timestamp,
        updated.message == old.message,
{
}

/// A status is final exactly if the message is rejected, timed out, or accepted by the masterchain:
/// accepted at any other level, it is not.
pub proof fn law_final_statuses(status: RempMessageStatus, settled: bool)
    requires
        call_ensures(MessageQueue::is_final_status, (&status,), settled),
    ensures
        settled <==> is_settled(status),
        status.is_final() <==> is_settled(status),
{
}

/// A message can be collated exactly if it is new, or was passed over at whatever level.
pub proof fn law_open_statuses(status: RempMessageStatus)
    ensures
        status.can_be_collated() <==> is_open(status),
{
}

/// An answer is the collator's exactly if it says accepted, rejected or ignored, at the level of the
/// collator.
pub proof fn law_collator_answers(status: RempMessageStatus)
    ensures
        is_collator_answer(status) <==> level_of(status) == Some(RempMessageLevel::RempCollator),
{
}

/// The block of a status is the one that the status names; a status that names none gives the block
/// that stands for none.
pub proof fn law_blocks_of_statuses(status: RempMessageStatus, block: BlockIdExt)
    requires
        call_ensures(MessageQueue::get_status_blockid, (&status,), block),
    ensures
        is_block_of(status, block),
        status.block() == block,
{
}

/// The status is that of a message accepted at the level, in the block, and in no masterchain block.
pub open spec fn is_accepted_at(
    status: RempMessageStatus,
    level: RempMessageLevel,
    block: BlockIdExt,
) -> bool {
    &&& status matches RempMessageStatus::RempAccepted(a)
    &&& a.level == level
    &&& a.block_id == block
    &&& stands_for_none(a.master_id)
}

/// A message that was sent to the collator is accepted by the queue, in no block; one in a block of
/// the shardchain is accepted by the shardchain, in that block.
pub proof fn law_accepted_statuses(block: BlockIdExt)
    ensures
        is_accepted_at(sent_to_collator(), RempMessageLevel::RempQueue, no_block()),
        is_accepted_at(in_shard_block(block), RempMessageLevel::RempShardchain, block),
        stands_for_none(no_block()),
{
}

/// The answer is given in this validator's name, and tells of the message that it has the status.
pub open spec fn tells(
    answer: FullnodeResponse,
    info: RempCatchainInfo,
    message: Arc<RmqMessage>,
    status: RempMessageStatus,
) -> bool {
    &&& answer.local_key_id == info.local_key_id
    &&& answer.message == message
    &&& answer.status == status
}

/// A full node is told the status of the very message, in this validator's name.
pub proof fn law_responses_tell_the_status(
    queue: MessageQueue,
    message: Arc<RmqMessage>,
    status: RempMessageStatus,
    answer: FullnodeResponse,
)
    requires
        call_ensures(MessageQueue::send_response_to_fullnode, (&queue, message, status), answer),
    ensures
        tells(answer, queue.info(), message, status),
        tells(response(queue.info(), message, status), queue.info(), message, status),
{
}

/// The index that messages carry is congruent to this validator's index, and has 32 bits.
pub proof fn law_source_index(info: RempCatchainInfo)
    ensures
        0 <= source_idx_of(info) < 0x1_0000_0000,
        (info.local_idx - source_idx_of(info)) % 0x1_0000_0000 == 0,
{
}

} // verus!
