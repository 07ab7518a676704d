use std::sync::Arc;

use reliable_message_queue::collation::{
    CollationTally, CollatorResult, CollectEvent, CollectStep, DowngradeEvent, DowngradeStep,
    ReceiptEvent, ReceiptStep, ResultEvent, ResultStep,
};
use reliable_message_queue::error::RmqError;
use reliable_message_queue::ident::{BlockIdExt, ShardIdent, UInt256, SHARD_FULL};
use reliable_message_queue::message::{Message, RmqMessage};
use reliable_message_queue::message_queue::{FullnodeResponse, MessageQueue, RempCatchainInfo};
use reliable_message_queue::response::{
    StatusUpdater, UpdateByIdEvent, UpdateByIdStep, UpdateEvent, UpdateStep,
};
use reliable_message_queue::status::{
    RempAccepted, RempDuplicate, RempIgnored, RempMessageLevel, RempMessageStatus, RempRejected,
    RempSentToValidators,
};

fn id(n: u128) -> UInt256 {
    UInt256 { hi: 0, lo: n }
}

fn shard() -> ShardIdent {
    ShardIdent { workchain_id: 0, prefix: SHARD_FULL }
}

fn block(n: u32) -> BlockIdExt {
    BlockIdExt { shard_id: shard(), seq_no: n, root_hash: id(1), file_hash: id(2) }
}

fn new_queue() -> MessageQueue {
    MessageQueue::create(Ok(RempCatchainInfo {
        local_idx: 3,
        local_key_id: id(70),
        queue_id: id(80),
        shard: shard(),
        master_cc_seqno: 10,
    }))
    .ok()
    .unwrap()
}

fn message(n: u128, timestamp: u32) -> Arc<RmqMessage> {
    Arc::new(RmqMessage {
        message_id: id(n),
        timestamp,
        source_idx: 9,
        message: Arc::new(Message { body: vec![n as u8] }),
    })
}

fn accepted(level: RempMessageLevel) -> RempMessageStatus {
    RempMessageStatus::RempAccepted(RempAccepted { level, block_id: block(4), master_id: block(5) })
}

fn rejected(level: RempMessageLevel) -> RempMessageStatus {
    RempMessageStatus::RempRejected(RempRejected {
        level,
        block_id: block(6),
        error: "bad".to_string(),
    })
}

fn ignored(level: RempMessageLevel) -> RempMessageStatus {
    RempMessageStatus::RempIgnored(RempIgnored { level, block_id: block(7) })
}

fn told(message: &Arc<RmqMessage>, status: RempMessageStatus) -> FullnodeResponse {
    FullnodeResponse { local_key_id: id(70), message: message.clone(), status }
}

fn accepted_by_queue() -> RempMessageStatus {
    RempMessageStatus::RempAccepted(RempAccepted {
        level: RempMessageLevel::RempQueue,
        block_id: BlockIdExt::default(),
        master_id: BlockIdExt::default(),
    })
}

#[test]
fn default_block_is_an_empty_one_of_the_full_shard() {
    assert_eq!(
        BlockIdExt::default(),
        BlockIdExt {
            shard_id: ShardIdent { workchain_id: 0, prefix: 0x8000_0000_0000_0000 },
            seq_no: 0,
            root_hash: id(0),
            file_hash: id(0),
        }
    );
}

#[test]
fn status_is_updated_and_the_answer_reported() {
    let queue = new_queue();
    let m = message(1, 5);
    assert_eq!(
        queue.update_status_send_response(UpdateEvent::Called {
            message_id: id(1),
            message: m.clone(),
            new_status: RempMessageStatus::RempNew,
        }),
        UpdateStep::UpdateStatus {
            message_id: id(1),
            message: m.clone(),
            new_status: RempMessageStatus::RempNew,
        }
    );
    assert_eq!(
        queue.update_status_send_response(UpdateEvent::Updated {
            message: m.clone(),
            reply: Ok(Some(RempMessageStatus::RempTimeout)),
        }),
        UpdateStep::Respond(told(&m, RempMessageStatus::RempTimeout))
    );
    assert_eq!(
        queue.update_status_send_response(UpdateEvent::Updated { message: m.clone(), reply: Ok(None) }),
        UpdateStep::Return
    );
    assert_eq!(
        queue.update_status_send_response(UpdateEvent::Updated {
            message: m.clone(),
            reply: Err("no".to_string()),
        }),
        UpdateStep::Return
    );
    assert_eq!(queue.update_status_send_response(UpdateEvent::Responded), UpdateStep::Return);
    assert_eq!(
        queue.send_response_to_fullnode(m.clone(), RempMessageStatus::RempNew),
        told(&m, RempMessageStatus::RempNew)
    );
}

#[test]
fn update_by_id_seeks_the_message() {
    let queue = new_queue();
    let m = message(1, 5);
    let status = accepted(RempMessageLevel::RempCollator);
    assert_eq!(
        queue.update_status_send_response_by_id(UpdateByIdEvent::Called {
            message_id: id(1),
            new_status: status.clone(),
        }),
        UpdateByIdStep::GetMessage { message_id: id(1), new_status: status.clone() }
    );
    assert_eq!(
        queue.update_status_send_response_by_id(UpdateByIdEvent::Found {
            message_id: id(1),
            new_status: status.clone(),
            found: Some(m.clone()),
        }),
        UpdateByIdStep::Updating {
            message: m.clone(),
            step: UpdateStep::UpdateStatus {
                message_id: id(1),
                message: m.clone(),
                new_status: status.clone(),
            },
        }
    );
    assert_eq!(
        queue.update_status_send_response_by_id(UpdateByIdEvent::Updating {
            message: m.clone(),
            event: UpdateEvent::Updated { message: m.clone(), reply: Ok(Some(status.clone())) },
        }),
        UpdateByIdStep::Updating {
            message: m.clone(),
            step: UpdateStep::Respond(told(&m, status.clone())),
        }
    );
    assert_eq!(
        queue.update_status_send_response_by_id(UpdateByIdEvent::Updating {
            message: m.clone(),
            event: UpdateEvent::Responded,
        }),
        UpdateByIdStep::Return(Some(m))
    );
    assert_eq!(
        queue.update_status_send_response_by_id(UpdateByIdEvent::Found {
            message_id: id(1),
            new_status: status,
            found: None,
        }),
        UpdateByIdStep::Return(None)
    );
}

#[test]
fn block_messages_are_updated_by_id() {
    let updater = StatusUpdater { new_status: accepted(RempMessageLevel::RempShardchain) };
    match updater.process_message(&id(12)) {
        UpdateByIdEvent::Called { message_id, new_status } => {
            assert_eq!(message_id, id(12));
            assert_eq!(new_status, accepted(RempMessageLevel::RempShardchain));
        }
        _ => panic!("an update begins with its call"),
    }
}

#[test]
fn final_statuses() {
    assert!(MessageQueue::is_final_status(&rejected(RempMessageLevel::RempFullnode)));
    assert!(MessageQueue::is_final_status(&RempMessageStatus::RempTimeout));
    assert!(MessageQueue::is_final_status(&accepted(RempMessageLevel::RempMasterchain)));
    assert!(!MessageQueue::is_final_status(&accepted(RempMessageLevel::RempShardchain)));
    assert!(!MessageQueue::is_final_status(&ignored(RempMessageLevel::RempMasterchain)));
    assert!(!MessageQueue::is_final_status(&RempMessageStatus::RempNew));
    assert!(!MessageQueue::is_final_status(&RempMessageStatus::RempDuplicate(RempDuplicate {
        block_id: block(1)
    })));
}

#[test]
fn blocks_of_statuses() {
    let sent = RempSentToValidators { sent_to: 1, total_validators: 2 };
    let block_of = MessageQueue::get_status_blockid;
    assert_eq!(block_of(&RempMessageStatus::RempNew), BlockIdExt::default());
    assert_eq!(block_of(&accepted(RempMessageLevel::RempQueue)), block(4));
    assert_eq!(block_of(&rejected(RempMessageLevel::RempQueue)), block(6));
    assert_eq!(block_of(&ignored(RempMessageLevel::RempQueue)), block(7));
    assert_eq!(block_of(&RempMessageStatus::RempTimeout), BlockIdExt::default());
    assert_eq!(
        block_of(&RempMessageStatus::RempDuplicate(RempDuplicate { block_id: block(9) })),
        block(9)
    );
    assert_eq!(block_of(&RempMessageStatus::RempSentToValidators(sent)), BlockIdExt::default());
}

#[test]
fn collecting_sends_open_messages_and_skips_the_others() {
    let mut queue = new_queue();
    let first = message(1, 10);
    let second = message(2, 20);
    let third = message(3, 30);
    let fourth = message(4, 40);
    for m in [&third, &first, &fourth, &second] {
        queue.add_to_collation_queue(&m.message_id, Some((*m).clone()), true).unwrap();
    }
    assert_eq!(
        queue.collect_messages_for_collation(CollectEvent::Called),
        CollectStep::GetMessageWithStatus { message_id: id(1), count: 0 }
    );
    assert_eq!(
        queue.collect_messages_for_collation(CollectEvent::Found {
            message_id: id(1),
            count: 0,
            found: Some((first.clone(), RempMessageStatus::RempNew)),
        }),
        CollectStep::SendToCollator {
            message_id: id(1),
            body: first.message.clone(),
            message: first.clone(),
            count: 0,
        }
    );
    assert_eq!(
        queue.collect_messages_for_collation(CollectEvent::Sent {
            message_id: id(1),
            message: first.clone(),
            count: 0,
            reply: Ok(()),
        }),
        CollectStep::Updating {
            count: 0,
            step: UpdateStep::UpdateStatus {
                message_id: id(1),
                message: first.clone(),
                new_status: accepted_by_queue(),
            },
        }
    );
    assert_eq!(
        queue.collect_messages_for_collation(CollectEvent::Updating {
            count: 0,
            event: UpdateEvent::Updated {
                message: first.clone(),
                reply: Ok(Some(accepted_by_queue())),
            },
        }),
        CollectStep::Updating {
            count: 0,
            step: UpdateStep::Respond(told(&first, accepted_by_queue())),
        }
    );
    assert_eq!(
        queue.collect_messages_for_collation(CollectEvent::Updating {
            count: 0,
            event: UpdateEvent::Responded,
        }),
        CollectStep::GetMessageWithStatus { message_id: id(2), count: 1 }
    );
    // Unknown to the message cache.
    assert_eq!(
        queue.collect_messages_for_collation(CollectEvent::Found {
            message_id: id(2),
            count: 1,
            found: None,
        }),
        CollectStep::GetMessageWithStatus { message_id: id(3), count: 1 }
    );
    // Past collation.
    assert_eq!(
        queue.collect_messages_for_collation(CollectEvent::Found {
            message_id: id(3),
            count: 1,
            found: Some((third, accepted(RempMessageLevel::RempQueue))),
        }),
        CollectStep::GetMessageWithStatus { message_id: id(4), count: 1 }
    );
    // Ignored before, and refused by the collator.
    assert_eq!(
        queue.collect_messages_for_collation(CollectEvent::Found {
            message_id: id(4),
            count: 1,
            found: Some((fourth.clone(), ignored(RempMessageLevel::RempCollator))),
        }),
        CollectStep::SendToCollator {
            message_id: id(4),
            body: fourth.message.clone(),
            message: fourth.clone(),
            count: 1,
        }
    );
    assert_eq!(
        queue.collect_messages_for_collation(CollectEvent::Sent {
            message_id: id(4),
            message: fourth,
            count: 1,
            reply: Err("busy".to_string()),
        }),
        CollectStep::Return(Ok(1))
    );
    assert_eq!(
        queue.collect_messages_for_collation(CollectEvent::Called),
        CollectStep::Return(Ok(0))
    );
    assert_eq!(queue.received_messages_count(), 4);
}

#[test]
fn update_without_report_counts_too() {
    let mut queue = new_queue();
    assert_eq!(
        queue.collect_messages_for_collation(CollectEvent::Updating {
            count: 6,
            event: UpdateEvent::Updated { message: message(1, 1), reply: Ok(None) },
        }),
        CollectStep::Return(Ok(7))
    );
}

#[test]
fn message_returns_to_the_collation_queue() {
    let mut queue = new_queue();
    let m = message(1, 10);
    assert_eq!(
        queue.add_to_collation_queue(&id(1), None, true),
        Err(RmqError::NotInMessageCache(id(1)))
    );
    assert_eq!(
        queue.add_to_collation_queue(&id(1), Some(m.clone()), false),
        Err(RmqError::NotInCollationSet(id(1)))
    );
    assert_eq!(queue.received_messages_count(), 0);
    assert_eq!(queue.add_to_collation_queue(&id(1), Some(m.clone()), true), Ok(()));
    assert_eq!(queue.add_to_collation_queue(&id(1), Some(m.clone()), false), Ok(()));
    queue.collect_messages_for_collation(CollectEvent::Called);
    assert_eq!(queue.add_to_collation_queue(&id(1), Some(m), false), Ok(()));
    assert_eq!(
        queue.collect_messages_for_collation(CollectEvent::Called),
        CollectStep::GetMessageWithStatus { message_id: id(1), count: 0 }
    );
}

fn answer(n: u128, status: RempMessageStatus) -> CollatorResult {
    CollatorResult { message_id: id(n), status }
}

#[test]
fn accepted_and_rejected_answers_are_recorded() {
    let mut queue = new_queue();
    for status in [
        accepted(RempMessageLevel::RempCollator),
        rejected(RempMessageLevel::RempCollator),
    ] {
        assert_eq!(
            queue.process_one_deque_remp_message_status(ReceiptEvent::Called),
            ReceiptStep::PollReceipts { shard: shard() }
        );
        assert_eq!(
            queue.process_one_deque_remp_message_status(ReceiptEvent::Polled(Some(answer(
                1,
                status.clone()
            )))),
            ReceiptStep::Updating {
                result: answer(1, status.clone()),
                step: UpdateByIdStep::GetMessage { message_id: id(1), new_status: status.clone() },
            }
        );
        assert_eq!(
            queue.process_one_deque_remp_message_status(ReceiptEvent::Updating {
                result: answer(1, status.clone()),
                event: UpdateByIdEvent::Found {
                    message_id: id(1),
                    new_status: status.clone(),
                    found: None,
                },
            }),
            ReceiptStep::Return(Ok(Some(status)))
        );
    }
    assert_eq!(
        queue.process_one_deque_remp_message_status(ReceiptEvent::Polled(None)),
        ReceiptStep::Return(Ok(None))
    );
}

#[test]
fn ignored_answer_returns_the_message() {
    let mut queue = new_queue();
    let m = message(1, 10);
    let status = ignored(RempMessageLevel::RempCollator);
    queue.add_to_collation_queue(&id(1), Some(m.clone()), true).unwrap();
    queue.collect_messages_for_collation(CollectEvent::Called);
    assert_eq!(
        queue.process_one_deque_remp_message_status(ReceiptEvent::Updating {
            result: answer(1, status.clone()),
            event: UpdateByIdEvent::Updating {
                message: m.clone(),
                event: UpdateEvent::Updated { message: m.clone(), reply: Ok(Some(status.clone())) },
            },
        }),
        ReceiptStep::Updating {
            result: answer(1, status.clone()),
            step: UpdateByIdStep::Updating {
                message: m.clone(),
                step: UpdateStep::Respond(told(&m, status.clone())),
            },
        }
    );
    assert_eq!(
        queue.process_one_deque_remp_message_status(ReceiptEvent::Updating {
            result: answer(1, status.clone()),
            event: UpdateByIdEvent::Updating { message: m.clone(), event: UpdateEvent::Responded },
        }),
        ReceiptStep::GetMessage { result: answer(1, status.clone()) }
    );
    assert_eq!(
        queue.process_one_deque_remp_message_status(ReceiptEvent::Found {
            result: answer(1, status.clone()),
            message: Some(m),
        }),
        ReceiptStep::Return(Ok(Some(status)))
    );
    assert_eq!(
        queue.collect_messages_for_collation(CollectEvent::Called),
        CollectStep::GetMessageWithStatus { message_id: id(1), count: 0 }
    );
}

#[test]
fn ignored_answer_fails_for_unknown_messages() {
    let mut queue = new_queue();
    let status = ignored(RempMessageLevel::RempCollator);
    assert_eq!(
        queue.process_one_deque_remp_message_status(ReceiptEvent::Found {
            result: answer(1, status.clone()),
            message: None,
        }),
        ReceiptStep::Return(Err(RmqError::NotInMessageCache(id(1))))
    );
    assert_eq!(
        queue.process_one_deque_remp_message_status(ReceiptEvent::Found {
            result: answer(1, status),
            message: Some(message(1, 1)),
        }),
        ReceiptStep::Return(Err(RmqError::NotInCollationSet(id(1))))
    );
}

#[test]
fn foreign_answers_are_refused() {
    let mut queue = new_queue();
    for status in [
        RempMessageStatus::RempNew,
        RempMessageStatus::RempTimeout,
        accepted(RempMessageLevel::RempShardchain),
        rejected(RempMessageLevel::RempQueue),
        ignored(RempMessageLevel::RempMasterchain),
    ] {
        assert_eq!(
            queue.process_one_deque_remp_message_status(ReceiptEvent::Polled(Some(answer(
                1,
                status.clone()
            )))),
            ReceiptStep::Return(Err(RmqError::UnexpectedStatus { message_id: id(1), status }))
        );
    }
}

#[test]
fn answers_are_counted_by_their_outcome() {
    let mut step = MessageQueue::process_collation_result(ResultEvent::Called);
    let level = RempMessageLevel::RempCollator;
    for status in [accepted(level), ignored(level), accepted(level), rejected(level), accepted(level)] {
        match step {
            ResultStep::ProcessOne { tally } => {
                step = MessageQueue::process_collation_result(ResultEvent::Processed {
                    tally,
                    reply: Ok(Some(status)),
                });
            }
            ResultStep::Return(_) => panic!("processing goes on"),
        }
    }
    let tally = CollationTally { accepted: 3, rejected: 1, ignored: 1 };
    assert_eq!(step, ResultStep::ProcessOne { tally });
    assert_eq!(
        MessageQueue::process_collation_result(ResultEvent::Processed { tally, reply: Ok(None) }),
        ResultStep::Return(tally)
    );
}

#[test]
fn processing_ends_at_an_error_or_a_foreign_status() {
    let tally = CollationTally { accepted: 1, rejected: 2, ignored: 3 };
    assert_eq!(
        MessageQueue::process_collation_result(ResultEvent::Processed {
            tally,
            reply: Err(RmqError::NotInMessageCache(id(1))),
        }),
        ResultStep::Return(tally)
    );
    assert_eq!(
        MessageQueue::process_collation_result(ResultEvent::Processed {
            tally,
            reply: Ok(Some(RempMessageStatus::RempNew)),
        }),
        ResultStep::Return(tally)
    );
}

#[test]
fn downgrading_goes_through_all_messages_under_collation() {
    let mut queue = new_queue();
    for (n, timestamp) in [(1, 10), (2, 20), (3, 30)] {
        queue.add_to_collation_queue(&id(n), Some(message(n, timestamp)), true).unwrap();
    }
    queue.collect_messages_for_collation(CollectEvent::Called);
    let mut asked = vec![];
    let mut step = queue.all_accepted_by_collator_to_ignored(DowngradeEvent::Called);
    loop {
        match step {
            DowngradeStep::ChangeToIgnored { message_id, waiting, rest, downgrading } => {
                asked.push((message_id, waiting));
                let reply = if message_id == id(2) { None } else { Some(message_id.lo as u32 * 10) };
                step = queue.all_accepted_by_collator_to_ignored(DowngradeEvent::Changed {
                    message_id,
                    reply,
                    rest,
                    downgrading,
                });
            }
            DowngradeStep::Return(mut changed) => {
                changed.sort();
                assert_eq!(changed, vec![(id(1), 10), (id(3), 30)]);
                break;
            }
        }
    }
    asked.sort();
    assert_eq!(asked, vec![(id(1), false), (id(2), true), (id(3), true)]);
}

#[test]
fn downgrading_an_empty_queue_gives_nothing() {
    let queue = new_queue();
    assert_eq!(
        queue.all_accepted_by_collator_to_ignored(DowngradeEvent::Called),
        DowngradeStep::Return(vec![])
    );
}
