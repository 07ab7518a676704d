use std::sync::Arc;

use reliable_message_queue::collation::{CollectEvent, CollectStep};
use reliable_message_queue::error::RmqError;
use reliable_message_queue::ident::{BlockIdExt, ShardIdent, UInt256, SHARD_FULL};
use reliable_message_queue::message::{
    seqno_from_field, seqno_to_field, Message, ReceivedRecord, RmqMessage, RmqMessageDigest,
};
use reliable_message_queue::message_queue::{
    FullnodeResponse, MessageQueue, PutEvent, PutStep, RempCatchainInfo,
};
use reliable_message_queue::poll::{
    AddEvent, AddStep, ExternalMessageStatus, PollEvent, PollStep,
};
use reliable_message_queue::status::{
    RempAccepted, RempIgnored, RempMessageLevel, RempMessageStatus, RempRejected,
};

fn id(n: u128) -> UInt256 {
    UInt256 { hi: 0, lo: n }
}

fn shard() -> ShardIdent {
    ShardIdent { workchain_id: -1, prefix: SHARD_FULL }
}

fn block(n: u32) -> BlockIdExt {
    BlockIdExt { shard_id: shard(), seq_no: n, root_hash: id(1), file_hash: id(2) }
}

fn new_queue() -> MessageQueue {
    MessageQueue::create(Ok(RempCatchainInfo {
        local_idx: 0x1_0000_0003,
        local_key_id: id(70),
        queue_id: id(80),
        shard: shard(),
        master_cc_seqno: 10,
    }))
    .ok()
    .unwrap()
}

fn message(n: u128, timestamp: u32) -> Arc<RmqMessage> {
    Arc::new(RmqMessage {
        message_id: id(n),
        timestamp,
        source_idx: 9,
        message: Arc::new(Message { body: vec![1, 2, n as u8] }),
    })
}

fn told(message: &Arc<RmqMessage>, status: RempMessageStatus) -> FullnodeResponse {
    FullnodeResponse { local_key_id: id(70), message: message.clone(), status }
}

#[test]
fn session_numbers_keep_their_bits() {
    assert_eq!(seqno_from_field(0), 0);
    assert_eq!(seqno_from_field(17), 17);
    assert_eq!(seqno_from_field(-1), 0xffff_ffff);
    assert_eq!(seqno_from_field(i32::MIN), 0x8000_0000);
    assert_eq!(seqno_to_field(0xffff_fffe), -2);
    assert_eq!(seqno_to_field(0x7fff_ffff), i32::MAX);
    assert_eq!(seqno_to_field(5), 5);
}

#[test]
fn message_is_put_in_the_name_of_the_validator() {
    let queue = new_queue();
    let old_message = message(1, 100);
    let put = Arc::new(RmqMessage {
        message_id: id(1),
        timestamp: 100,
        source_idx: 3,
        message: old_message.message.clone(),
    });
    assert_eq!(
        queue.put_message_to_rmq(PutEvent::Called { old_message }),
        PutStep::Send { message: put.clone(), master_cc_seqno: 10 }
    );
    assert_eq!(
        queue.put_message_to_rmq(PutEvent::Sent { message: put.clone(), reply: Ok(()) }),
        PutStep::FindSession { queue_id: id(80), message: put.clone() }
    );
    assert_eq!(
        queue.put_message_to_rmq(PutEvent::SessionSought { message: put.clone(), found: true }),
        PutStep::RequestNewBlock { message: put.clone() }
    );
    assert_eq!(
        queue.put_message_to_rmq(PutEvent::BlockRequested { message: put.clone() }),
        PutStep::Respond(told(&put, RempMessageStatus::RempNew))
    );
    assert_eq!(queue.put_message_to_rmq(PutEvent::Responded), PutStep::Return(Ok(())));
}

#[test]
fn put_fails_without_catchain_or_session() {
    let queue = new_queue();
    assert_eq!(
        queue.put_message_to_rmq(PutEvent::Sent {
            message: message(1, 1),
            reply: Err("full".to_string())
        }),
        PutStep::Return(Err(RmqError::Service("full".to_string())))
    );
    assert_eq!(
        queue.put_message_to_rmq(PutEvent::SessionSought { message: message(1, 1), found: false }),
        PutStep::Return(Err(RmqError::NotStarted))
    );
}

#[test]
fn new_message_is_registered_queued_and_reported() {
    let mut queue = new_queue();
    let m = message(1, 100);
    assert_eq!(queue.poll(PollEvent::Called), PollStep::Receive);
    assert_eq!(
        queue.poll(PollEvent::Received(Ok(Some(ReceivedRecord::RmqMessage {
            message: Ok(m.clone()),
            masterchain_seqno: 10,
        })))),
        PollStep::Register {
            request: ExternalMessageStatus {
                message_id: id(1),
                message: Some(m.clone()),
                shard: shard(),
                status: RempMessageStatus::RempNew,
                master_cc_seqno: 10,
            },
            message: m.clone(),
            forwarded: false,
        }
    );
    assert_eq!(
        queue.poll(PollEvent::Registered { message: m.clone(), forwarded: false, reply: Ok(None) }),
        PollStep::Adding(AddStep::MarkCollationAttempt {
            message_id: id(1),
            message: m.clone(),
            status_to_send: Some(RempMessageStatus::RempNew),
        })
    );
    assert_eq!(queue.received_messages_count(), 1);
    assert_eq!(
        queue.poll(PollEvent::Adding(AddEvent::Marked {
            message: m.clone(),
            status_to_send: Some(RempMessageStatus::RempNew),
            reply: Ok(()),
        })),
        PollStep::Adding(AddStep::Respond(told(&m, RempMessageStatus::RempNew)))
    );
    assert_eq!(queue.poll(PollEvent::Adding(AddEvent::Responded)), PollStep::Receive);
    assert_eq!(queue.poll(PollEvent::Received(Ok(None))), PollStep::Return(Ok(())));
    assert_eq!(
        queue.collect_messages_for_collation(CollectEvent::Called),
        CollectStep::GetMessageWithStatus { message_id: id(1), count: 0 }
    );
}

#[test]
fn waiting_message_is_not_reported_again() {
    let mut queue = new_queue();
    let m = message(1, 100);
    queue.poll(PollEvent::Registered { message: m.clone(), forwarded: false, reply: Ok(None) });
    assert_eq!(
        queue.poll(PollEvent::Registered { message: m, forwarded: false, reply: Ok(None) }),
        PollStep::Receive
    );
    assert_eq!(queue.received_messages_count(), 1);
}

#[test]
fn message_of_an_earlier_session_is_forwarded() {
    let mut queue = new_queue();
    for (field, expected) in [(9, true), (10, false), (11, false), (-1, false), (0, true)] {
        match queue.poll(PollEvent::Received(Ok(Some(ReceivedRecord::RmqMessage {
            message: Ok(message(1, 1)),
            masterchain_seqno: field,
        })))) {
            PollStep::Register { request, forwarded, .. } => {
                assert_eq!(forwarded, expected);
                assert_eq!(request.master_cc_seqno, field as u32);
            }
            step => panic!("unexpected {:?}", step),
        }
    }
}

#[test]
fn open_message_of_an_earlier_session_is_lowered_and_collated_again() {
    let mut queue = new_queue();
    let m = message(1, 100);
    let old_status = RempMessageStatus::RempAccepted(RempAccepted {
        level: RempMessageLevel::RempCollator,
        block_id: block(7),
        master_id: block(8),
    });
    let lowered = RempMessageStatus::RempIgnored(RempIgnored {
        level: RempMessageLevel::RempCollator,
        block_id: block(7),
    });
    assert_eq!(
        queue.poll(PollEvent::Registered {
            message: m.clone(),
            forwarded: true,
            reply: Ok(Some(old_status.clone())),
        }),
        PollStep::FindLevel { message: m.clone(), old_status: old_status.clone() }
    );
    assert_eq!(
        queue.poll(PollEvent::LevelFound {
            message: m.clone(),
            old_status,
            level: RempMessageLevel::RempCollator,
        }),
        PollStep::Downgrade { message: m.clone(), new_status: lowered.clone() }
    );
    assert_eq!(
        queue.poll(PollEvent::Downgraded {
            message: m.clone(),
            new_status: lowered.clone(),
            reply: Ok(None),
        }),
        PollStep::Adding(AddStep::MarkCollationAttempt {
            message_id: id(1),
            message: m.clone(),
            status_to_send: Some(lowered.clone()),
        })
    );
    assert_eq!(
        queue.poll(PollEvent::Adding(AddEvent::Marked {
            message: m.clone(),
            status_to_send: Some(lowered.clone()),
            reply: Ok(()),
        })),
        PollStep::Adding(AddStep::Respond(told(&m, lowered)))
    );
    assert_eq!(queue.received_messages_count(), 1);
}

#[test]
fn known_message_is_skipped_unless_open_and_forwarded() {
    let mut queue = new_queue();
    let settled = vec![
        RempMessageStatus::RempTimeout,
        RempMessageStatus::RempRejected(RempRejected {
            level: RempMessageLevel::RempQueue,
            block_id: block(1),
            error: "bad".to_string(),
        }),
        RempMessageStatus::RempAccepted(RempAccepted {
            level: RempMessageLevel::RempMasterchain,
            block_id: block(1),
            master_id: block(2),
        }),
    ];
    for status in settled {
        assert_eq!(
            queue.poll(PollEvent::Registered {
                message: message(1, 1),
                forwarded: true,
                reply: Ok(Some(status)),
            }),
            PollStep::Receive
        );
    }
    assert_eq!(
        queue.poll(PollEvent::Registered {
            message: message(1, 1),
            forwarded: false,
            reply: Ok(Some(RempMessageStatus::RempNew)),
        }),
        PollStep::Receive
    );
    assert_eq!(queue.received_messages_count(), 0);
}

#[test]
fn failures_while_polling() {
    let mut queue = new_queue();
    let service = |text: &str| PollStep::Return(Err(RmqError::Service(text.to_string())));
    assert_eq!(
        queue.poll(PollEvent::Received(Err("closed".to_string()))),
        PollStep::Return(Ok(()))
    );
    assert_eq!(
        queue.poll(PollEvent::Received(Ok(Some(ReceivedRecord::RmqMessage {
            message: Err("unreadable".to_string()),
            masterchain_seqno: 10,
        })))),
        service("unreadable")
    );
    assert_eq!(
        queue.poll(PollEvent::Registered {
            message: message(1, 1),
            forwarded: true,
            reply: Err("no cache".to_string()),
        }),
        PollStep::Receive
    );
    assert_eq!(
        queue.poll(PollEvent::Downgraded {
            message: message(1, 1),
            new_status: RempMessageStatus::RempNew,
            reply: Err("no update".to_string()),
        }),
        service("no update")
    );
    assert_eq!(
        queue.poll(PollEvent::Adding(AddEvent::Marked {
            message: message(1, 1),
            status_to_send: None,
            reply: Err("no mark".to_string()),
        })),
        service("no mark")
    );
    assert_eq!(queue.received_messages_count(), 0);
}

#[test]
fn message_can_be_added_without_a_report() {
    let mut queue = new_queue();
    let m = message(4, 1);
    assert_eq!(
        queue.add_pending_collation(AddEvent::Called { message: m.clone(), status_to_send: None }),
        AddStep::MarkCollationAttempt { message_id: id(4), message: m.clone(), status_to_send: None }
    );
    assert_eq!(
        queue.add_pending_collation(AddEvent::Marked {
            message: m.clone(),
            status_to_send: None,
            reply: Ok(()),
        }),
        AddStep::Return(Ok(()))
    );
    assert_eq!(
        queue.add_pending_collation(AddEvent::Called { message: m, status_to_send: None }),
        AddStep::Return(Ok(()))
    );
}

fn rejection(n: u128, master_cc_seqno: u32) -> ExternalMessageStatus {
    ExternalMessageStatus {
        message_id: id(n),
        message: None,
        shard: shard(),
        status: RempMessageStatus::RempRejected(RempRejected {
            level: RempMessageLevel::RempQueue,
            block_id: BlockIdExt::default(),
            error: "reject received from digest".to_string(),
        }),
        master_cc_seqno,
    }
}

fn digest_of(masterchain_seqno: i32) -> RmqMessageDigest {
    RmqMessageDigest { masterchain_seqno, messages: vec![id(5), id(6)] }
}

#[test]
fn digest_rejects_its_messages_in_order() {
    let mut queue = new_queue();
    assert_eq!(
        queue.poll(PollEvent::Received(Ok(Some(ReceivedRecord::RmqMessageDigest(digest_of(10)))))),
        PollStep::CheckExpiry { message_cc: 10, current_cc: 10, digest: digest_of(10) }
    );
    assert_eq!(
        queue.poll(PollEvent::ExpiryChecked { digest: digest_of(10), expired: false }),
        PollStep::Reject { request: rejection(5, 10), digest: digest_of(10), done: 1 }
    );
    assert_eq!(
        queue.poll(PollEvent::Rejected { digest: digest_of(10), done: 1, reply: Ok(None) }),
        PollStep::Reject { request: rejection(6, 10), digest: digest_of(10), done: 2 }
    );
    assert_eq!(
        queue.poll(PollEvent::Rejected {
            digest: digest_of(10),
            done: 2,
            reply: Ok(Some(RempMessageStatus::RempNew)),
        }),
        PollStep::Receive
    );
    assert_eq!(queue.received_messages_count(), 0);
}

#[test]
fn digest_fails_with_the_message_cache() {
    let mut queue = new_queue();
    assert_eq!(
        queue.poll(PollEvent::Rejected {
            digest: digest_of(10),
            done: 1,
            reply: Err("no cache".to_string()),
        }),
        PollStep::Return(Err(RmqError::Service("no cache".to_string())))
    );
}

#[test]
fn untimely_digest_is_passed_over() {
    let mut queue = new_queue();
    assert_eq!(
        queue.poll(PollEvent::ExpiryChecked { digest: digest_of(3), expired: true }),
        PollStep::Receive
    );
    assert_eq!(
        queue.poll(PollEvent::ExpiryChecked { digest: digest_of(11), expired: false }),
        PollStep::Receive
    );
    assert_eq!(
        queue.poll(PollEvent::ExpiryChecked { digest: digest_of(-1), expired: false }),
        PollStep::Receive
    );
}

#[test]
fn empty_digest_rejects_nothing() {
    let mut queue = new_queue();
    let digest = RmqMessageDigest { masterchain_seqno: 1, messages: vec![] };
    assert_eq!(
        queue.poll(PollEvent::ExpiryChecked { digest, expired: false }),
        PollStep::Receive
    );
}

#[test]
fn status_of_every_message_under_collation_is_read() {
    let mut queue = new_queue();
    for n in [3, 1, 2] {
        queue.add_to_collation_queue(&id(n), Some(message(n, n as u32)), true).unwrap();
    }
    // One of them is with the collator.
    queue.collect_messages_for_collation(CollectEvent::Called);
    let mut read = vec![];
    let mut event = PollEvent::Called;
    loop {
        match queue.poll(event) {
            PollStep::ReadStatus { message_id, rest } => {
                read.push(message_id);
                let status = if message_id == id(2) { None } else { Some(RempMessageStatus::RempNew) };
                event = PollEvent::StatusRead { rest, status };
            }
            step => {
                assert_eq!(step, PollStep::Receive);
                break;
            }
        }
    }
    read.sort();
    assert_eq!(read, vec![id(1), id(2), id(3)]);
    assert_eq!(queue.poll(PollEvent::Received(Ok(None))), PollStep::Return(Ok(())));
    assert_eq!(queue.received_messages_count(), 3);
}

#[test]
fn status_reading_goes_through_the_rest() {
    let mut queue = new_queue();
    assert_eq!(
        queue.poll(PollEvent::StatusRead { rest: vec![id(8), id(9)], status: None }),
        PollStep::ReadStatus { message_id: id(9), rest: vec![id(8)] }
    );
    assert_eq!(
        queue.poll(PollEvent::StatusRead { rest: vec![id(8)], status: None }),
        PollStep::ReadStatus { message_id: id(8), rest: vec![] }
    );
    assert_eq!(
        queue.poll(PollEvent::StatusRead { rest: vec![], status: Some(RempMessageStatus::RempTimeout) }),
        PollStep::Receive
    );
}

#[test]
fn received_messages_are_offered_in_their_order() {
    let mut queue = new_queue();
    let mut records = vec![
        ReceivedRecord::RmqMessage { message: Ok(message(5, 50)), masterchain_seqno: 10 },
        ReceivedRecord::RmqMessageDigest(digest_of(9)),
        ReceivedRecord::RmqMessage { message: Ok(message(4, 40)), masterchain_seqno: 9 },
        ReceivedRecord::RmqMessage { message: Ok(message(5, 50)), masterchain_seqno: 10 },
    ]
    .into_iter();
    let mut offered = vec![];
    let mut rejected = vec![];
    let mut event = PollEvent::Called;
    let result = loop {
        event = match queue.poll(event) {
            PollStep::Receive => PollEvent::Received(Ok(records.next())),
            PollStep::Register { request, message, forwarded } => {
                let known = offered.contains(&(request.message_id, request.master_cc_seqno));
                offered.push((request.message_id, request.master_cc_seqno));
                let reply = Ok(if known { Some(RempMessageStatus::RempNew) } else { None });
                PollEvent::Registered { message, forwarded, reply }
            }
            PollStep::Adding(AddStep::MarkCollationAttempt { message, status_to_send, .. }) => {
                PollEvent::Adding(AddEvent::Marked { message, status_to_send, reply: Ok(()) })
            }
            PollStep::Adding(AddStep::Respond(_)) => PollEvent::Adding(AddEvent::Responded),
            PollStep::CheckExpiry { digest, .. } => {
                PollEvent::ExpiryChecked { digest, expired: false }
            }
            PollStep::Reject { request, digest, done } => {
                rejected.push(request.message_id);
                PollEvent::Rejected { digest, done, reply: Ok(None) }
            }
            PollStep::Return(result) => break result,
            step => panic!("unexpected {:?}", step),
        };
    };
    assert_eq!(result, Ok(()));
    assert_eq!(offered, vec![(id(5), 10), (id(4), 9), (id(5), 10)]);
    assert_eq!(rejected, vec![id(5), id(6)]);
    assert_eq!(queue.received_messages_count(), 2);
    assert_eq!(
        queue.collect_messages_for_collation(CollectEvent::Called),
        CollectStep::GetMessageWithStatus { message_id: id(4), count: 0 }
    );
}
