use std::sync::{Arc, Mutex};

use reliable_message_queue::collation::{CollectEvent, CollectStep};
use reliable_message_queue::error::{ManagerOperation, RmqError};
use reliable_message_queue::forward::{ForwardCandidate, ForwardEvent, ForwardStep};
use reliable_message_queue::ident::{BlockIdExt, ShardIdent, UInt256, SHARD_FULL};
use reliable_message_queue::manager::{
    AddQueueOutcome, PollAllEvent, PollAllStep, PrintStep, RmqQueueManager, ShardBlockEvent,
    ShardBlockStep, StopAllEvent, StopAllStep,
};
use reliable_message_queue::message::{Message, RmqMessage};
use reliable_message_queue::message_queue::{MessageQueue, RempCatchainInfo};
use reliable_message_queue::status::{
    RempAccepted, RempMessageLevel, RempMessageStatus, RempRejected,
};

type Manager = RmqQueueManager<Mutex<MessageQueue>>;
type Guarded = Arc<Mutex<MessageQueue>>;

fn id(n: u128) -> UInt256 {
    UInt256 { hi: 0, lo: n }
}

fn shard() -> ShardIdent {
    ShardIdent { workchain_id: 0, prefix: SHARD_FULL }
}

fn guarded(n: u128) -> Guarded {
    let info = RempCatchainInfo {
        local_idx: 3,
        local_key_id: id(70),
        queue_id: id(n),
        shard: shard(),
        master_cc_seqno: 10,
    };
    Arc::new(Mutex::new(MessageQueue::create(Ok(info)).ok().unwrap()))
}

fn number(queue: &Guarded) -> u128 {
    queue.lock().unwrap().catchain_info().queue_id.lo
}

fn message(n: u128, timestamp: u32) -> Arc<RmqMessage> {
    Arc::new(RmqMessage {
        message_id: id(n),
        timestamp,
        source_idx: 9,
        message: Arc::new(Message { body: vec![n as u8] }),
    })
}

/// A manager with current queue 100 and next queues 101 and 102.
fn manager() -> Manager {
    let mut manager = Manager::new(true, shard());
    manager.set_queues(Ok(guarded(100)));
    assert_eq!(manager.add_new_queue(Ok(guarded(101)), &vec![]), AddQueueOutcome::Added);
    assert_eq!(manager.add_new_queue(Ok(guarded(102)), &vec![false]), AddQueueOutcome::Added);
    manager
}

fn no_catchain() -> Result<Guarded, RmqError> {
    Err(RmqError::Service("no catchain".to_string()))
}

#[test]
fn new_manager_has_no_queues() {
    let manager = Manager::new(true, shard());
    assert!(manager.is_service_enabled());
    assert!(manager.cur_queue().is_none());
    assert!(manager.start().is_none());
    assert_eq!(manager.next_queues().len(), 0);
}

#[test]
fn current_queue_is_set_and_lost() {
    let mut manager = Manager::new(true, shard());
    manager.set_queues(Ok(guarded(100)));
    assert_eq!(number(&manager.start().unwrap()), 100);
    manager.set_queues(Ok(guarded(200)));
    assert_eq!(number(&manager.cur_queue().unwrap()), 200);
    manager.set_queues(no_catchain());
    assert!(manager.cur_queue().is_none());
}

#[test]
fn disabled_manager_sets_and_adds_nothing() {
    let mut manager = Manager::new(false, shard());
    manager.set_queues(Ok(guarded(100)));
    assert!(manager.cur_queue().is_none());
    assert_eq!(manager.add_new_queue(Ok(guarded(101)), &vec![]), AddQueueOutcome::Disabled);
    assert_eq!(manager.next_queues().len(), 0);
    assert!(matches!(manager.print_messages(), PrintStep::Disabled));
    assert!(matches!(
        manager.forward_messages(ForwardEvent::Called { new_cc_seqno: 5 }),
        ForwardStep::Return(None)
    ));
}

#[test]
fn next_queue_needs_a_new_catchain() {
    let mut manager = manager();
    assert_eq!(
        manager.add_new_queue(Ok(guarded(102)), &vec![false, true]),
        AddQueueOutcome::AlreadyThere
    );
    assert_eq!(manager.add_new_queue(no_catchain(), &vec![]), AddQueueOutcome::NotCreated);
    let next: Vec<u128> = manager.next_queues().iter().map(number).collect();
    assert_eq!(next, vec![101, 102]);
}

#[test]
fn next_queue_needs_a_current_one() {
    let mut manager = Manager::new(true, shard());
    assert_eq!(manager.add_new_queue(Ok(guarded(101)), &vec![]), AddQueueOutcome::NoCurrentQueue);
    assert_eq!(manager.next_queues().len(), 0);
}

#[test]
fn operations_go_to_the_current_queue() {
    let manager = manager();
    assert_eq!(number(&manager.put_message_to_rmq().ok().unwrap()), 100);
    assert_eq!(number(&manager.collect_messages_for_collation().ok().unwrap()), 100);
    assert_eq!(number(&manager.process_collation_result().ok().unwrap()), 100);
    match manager.print_messages() {
        PrintStep::Print(queue) => assert_eq!(number(&queue), 100),
        _ => panic!("there is a current queue"),
    }
}

#[test]
fn operations_fail_without_a_current_queue() {
    let manager = Manager::new(true, shard());
    let block_id = BlockIdExt::default();
    assert_eq!(
        manager.put_message_to_rmq().err(),
        Some(RmqError::NoCurrentQueue(ManagerOperation::PutMessage))
    );
    assert_eq!(
        manager.collect_messages_for_collation().err(),
        Some(RmqError::NoCurrentQueue(ManagerOperation::CollectMessages))
    );
    assert_eq!(
        manager.process_collation_result().err(),
        Some(RmqError::NoCurrentQueue(ManagerOperation::ProcessCollationResult))
    );
    match manager.process_messages_from_accepted_shardblock(ShardBlockEvent::Called { block_id }) {
        ShardBlockStep::Return(result) => assert_eq!(
            result,
            Err(RmqError::NoCurrentQueue(ManagerOperation::ApplyBlock(block_id)))
        ),
        _ => panic!("there is no current queue"),
    }
    assert!(matches!(manager.poll(PollAllEvent::Called), PollAllStep::Return(None)));
    assert!(matches!(manager.print_messages(), PrintStep::Nothing));
    assert!(matches!(
        manager.forward_messages(ForwardEvent::Called { new_cc_seqno: 5 }),
        ForwardStep::Return(None)
    ));
}

#[test]
fn all_queues_are_stopped_once() {
    let mut manager = manager();
    let mut stopped = vec![];
    let mut event = StopAllEvent::Called;
    while let StopAllStep::StopQueue(queue) = manager.stop(event) {
        stopped.push(number(&queue));
        event = StopAllEvent::Stopped;
    }
    assert_eq!(stopped, vec![100, 102, 101]);
    assert_eq!(manager.next_queues().len(), 0);
    assert_eq!(number(&manager.cur_queue().unwrap()), 100);
}

#[test]
fn manager_without_queues_stops_nothing() {
    let mut manager = Manager::new(true, shard());
    assert!(matches!(manager.stop(StopAllEvent::Called), StopAllStep::Return));
}

#[test]
fn shard_block_returns_the_lost_messages() {
    let manager = manager();
    let block_id = BlockIdExt { seq_no: 77, ..BlockIdExt::default() };
    let queue = match manager
        .process_messages_from_accepted_shardblock(ShardBlockEvent::Called { block_id })
    {
        ShardBlockStep::ProcessBlock { queue, block_id: asked, updater } => {
            assert_eq!(asked, block_id);
            assert_eq!(
                updater.new_status,
                RempMessageStatus::RempAccepted(RempAccepted {
                    level: RempMessageLevel::RempShardchain,
                    block_id,
                    master_id: BlockIdExt::default(),
                })
            );
            queue
        }
        _ => panic!("the block is to be processed"),
    };
    assert_eq!(number(&queue), 100);
    let queue = match manager.process_messages_from_accepted_shardblock(
        ShardBlockEvent::BlockProcessed { queue, outcome: Ok(()) },
    ) {
        ShardBlockStep::Downgrade { queue } => queue,
        _ => panic!("messages are to be lowered"),
    };
    for n in [1, 2] {
        queue.lock().unwrap().add_to_collation_queue(&id(n), Some(message(n, n as u32)), true).unwrap();
        queue.lock().unwrap().collect_messages_for_collation(CollectEvent::Called);
    }
    let mut step = manager.process_messages_from_accepted_shardblock(ShardBlockEvent::Downgraded {
        queue: queue.clone(),
        returned: vec![(id(2), 2), (id(1), 1)],
    });
    let mut requeued = vec![];
    loop {
        match step {
            ShardBlockStep::Requeue { message_id, add_if_absent, queue, returned, done } => {
                requeued.push(message_id);
                assert!(!add_if_absent);
                let reply = queue.lock().unwrap().add_to_collation_queue(
                    &message_id,
                    Some(message(message_id.lo, message_id.lo as u32)),
                    add_if_absent,
                );
                step = manager.process_messages_from_accepted_shardblock(
                    ShardBlockEvent::Requeued { queue, returned, done, reply },
                );
            }
            ShardBlockStep::Return(result) => {
                assert_eq!(result, Ok(()));
                break;
            }
            _ => panic!("messages are to return"),
        }
    }
    assert_eq!(requeued, vec![id(2), id(1)]);
    assert_eq!(
        queue.lock().unwrap().collect_messages_for_collation(CollectEvent::Called),
        CollectStep::GetMessageWithStatus { message_id: id(1), count: 0 }
    );
}

#[test]
fn shard_block_fails_with_its_services() {
    let manager = manager();
    match manager.process_messages_from_accepted_shardblock(ShardBlockEvent::BlockProcessed {
        queue: guarded(100),
        outcome: Err("no block".to_string()),
    }) {
        ShardBlockStep::Return(result) => {
            assert_eq!(result, Err(RmqError::Service("no block".to_string())))
        }
        _ => panic!("the block was not processed"),
    }
    match manager.process_messages_from_accepted_shardblock(ShardBlockEvent::Requeued {
        queue: guarded(100),
        returned: vec![(id(1), 1), (id(2), 2)],
        done: 1,
        reply: Err(RmqError::NotInMessageCache(id(1))),
    }) {
        ShardBlockStep::Return(result) => {
            assert_eq!(result, Err(RmqError::NotInMessageCache(id(1))))
        }
        _ => panic!("the message was refused"),
    }
}

/// Polls a manager whose queue takes `room` of the incoming messages.
fn poll_with_room(manager: &Manager, active: bool, incoming: Vec<u128>, room: usize) -> (bool, u64, Vec<u128>, Vec<u128>) {
    let mut incoming = incoming.into_iter();
    let mut polled = false;
    let mut put = vec![];
    let mut back = vec![];
    let mut event = PollAllEvent::Called;
    loop {
        event = match manager.poll(event) {
            PollAllStep::CheckSession { queue } => {
                assert_eq!(number(&queue), 100);
                PollAllEvent::SessionChecked { queue, active }
            }
            PollAllStep::PollQueue { queue } => {
                assert_eq!(number(&queue), 100);
                polled = true;
                PollAllEvent::QueuePolled
            }
            PollAllStep::PollIncoming { shard: asked, count } => {
                assert_eq!(asked, shard());
                PollAllEvent::Incoming { count, incoming: incoming.next().map(|n| message(n, 1)) }
            }
            PollAllStep::Put { message, count } => {
                let reply = if put.len() < room {
                    put.push(message.message_id.lo);
                    Ok(())
                } else {
                    Err(RmqError::NotStarted)
                };
                PollAllEvent::Put { count, message, reply }
            }
            PollAllStep::ReturnToIncoming { message, shard: asked, count } => {
                assert_eq!(asked, shard());
                back.push(message.message_id.lo);
                PollAllEvent::Returned { count }
            }
            PollAllStep::Return(count) => return (polled, count.unwrap(), put, back),
        }
    }
}

#[test]
fn incoming_messages_are_put_or_returned() {
    let manager = manager();
    assert_eq!(
        poll_with_room(&manager, true, vec![1, 2, 3], 5),
        (true, 3, vec![1, 2, 3], vec![])
    );
    assert_eq!(
        poll_with_room(&manager, true, vec![1, 2, 3, 4], 2),
        (true, 2, vec![1, 2], vec![3])
    );
    assert_eq!(poll_with_room(&manager, true, vec![], 5), (true, 0, vec![], vec![]));
}

#[test]
fn inactive_queue_is_not_polled() {
    assert_eq!(
        poll_with_room(&manager(), false, vec![8], 1),
        (false, 1, vec![8], vec![])
    );
}

fn rejected_status() -> RempMessageStatus {
    RempMessageStatus::RempRejected(RempRejected {
        level: RempMessageLevel::RempCollator,
        block_id: BlockIdExt::default(),
        error: "bad".to_string(),
    })
}

fn accepted_status() -> RempMessageStatus {
    RempMessageStatus::RempAccepted(RempAccepted {
        level: RempMessageLevel::RempMasterchain,
        block_id: BlockIdExt::default(),
        master_id: BlockIdExt::default(),
    })
}

fn candidate(n: u128, status: RempMessageStatus, master_cc: u32) -> Option<ForwardCandidate> {
    Some(ForwardCandidate { message: message(n, 1), status, master_cc })
}

/// Forwards the messages, and writes down what the queues got. A session below 5 is too old, and
/// queue 102 takes no messages of session 9.
fn forward(
    manager: &Manager,
    lookup: fn(u128) -> Option<ForwardCandidate>,
    pending: Vec<u128>,
) -> (Vec<String>, Option<(usize, u64)>) {
    let mut log = vec![];
    let mut event = ForwardEvent::Called { new_cc_seqno: 12 };
    loop {
        event = match manager.forward_messages(event) {
            ForwardStep::ListPending { queue, new_cc_seqno } => {
                assert_eq!(number(&queue), 100);
                let listed = Ok(pending.iter().map(|n| id(*n)).collect());
                ForwardEvent::Listed { new_cc_seqno, listed }
            }
            ForwardStep::StartQueue { queue, progress } => {
                log.push(format!("start {}", number(&queue)));
                ForwardEvent::QueueStarted { progress }
            }
            ForwardStep::GetMessage { message_id, progress } => {
                ForwardEvent::Found { progress, found: lookup(message_id.lo) }
            }
            ForwardStep::CheckExpiry { new_cc_seqno, candidate, progress } => {
                assert_eq!(new_cc_seqno, 12);
                let expired = candidate.master_cc < 5;
                ForwardEvent::ExpiryChecked { progress, candidate, expired }
            }
            ForwardStep::Classify { candidate, progress } => {
                let finally_rejected = matches!(candidate.status, RempMessageStatus::RempRejected(_));
                let finally_accepted = matches!(candidate.status, RempMessageStatus::RempAccepted(_));
                ForwardEvent::Classified { progress, candidate, finally_rejected, finally_accepted }
            }
            ForwardStep::SendMessage { queue, candidate, progress } => {
                let sent = number(&queue) != 102 || candidate.master_cc != 9;
                log.push(format!(
                    "message {} of {} to {}: {}",
                    candidate.message.message_id.lo,
                    candidate.master_cc,
                    number(&queue),
                    sent
                ));
                ForwardEvent::MessageSent { progress, candidate, sent }
            }
            ForwardStep::SendDigest { queue, digest, progress } => {
                let ids: Vec<u128> = digest.messages.iter().map(|m| m.lo).collect();
                log.push(format!(
                    "digest {:?} of {} to {}",
                    ids,
                    digest.masterchain_seqno,
                    number(&queue)
                ));
                ForwardEvent::DigestSent { progress, sent: true }
            }
            ForwardStep::Return(report) => return (log, report),
        }
    }
}

#[test]
fn forwarding_delivers_open_messages_and_digests() {
    let lookup = |n: u128| match n {
        1 => candidate(1, RempMessageStatus::RempNew, 9),
        2 => candidate(2, rejected_status(), 10),
        3 => candidate(3, RempMessageStatus::RempNew, 10),
        4 => candidate(4, rejected_status(), 0xffff_ffff),
        5 => candidate(5, rejected_status(), 10),
        6 => candidate(6, RempMessageStatus::RempTimeout, 10),
        7 => candidate(7, RempMessageStatus::RempNew, 4),
        8 => candidate(8, accepted_status(), 10),
        _ => None,
    };
    let (log, report) = forward(&manager(), lookup, vec![6, 2, 1, 4, 9, 7, 3, 8, 5]);
    assert_eq!(
        log,
        vec![
            "start 101",
            "start 102",
            "message 1 of 9 to 101: true",
            "message 1 of 9 to 102: false",
            "message 3 of 10 to 101: true",
            "message 3 of 10 to 102: true",
            "digest [2, 5] of 10 to 101",
            "digest [2, 5] of 10 to 102",
            "digest [4] of -1 to 101",
            "digest [4] of -1 to 102",
        ]
    );
    assert_eq!(report, Some((9, 7)));
}

#[test]
fn settled_messages_change_nothing_for_the_next_queues() {
    let lookup = |n: u128| match n {
        1 => candidate(1, RempMessageStatus::RempNew, 10),
        6 => candidate(6, RempMessageStatus::RempTimeout, 10),
        7 => candidate(7, rejected_status(), 4),
        8 => candidate(8, accepted_status(), 10),
        _ => None,
    };
    let (with, _) = forward(&manager(), lookup, vec![6, 7, 1, 8, 9]);
    let (without, _) = forward(&manager(), lookup, vec![1]);
    assert_eq!(with, without);
}

#[test]
fn nothing_to_forward_still_starts_the_next_queues() {
    let (log, report) = forward(&manager(), |_| None, vec![]);
    assert_eq!(log, vec!["start 101", "start 102"]);
    assert_eq!(report, Some((0, 0)));
}

#[test]
fn forwarding_needs_next_queues_and_a_list() {
    let mut alone = Manager::new(true, shard());
    alone.set_queues(Ok(guarded(100)));
    let (log, report) = forward(&alone, |_| None, vec![1, 2]);
    assert_eq!(log.len(), 0);
    assert_eq!(report, None);
    assert!(matches!(
        manager().forward_messages(ForwardEvent::Listed {
            new_cc_seqno: 12,
            listed: Err(RmqError::Service("no list".to_string())),
        }),
        ForwardStep::Return(None)
    ));
}

#[test]
fn forwarding_takes_the_list_from_the_current_queue() {
    let manager = manager();
    let queue = manager.cur_queue().unwrap();
    queue.lock().unwrap().add_to_collation_queue(&id(5), Some(message(5, 1)), true).unwrap();
    queue.lock().unwrap().collect_messages_for_collation(CollectEvent::Called);
    let listed = queue.lock().unwrap().list_pending_for_forwarding();
    assert_eq!(listed, Ok(vec![id(5)]));
    match manager.forward_messages(ForwardEvent::Called { new_cc_seqno: 12 }) {
        ForwardStep::ListPending { queue: asked, new_cc_seqno } => {
            assert!(Arc::ptr_eq(&queue, &asked));
            assert_eq!(new_cc_seqno, 12);
        }
        _ => panic!("there is a current queue"),
    }
}

#[test]
fn catchains_of_next_queues_differ_throughout() {
    let mut manager = manager();
    let offer = |manager: &mut Manager, n: u128| {
        let same: Vec<bool> = manager.next_queues().iter().map(|q| number(q) == n).collect();
        manager.add_new_queue(Ok(guarded(n)), &same)
    };
    assert_eq!(offer(&mut manager, 101), AddQueueOutcome::AlreadyThere);
    assert_eq!(offer(&mut manager, 103), AddQueueOutcome::Added);
    manager.set_queues(Ok(guarded(101)));
    assert_eq!(offer(&mut manager, 103), AddQueueOutcome::AlreadyThere);
    manager.stop(StopAllEvent::Stopped);
    assert_eq!(offer(&mut manager, 103), AddQueueOutcome::Added);
    let next: Vec<u128> = manager.next_queues().iter().map(number).collect();
    assert_eq!(next, vec![101, 102, 103]);
}

#[test]
fn block_leaves_the_other_messages_alone() {
    let manager = manager();
    let queue = manager.cur_queue().unwrap();
    // Messages 1 and 2 go to the collator, message 3 waits; only message 1 was changed.
    for n in [1, 2, 3] {
        queue.lock().unwrap().add_to_collation_queue(&id(n), Some(message(n, n as u32)), true).unwrap();
    }
    queue.lock().unwrap().collect_messages_for_collation(CollectEvent::Called);
    queue.lock().unwrap().collect_messages_for_collation(CollectEvent::Called);
    let returned = vec![(id(1), 1)];
    let mut event = ShardBlockEvent::Downgraded { queue: queue.clone(), returned };
    while let ShardBlockStep::Requeue { message_id, add_if_absent, queue, returned, done } =
        manager.process_messages_from_accepted_shardblock(event)
    {
        let reply =
            queue.lock().unwrap().add_to_collation_queue(&message_id, Some(message(1, 1)), add_if_absent);
        assert_eq!(reply, Ok(()));
        event = ShardBlockEvent::Requeued { queue, returned, done, reply };
    }
    let mut queue = queue.lock().unwrap();
    assert_eq!(queue.received_messages_count(), 3);
    assert_eq!(
        queue.collect_messages_for_collation(CollectEvent::Called),
        CollectStep::GetMessageWithStatus { message_id: id(1), count: 0 }
    );
    assert_eq!(
        queue.collect_messages_for_collation(CollectEvent::Called),
        CollectStep::GetMessageWithStatus { message_id: id(3), count: 0 }
    );
    assert_eq!(
        queue.collect_messages_for_collation(CollectEvent::Called),
        CollectStep::Return(Ok(0))
    );
}
