use reliable_message_queue::error::RmqError;
use reliable_message_queue::ident::{ShardIdent, UInt256, SHARD_FULL};
use reliable_message_queue::message_queue::{
    MessageQueue, RempCatchainInfo, StartEvent, StartStep, StopStep, RMQ_STOP_POLLING_INTERVAL_MS,
};
use reliable_message_queue::queue_impl::{MessageQueueImpl, MessageQueueStatus};

fn id(n: u128) -> UInt256 {
    UInt256 { hi: 0, lo: n }
}

fn info() -> RempCatchainInfo {
    RempCatchainInfo {
        local_idx: 3,
        local_key_id: id(70),
        queue_id: id(80),
        shard: ShardIdent { workchain_id: 0, prefix: SHARD_FULL },
        master_cc_seqno: 10,
    }
}

fn new_queue() -> MessageQueue {
    match MessageQueue::create(Ok(info())) {
        Ok(queue) => queue,
        Err(_) => panic!("the catchain is described"),
    }
}

#[test]
fn queue_is_created_for_its_catchain() {
    let queue = new_queue();
    assert_eq!(*queue.catchain_info(), info());
    assert_eq!(queue.received_messages_count(), 0);
}

#[test]
fn queue_without_catchain_is_not_created() {
    let error = RmqError::Service("no such catchain".to_string());
    match MessageQueue::create(Err(error)) {
        Ok(_) => panic!("there is no catchain"),
        Err(e) => assert_eq!(e, RmqError::Service("no such catchain".to_string())),
    }
}

#[test]
fn start_makes_a_queue_active() {
    let mut queue = new_queue();
    assert_eq!(queue.start(StartEvent::Called), StartStep::StartCatchain);
    assert_eq!(queue.start(StartEvent::CatchainStarted(Ok(()))), StartStep::InitInstance);
    assert_eq!(queue.start(StartEvent::InstanceInitialised(Ok(()))), StartStep::Return(Ok(())));
    assert_eq!(queue.stop(), Ok(StopStep::StopCatchain { queue_id: id(80) }));
}

#[test]
fn start_is_refused_after_the_first_time() {
    let mut queue = new_queue();
    queue.start(StartEvent::Called);
    assert_eq!(
        queue.start(StartEvent::Called),
        StartStep::Return(Err(RmqError::WrongQueueStatus {
            actual: MessageQueueStatus::Starting,
            required: MessageQueueStatus::Created,
        }))
    );
    queue.start(StartEvent::InstanceInitialised(Ok(())));
    assert_eq!(
        queue.start(StartEvent::Called),
        StartStep::Return(Err(RmqError::WrongQueueStatus {
            actual: MessageQueueStatus::Active,
            required: MessageQueueStatus::Created,
        }))
    );
}

#[test]
fn start_fails_with_its_services() {
    let mut queue = new_queue();
    queue.start(StartEvent::Called);
    assert_eq!(
        queue.start(StartEvent::CatchainStarted(Err("no catchain".to_string()))),
        StartStep::Return(Err(RmqError::Service("no catchain".to_string())))
    );
    assert_eq!(
        queue.start(StartEvent::InstanceInitialised(Err("no instance".to_string()))),
        StartStep::Return(Err(RmqError::Service("no instance".to_string())))
    );
    assert_eq!(queue.stop(), Ok(StopStep::Wait));
}

#[test]
fn activation_needs_a_starting_queue() {
    let mut queue = new_queue();
    assert_eq!(
        queue.start(StartEvent::InstanceInitialised(Ok(()))),
        StartStep::Return(Err(RmqError::WrongQueueStatus {
            actual: MessageQueueStatus::Created,
            required: MessageQueueStatus::Starting,
        }))
    );
}

#[test]
fn created_queue_is_stopped_without_its_catchain() {
    let mut queue = new_queue();
    assert_eq!(queue.stop(), Ok(StopStep::Return));
}

#[test]
fn starting_queue_is_waited_for() {
    let mut queue = new_queue();
    queue.start(StartEvent::Called);
    assert_eq!(queue.stop(), Ok(StopStep::Wait));
    assert_eq!(queue.stop(), Ok(StopStep::Wait));
    queue.start(StartEvent::InstanceInitialised(Ok(())));
    assert_eq!(queue.stop(), Ok(StopStep::StopCatchain { queue_id: id(80) }));
    assert_eq!(RMQ_STOP_POLLING_INTERVAL_MS, 1);
}

#[test]
fn stopping_queue_stays_so() {
    let mut queue = new_queue();
    queue.stop().unwrap();
    assert_eq!(queue.stop(), Err(RmqError::AlreadyStopping));
    assert_eq!(
        queue.start(StartEvent::Called),
        StartStep::Return(Err(RmqError::WrongQueueStatus {
            actual: MessageQueueStatus::Stopping,
            required: MessageQueueStatus::Created,
        }))
    );
    assert_eq!(queue.stop(), Err(RmqError::AlreadyStopping));
}

#[test]
fn statuses_are_ordered_as_a_queue_lives() {
    assert!(MessageQueueStatus::Created < MessageQueueStatus::Starting);
    assert!(MessageQueueStatus::Starting < MessageQueueStatus::Active);
    assert!(MessageQueueStatus::Active < MessageQueueStatus::Stopping);
}

#[test]
fn earliest_message_is_taken_first() {
    let mut queue = MessageQueueImpl::new();
    assert_eq!(queue.status(), MessageQueueStatus::Created);
    assert_eq!(queue.add_to_collation_queue(&id(1), 30, true), Ok((true, 1)));
    assert_eq!(queue.add_to_collation_queue(&id(2), 10, true), Ok((true, 2)));
    assert_eq!(queue.add_to_collation_queue(&id(3), 20, true), Ok((true, 3)));
    assert_eq!(queue.add_to_collation_queue(&id(4), 40, true), Ok((true, 4)));
    assert_eq!(queue.take_first_for_collation(), Ok(Some((id(2), 10))));
    assert_eq!(queue.take_first_for_collation(), Ok(Some((id(3), 20))));
    assert_eq!(queue.take_first_for_collation(), Ok(Some((id(1), 30))));
    assert_eq!(queue.take_first_for_collation(), Ok(Some((id(4), 40))));
    assert_eq!(queue.take_first_for_collation(), Ok(None));
    assert_eq!(queue.count(), 4);
}

#[test]
fn greater_identifier_is_taken_first_among_equal_timestamps() {
    let mut queue = MessageQueueImpl::new();
    let high = UInt256 { hi: 1, lo: 0 };
    queue.add_to_collation_queue(&id(5), 7, true).unwrap();
    queue.add_to_collation_queue(&high, 7, true).unwrap();
    queue.add_to_collation_queue(&id(9), 7, true).unwrap();
    assert_eq!(queue.take_first_for_collation(), Ok(Some((high, 7))));
    assert_eq!(queue.take_first_for_collation(), Ok(Some((id(9), 7))));
    assert_eq!(queue.take_first_for_collation(), Ok(Some((id(5), 7))));
}

#[test]
fn waiting_message_is_skipped() {
    let mut queue = MessageQueueImpl::new();
    queue.add_to_collation_queue(&id(1), 5, true).unwrap();
    assert_eq!(queue.add_to_collation_queue(&id(1), 4, true), Ok((false, 1)));
    assert_eq!(queue.add_to_collation_queue(&id(1), 4, false), Ok((false, 1)));
    assert_eq!(queue.take_first_for_collation(), Ok(Some((id(1), 5))));
    assert_eq!(queue.take_first_for_collation(), Ok(None));
}

#[test]
fn taken_message_returns_with_a_new_timestamp() {
    let mut queue = MessageQueueImpl::new();
    queue.add_to_collation_queue(&id(1), 5, true).unwrap();
    queue.take_first_for_collation().unwrap();
    assert_eq!(queue.add_to_collation_queue(&id(1), 8, false), Ok((true, 1)));
    assert_eq!(queue.take_first_for_collation(), Ok(Some((id(1), 8))));
}

#[test]
fn absent_message_is_refused() {
    let mut queue = MessageQueueImpl::new();
    assert_eq!(
        queue.add_to_collation_queue(&id(1), 5, false),
        Err(RmqError::NotInCollationSet(id(1)))
    );
    assert_eq!(queue.count(), 0);
    assert_eq!(queue.take_first_for_collation(), Ok(None));
}

#[test]
fn taken_messages_stay_under_collation() {
    let mut queue = MessageQueueImpl::new();
    queue.add_to_collation_queue(&id(2), 1, true).unwrap();
    queue.add_to_collation_queue(&id(1), 2, true).unwrap();
    queue.take_first_for_collation().unwrap();
    let mut listed = queue.list_pending_for_forwarding().unwrap();
    listed.sort();
    assert_eq!(listed, vec![id(1), id(2)]);
    let mut marks = queue.list_with_marks();
    marks.sort();
    assert_eq!(marks, vec![(id(1), true), (id(2), false)]);
}

#[test]
fn many_messages_come_out_sorted() {
    let mut queue = MessageQueueImpl::new();
    let mut seed: u32 = 12345;
    for n in 0..500u128 {
        seed = seed.wrapping_mul(1664525).wrapping_add(1013904223);
        assert_eq!(
            queue.add_to_collation_queue(&id(n), seed % 50, true),
            Ok((true, n as usize + 1))
        );
    }
    let mut previous: Option<(UInt256, u32)> = None;
    for _ in 0..500 {
        let next = queue.take_first_for_collation().unwrap().unwrap();
        if let Some(before) = previous {
            assert!(before.1 < next.1 || (before.1 == next.1 && before.0 > next.0));
        }
        previous = Some(next);
    }
    assert_eq!(queue.take_first_for_collation(), Ok(None));
    assert_eq!(queue.count(), 500);
}

#[test]
fn admitted_message_is_skipped_under_either_flag() {
    for (first, second) in [(true, true), (true, false)] {
        let mut queue = MessageQueueImpl::new();
        assert_eq!(queue.add_to_collation_queue(&id(1), 5, first), Ok((true, 1)));
        assert_eq!(queue.add_to_collation_queue(&id(1), 2, second), Ok((false, 1)));
        assert_eq!(queue.take_first_for_collation(), Ok(Some((id(1), 5))));
        assert_eq!(queue.add_to_collation_queue(&id(1), 7, false), Ok((true, 1)));
        assert_eq!(queue.add_to_collation_queue(&id(1), 3, true), Ok((false, 1)));
        assert_eq!(queue.take_first_for_collation(), Ok(Some((id(1), 7))));
        assert_eq!(queue.take_first_for_collation(), Ok(None));
    }
}
