use reliable_message_queue::collation_order::Waiting;
use reliable_message_queue::digests::RejectedDigests;
use reliable_message_queue::ident::{ShardIdent, UInt256, SHARD_FULL};
use reliable_message_queue::manager::RmqQueueManager;
use reliable_message_queue::message::RmqMessageDigest;
use reliable_message_queue::message_queue::{MessageQueue, RempCatchainInfo};

fn queue_of(local_idx: u64, master_cc_seqno: u32) -> MessageQueue {
    MessageQueue::create(Ok(RempCatchainInfo {
        local_idx,
        local_key_id: UInt256 { hi: 0, lo: 7 },
        queue_id: UInt256 { hi: 0x0123_4567_89ab_cdef, lo: 0xfedc_ba98_7654_3210 },
        shard: ShardIdent { workchain_id: 0, prefix: SHARD_FULL },
        master_cc_seqno,
    }))
    .ok()
    .unwrap()
}

#[test]
fn identifiers_are_written_in_hexadecimal() {
    assert_eq!(
        UInt256 { hi: 0, lo: 0 }.to_hex_string(),
        "0000000000000000000000000000000000000000000000000000000000000000"
    );
    assert_eq!(
        UInt256 { hi: 1 << 127, lo: 0xabc }.to_hex_string(),
        "8000000000000000000000000000000000000000000000000000000000000abc"
    );
    assert_eq!(
        UInt256 { hi: u128::MAX, lo: u128::MAX }.to_hex_string(),
        "ffffffffffffffffffffffffffffffffffffffffffffffffffffffffffffffff"
    );
}

#[test]
fn queue_is_named_by_its_catchain() {
    assert_eq!(
        queue_of(12, 405).to_text("0:8000000000000000", "inst"),
        "12*00000000000000000123456789abcdef0000000000000000fedcba9876543210*0:8000000000000000*405@inst"
    );
    assert_eq!(
        queue_of(0, u32::MAX).to_text("s", ""),
        "0*00000000000000000123456789abcdef0000000000000000fedcba9876543210*s*4294967295@"
    );
}

#[test]
fn message_count_is_shown() {
    assert_eq!(
        queue_of(1, 1).print_messages("q", "cur"),
        "Queue q (queue name cur), received message count 0 (message printing not supported)"
    );
}

#[test]
fn manager_is_named_by_its_current_queue() {
    let shard = ShardIdent { workchain_id: 0, prefix: SHARD_FULL };
    let enabled: RmqQueueManager<MessageQueue> = RmqQueueManager::new(true, shard);
    let disabled: RmqQueueManager<MessageQueue> = RmqQueueManager::new(false, shard);
    assert_eq!(RmqQueueManager::<MessageQueue>::to_text(None), "*none*");
    assert_eq!(RmqQueueManager::<MessageQueue>::to_text(Some("q")), "q");
    assert_eq!(
        enabled.info_string("0:80", Some("q")),
        "ReliableMessageQueue for shard 0:80: q"
    );
    assert_eq!(
        enabled.info_string("0:80", None),
        "ReliableMessageQueue for shard 0:80: *none*"
    );
    assert_eq!(
        disabled.info_string("0:80", Some("q")),
        "ReliableMessageQueue for shard 0:80: disabled"
    );
}

#[test]
fn identifiers_are_ordered_numerically() {
    let low = UInt256 { hi: 0, lo: u128::MAX };
    let high = UInt256 { hi: 1, lo: 0 };
    assert!(low.is_below(&high));
    assert!(!high.is_below(&low));
    assert!(!low.is_below(&low));
    let early = Waiting { timestamp: 1, message_id: low };
    let late = Waiting { timestamp: 2, message_id: high };
    let early_high = Waiting { timestamp: 1, message_id: high };
    assert!(early.is_before(&late));
    assert!(early_high.is_before(&early));
    assert!(!early.is_before(&early));
}

#[test]
fn digests_gather_messages_by_session() {
    let one = UInt256 { hi: 0, lo: 1 };
    let two = UInt256 { hi: 0, lo: 2 };
    let three = UInt256 { hi: 0, lo: 3 };
    let mut digests = RejectedDigests::new();
    assert_eq!(digests.len(), 0);
    digests.add_rejected(8, one);
    digests.add_rejected(0x8000_0000, two);
    digests.add_rejected(8, three);
    assert_eq!(digests.len(), 2);
    assert_eq!(
        digests.digest(0),
        RmqMessageDigest { masterchain_seqno: 8, messages: vec![one, three] }
    );
    assert_eq!(
        digests.digest(1),
        RmqMessageDigest { masterchain_seqno: i32::MIN, messages: vec![two] }
    );
}
