//! How queues and managers are named in messages to humans.
use vstd::prelude::*;
use vstd::string::StringExecFns;

use crate::ident::UInt256;
use crate::manager::RmqQueueManager;
use crate::message_queue::MessageQueue;
use crate::message_queue::RempCatchainInfo;

verus! {

/// The digit of value `d`, below 16.
pub open spec fn digit(d: int) -> char {
    if d < 10 {
        (0x30 + d) as char
    } else {
        (0x57 + d) as char
    }
}

/// A number in decimal notation.
pub open spec fn decimal(n: nat) -> Seq<char>
    decreases n,
{
    if n < 10 {
        seq![digit(n as int)]
    } else {
        decimal(n / 10).push(digit((n % 10) as int))
    }
}

/// The low `width` digits of a number in hexadecimal notation.
pub open spec fn hexadecimal(n: nat, width: nat) -> Seq<char>
    decreases width,
{
    if width == 0 {
        Seq::empty()
    } else {
        hexadecimal(n / 16, (width - 1) as nat).push(digit((n % 16) as int))
    }
}

/// The 64 hexadecimal digits of an identifier.
pub open spec fn hex_of(id: UInt256) -> Seq<char> {
    hexadecimal(id.hi as nat, 32) + hexadecimal(id.lo as nat, 32)
}

/// The name of a queue: this validator's index, the queue, the shard, the masterchain session, and
/// the catchain instance.
pub open spec fn queue_text(
    info: RempCatchainInfo,
    shard: Seq<char>,
    instance_id: Seq<char>,
) -> Seq<char> {
    decimal(info.local_idx as nat) + "*"@ + hex_of(info.queue_id) + "*"@ + shard + "*"@ + decimal(
        info.master_cc_seqno as nat,
    ) + "@"@ + instance_id
}

/// The name of a manager: that of its current queue.
pub open spec fn manager_text(queue: Option<&str>) -> Seq<char> {
    match queue {
        Some(text) => text@,
        None => "*none*"@,
    }
}

fn append_digit(out: &mut String, d: u8)
    requires
        d < 16,
    ensures
        final(out)@ == old(out)@.push(digit(d as int)),
{
    let text = match d {
        0 => "0",
        1 => "1",
        2 => "2",
        3 => "3",
        4 => "4",
        5 => "5",
        6 => "6",
        7 => "7",
        8 => "8",
        9 => "9",
        10 => "a",
        11 => "b",
        12 => "c",
        13 => "d",
        14 => "e",
        _ => "f",
    };
    proof {
        reveal_strlit("0");
        reveal_strlit("1");
        reveal_strlit("2");
        reveal_strlit("3");
        reveal_strlit("4");
        reveal_strlit("5");
        reveal_strlit("6");
        reveal_strlit("7");
        reveal_strlit("8");
        reveal_strlit("9");
        reveal_strlit("a");
        reveal_strlit("b");
        reveal_strlit("c");
        reveal_strlit("d");
        reveal_strlit("e");
        reveal_strlit("f");
        assert(text@ =~= seq![digit(d as int)]);
    }
    out.append(text);
    assert(out@ =~= old(out)@.push(digit(d as int)));
}

fn append_decimal(out: &mut String, n: u64)
    ensures
        final(out)@ == old(out)@ + decimal(n as nat),
    decreases n,
{
    if n >= 10 {
        append_decimal(out, n / 10);
    }
    append_digit(out, (n % 10) as u8);
    assert(out@ =~= old(out)@ + decimal(n as nat));
}

fn append_hexadecimal(out: &mut String, n: u128, width: u32)
    ensures
        final(out)@ == old(out)@ + hexadecimal(n as nat, width as nat),
    decreases width,
{
    if width > 0 {
        append_hexadecimal(out, n / 16, width - 1);
        append_digit(out, (n % 16) as u8);
    }
    assert(out@ =~= old(out)@ + hexadecimal(n as nat, width as nat));
}

impl UInt256 {
    /// The identifier as 64 hexadecimal digits.
    pub fn to_hex_string(&self) -> (text: String)
        ensures
            text@ == hex_of(*self),
    {
        let mut text = String::new();
        append_hexadecimal(&mut text, self.hi, 32);
        append_hexadecimal(&mut text, self.lo, 32);
        assert(text@ =~= hex_of(*self));
        text
    }
}

impl MessageQueue {
    /// The name of the queue, given those of its shard and of its catchain instance.
    pub fn to_text(&self, shard: &str, instance_id: &str) -> (text: String)
        ensures
            text@ == queue_text(self.info(), shard@, instance_id@),
    {
        let mut text = String::new();
        append_decimal(&mut text, self.catchain_info().local_idx);
        text.append("*");
        text.append(self.catchain_info().queue_id.to_hex_string().as_str());
        text.append("*");
        text.append(shard);
        text.append("*");
        append_decimal(&mut text, self.catchain_info().master_cc_seqno as u64);
        text.append("@");
        text.append(instance_id);
        assert(text@ =~= queue_text(self.info(), shard@, instance_id@));
        text
    }

    /// What there is to say of the messages of the queue, given its name and its role.
    pub fn print_messages(&self, queue: &str, name: &str) -> (text: String)
        ensures
            text@ == "Queue "@ + queue@ + " (queue name "@ + name@ + "), received message count "@
                + decimal(self@.marks.len()) + " (message printing not supported)"@,
    {
        let mut text = "Queue ".to_string();
        text.append(queue);
        text.append(" (queue name ");
        text.append(name);
        text.append("), received message count ");
        append_decimal(&mut text, self.received_messages_count() as u64);
        text.append(" (message printing not supported)");
        text
    }
}

impl<Q> RmqQueueManager<Q> {
    /// The name of a manager, given that of its current queue.
    pub fn to_text(queue: Option<&str>) -> (text: String)
        ensures
            text@ == manager_text(queue),
    {
        match queue {
            Some(text) => text.to_string(),
            None => "*none*".to_string(),
        }
    }

    /// What there is to say of the manager, given the names of its shard and of its current queue.
    pub fn info_string(&self, shard: &str, queue: Option<&str>) -> (text: String)
        ensures
            text@ == "ReliableMessageQueue for shard "@ + shard@ + ": "@ + if self@.enabled {
                manager_text(queue)
            } else {
                "disabled"@
            },
    {
        let mut text = "ReliableMessageQueue for shard ".to_string();
        text.append(shard);
        text.append(": ");
        if self.is_service_enabled() {
            text.append(Self::to_text(queue).as_str());
        } else {
            text.append("disabled");
        }
        text
    }
}

} // verus!
