//! What the texts say.
use vstd::prelude::*;

use crate::ident::UInt256;
use crate::laws_status::number_of;
use crate::manager::RmqQueueManager;
use crate::message_queue::MessageQueue;
use crate::text::decimal;
use crate::text::digit;
use crate::text::hex_of;
use crate::text::hexadecimal;

verus! {

/// The value of a digit.
pub open spec fn digit_value(c: char) -> int {
    if '0' <= c && c <= '9' {
        c as int - '0' as int
    } else {
        c as int - 'a' as int + 10
    }
}

/// The character is a digit of a number in this base, which is at most 16.
pub open spec fn is_digit(c: char, base: int) -> bool {
    &&& ('0' <= c && c <= '9') || ('a' <= c && c <= 'f')
    &&& digit_value(c) < base
}

/// The text is made of digits.
pub open spec fn is_numeral(text: Seq<char>, base: int) -> bool {
    forall|i: int| 0 <= i < text.len() ==> is_digit(#[trigger] text[i], base)
}

/// The number that a text of digits says.
pub open spec fn number_in(text: Seq<char>, base: int) -> int
    decreases text.len(),
{
    if text.len() == 0 {
        0
    } else {
        base * number_in(text.drop_last(), base) + digit_value(text.last())
    }
}

spec fn power16(exponent: nat) -> int
    decreases exponent,
{
    if exponent == 0 {
        1
    } else {
        16 * power16((exponent - 1) as nat)
    }
}

proof fn lemma_digit(d: int, base: int)
    requires
        0 <= d < base <= 16,
    ensures
        is_digit(digit(d), base),
        digit_value(digit(d)) == d,
{
}

/// A number in decimal notation says the number, in decimal digits and without leading zeros.
pub proof fn law_decimal(n: nat)
    ensures
        is_numeral(decimal(n), 10),
        number_in(decimal(n), 10) == n,
        decimal(n).len() > 0,
        decimal(n).len() > 1 ==> decimal(n)[0] != '0',
    decreases n,
{
    let text = decimal(n);
    lemma_digit((n % 10) as int, 10);
    if n < 10 {
        assert(text.drop_last() =~= Seq::empty());
        assert(number_in(text.drop_last(), 10) == 0);
    } else {
        law_decimal(n / 10);
        let before = decimal(n / 10);
        assert(text =~= before.push(digit((n % 10) as int)));
        assert(text.drop_last() =~= before);
        assert forall|i: int| 0 <= i < text.len() implies is_digit(#[trigger] text[i], 10) by {
            if i < before.len() {
                assert(text[i] == before[i]);
            }
        }
        if before.len() == 1 {
            assert(n / 10 > 0);
            assert(before.drop_last() =~= Seq::empty());
            assert(number_in(before.drop_last(), 10) == 0);
            assert(digit_value(before[0]) == n / 10);
        }
    }
}

proof fn lemma_hexadecimal(n: nat, width: nat)
    requires
        n < power16(width),
    ensures
        is_numeral(hexadecimal(n, width), 16),
        number_in(hexadecimal(n, width), 16) == n,
        hexadecimal(n, width).len() == width,
    decreases width,
{
    if width > 0 {
        let less = (width - 1) as nat;
        let before = hexadecimal(n / 16, less);
        let text = hexadecimal(n, width);
        lemma_digit((n % 16) as int, 16);
        lemma_hexadecimal(n / 16, less);
        assert(text =~= before.push(digit((n % 16) as int)));
        assert(text.drop_last() =~= before);
        assert forall|i: int| 0 <= i < text.len() implies is_digit(#[trigger] text[i], 16) by {
            if i < before.len() {
                assert(text[i] == before[i]);
            }
        }
    }
}

proof fn lemma_number_of_parts(high: Seq<char>, low: Seq<char>)
    ensures
        number_in(high + low, 16) == number_in(high, 16) * power16(low.len()) + number_in(low, 16),
    decreases low.len(),
{
    if low.len() == 0 {
        assert(high + low =~= high);
    } else {
        let before = low.drop_last();
        lemma_number_of_parts(high, before);
        assert((high + low).drop_last() =~= high + before);
        let h = number_in(high, 16);
        let p = power16(before.len());
        assert(16 * (h * p) == h * (16 * p)) by (nonlinear_arith);
    }
}

/// An identifier is written as 64 hexadecimal digits that say its number.
pub proof fn law_identifiers_are_written(id: UInt256, text: String)
    requires
        call_ensures(UInt256::to_hex_string, (&id,), text),
    ensures
        text@.len() == 64,
        is_numeral(text@, 16),
        number_in(text@, 16) == number_of(id),
        text@ == hex_of(id),
{
    reveal_with_fuel(power16, 33);
    assert(power16(32) == 0x1_0000_0000_0000_0000_0000_0000_0000_0000);
    let high = hexadecimal(id.hi as nat, 32);
    let low = hexadecimal(id.lo as nat, 32);
    lemma_hexadecimal(id.hi as nat, 32);
    lemma_hexadecimal(id.lo as nat, 32);
    lemma_number_of_parts(high, low);
    assert(text@ =~= high + low);
    assert forall|i: int| 0 <= i < text@.len() implies is_digit(#[trigger] text@[i], 16) by {
        if i < 32 {
            assert(text@[i] == high[i]);
        } else {
            assert(text@[i] == low[i - 32]);
        }
    }
}

/// The name of a queue gives this validator's index, the queue, the shard and the session, parted by
/// asterisks, and after an at sign the catchain instance.
pub proof fn law_name_of_a_queue(queue: MessageQueue, shard: &str, instance_id: &str, text: String)
    requires
        call_ensures(MessageQueue::to_text, (&queue, shard, instance_id), text),
    ensures
        text@ == decimal(queue.info().local_idx as nat) + seq!['*'] + hex_of(queue.info().queue_id)
            + seq!['*'] + shard@ + seq!['*'] + decimal(queue.info().master_cc_seqno as nat)
            + seq!['@'] + instance_id@,
{
    reveal_strlit("*");
    reveal_strlit("@");
    assert("*"@ =~= seq!['*']);
    assert("@"@ =~= seq!['@']);
}

/// What is shown of the messages of a queue is their number, with the name and the role of the queue.
pub proof fn law_message_count_is_shown(queue: MessageQueue, name: &str, role: &str, text: String)
    requires
        call_ensures(MessageQueue::print_messages, (&queue, name, role), text),
    ensures
        text@ == "Queue "@ + name@ + " (queue name "@ + role@ + "), received message count "@
            + decimal(queue@.marks.dom().len()) + " (message printing not supported)"@,
{
}

/// A manager has the name of its current queue. What is told of it names its shard, and that name
/// exactly if it is switched on.
pub proof fn law_name_of_a_manager<Q>(
    manager: RmqQueueManager<Q>,
    shard: &str,
    queue: Option<&str>,
    name: String,
    text: String,
)
    requires
        call_ensures(RmqQueueManager::<Q>::to_text, (queue,), name),
        call_ensures(RmqQueueManager::<Q>::info_string, (&manager, shard, queue), text),
    ensures
        queue matches Some(q) ==> name@ == q@,
        queue is None ==> name@ == "*none*"@,
        manager@.enabled ==> text@ == "ReliableMessageQueue for shard "@ + shard@ + ": "@ + name@,
        !manager@.enabled ==> text@ == "ReliableMessageQueue for shard "@ + shard@ + ": "@
            + "disabled"@,
{
}

} // verus!
