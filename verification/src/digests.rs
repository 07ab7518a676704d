//! Rejected messages, grouped by the masterchain session that they come from.
use vstd::prelude::*;

use crate::ident::UInt256;
use crate::message::seqno_from_field;
use crate::message::seqno_of_field;
use crate::message::seqno_to_field;
use crate::message::RmqMessageDigest;

verus! {

/// The position of session `seqno` in a listing, or the length of the listing.
pub open spec fn place_of(listing: Seq<(int, Seq<UInt256>)>, seqno: int) -> int
    decreases listing.len(),
{
    if listing.len() == 0 || listing[0].0 == seqno {
        0
    } else {
        1 + place_of(listing.drop_first(), seqno)
    }
}

/// The messages that a listing has under session `seqno`.
pub open spec fn listed_under(listing: Seq<(int, Seq<UInt256>)>, seqno: int) -> Seq<UInt256> {
    let at = place_of(listing, seqno);
    if at < listing.len() {
        listing[at].1
    } else {
        Seq::empty()
    }
}

/// The listing with one more message under session `seqno`.
pub open spec fn with_rejected(listing: Seq<(int, Seq<UInt256>)>, seqno: int, id: UInt256) -> Seq<
    (int, Seq<UInt256>),
> {
    let at = place_of(listing, seqno);
    if at < listing.len() {
        listing.update(at, (seqno, listing[at].1.push(id)))
    } else {
        listing.push((seqno, seq![id]))
    }
}

/// No session is listed twice, and none without messages.
pub open spec fn well_listed(listing: Seq<(int, Seq<UInt256>)>) -> bool {
    &&& forall|i: int| 0 <= i < listing.len() ==> (#[trigger] listing[i]).1.len() > 0
    &&& forall|i: int, j: int|
        0 <= i < j < listing.len() ==> (#[trigger] listing[i]).0 != (#[trigger] listing[j]).0
}

/// `place_of` finds the first place of a session.
pub proof fn lemma_place_of(listing: Seq<(int, Seq<UInt256>)>, seqno: int)
    ensures
        0 <= place_of(listing, seqno) <= listing.len(),
        forall|i: int|
            0 <= i < place_of(listing, seqno) ==> (#[trigger] listing[i]).0 != seqno,
        place_of(listing, seqno) < listing.len() ==> listing[place_of(listing, seqno)].0 == seqno,
    decreases listing.len(),
{
    if listing.len() > 0 && listing[0].0 != seqno {
        let rest = listing.drop_first();
        lemma_place_of(rest, seqno);
        assert forall|i: int| 0 <= i < place_of(listing, seqno) implies (#[trigger] listing[i]).0
            != seqno by {
            if i > 0 {
                assert(rest[i - 1] == listing[i]);
            }
        }
    }
}

/// A place before which the session is not listed, and where it is or the listing ends, is the one
/// that `place_of` finds.
proof fn lemma_place_is(listing: Seq<(int, Seq<UInt256>)>, seqno: int, at: int)
    requires
        0 <= at <= listing.len(),
        forall|i: int| 0 <= i < at ==> (#[trigger] listing[i]).0 != seqno,
        at < listing.len() ==> listing[at].0 == seqno,
    ensures
        place_of(listing, seqno) == at,
{
    lemma_place_of(listing, seqno);
    let found = place_of(listing, seqno);
    if found < at {
        assert(listing[found].0 != seqno);
    } else if at < found {
        assert(listing[at].0 != seqno);
    }
}

/// Listing one more message keeps a listing in order, appends the message under its session, and
/// changes nothing under the others.
pub proof fn lemma_with_rejected(
    listing: Seq<(int, Seq<UInt256>)>,
    seqno: int,
    id: UInt256,
    other: int,
)
    requires
        well_listed(listing),
    ensures
        well_listed(with_rejected(listing, seqno, id)),
        listed_under(with_rejected(listing, seqno, id), seqno) == listed_under(listing, seqno).push(
            id,
        ),
        other != seqno ==> listed_under(with_rejected(listing, seqno, id), other) == listed_under(
            listing,
            other,
        ),
{
    let after = with_rejected(listing, seqno, id);
    let at = place_of(listing, seqno);
    lemma_place_of(listing, seqno);
    lemma_place_of(listing, other);
    lemma_place_is(after, seqno, at);
    assert(listed_under(after, seqno) =~= listed_under(listing, seqno).push(id));
    if other != seqno {
        let there = place_of(listing, other);
        if there == listing.len() && at == listing.len() {
            lemma_place_is(after, other, there + 1);
        } else {
            lemma_place_is(after, other, there);
        }
    }
}

/// Digests of rejected messages, one for each session.
pub struct RejectedDigests {
    digests: Vec<RmqMessageDigest>,
}

spec fn listing_of(digests: Seq<RmqMessageDigest>) -> Seq<(int, Seq<UInt256>)> {
    digests.map_values(
        |d: RmqMessageDigest| (seqno_of_field(d.masterchain_seqno), d.messages@),
    )
}

impl View for RejectedDigests {
    type V = Seq<(int, Seq<UInt256>)>;

    closed spec fn view(&self) -> Seq<(int, Seq<UInt256>)> {
        listing_of(self.digests@)
    }
}

impl RejectedDigests {
    #[verifier::type_invariant]
    spec fn well_formed(self) -> bool {
        well_listed(listing_of(self.digests@))
    }

    /// No digests.
    pub fn new() -> (digests: RejectedDigests)
        ensures
            digests@ == Seq::<(int, Seq<UInt256>)>::empty(),
    {
        let digests = RejectedDigests { digests: Vec::new() };
        assert(digests@ =~= Seq::<(int, Seq<UInt256>)>::empty());
        digests
    }

    /// The number of digests.
    pub fn len(&self) -> (count: usize)
        ensures
            count == self@.len(),
    {
        self.digests.len()
    }

    /// Adds a rejected message to the digest of its session.
    pub fn add_rejected(&mut self, master_cc: u32, message_id: UInt256)
        ensures
            final(self)@ == with_rejected(old(self)@, master_cc as int, message_id),
    {
        proof {
            use_type_invariant(&*self);
        }
        let mut digests: Vec<RmqMessageDigest> = Vec::new();
        std::mem::swap(&mut self.digests, &mut digests);
        let ghost prior = listing_of(digests@);
        let mut at: usize = 0;
        while at < digests.len() && seqno_from_field(digests[at].masterchain_seqno) != master_cc
            invariant
                at <= digests.len(),
                listing_of(digests@) == prior,
                forall|i: int| 0 <= i < at ==> (#[trigger] prior[i]).0 != master_cc,
            decreases digests.len() - at,
        {
            assert(prior[at as int].0 == seqno_of_field(digests@[at as int].masterchain_seqno));
            at = at + 1;
        }
        proof {
            if at < digests.len() {
                assert(prior[at as int].0 == seqno_of_field(digests@[at as int].masterchain_seqno));
            }
            lemma_place_is(prior, master_cc as int, at as int);
            lemma_with_rejected(prior, master_cc as int, message_id, 0);
        }
        if at < digests.len() {
            digests[at].messages.push(message_id);
        } else {
            let mut messages: Vec<UInt256> = Vec::new();
            messages.push(message_id);
            digests.push(
                RmqMessageDigest { masterchain_seqno: seqno_to_field(master_cc), messages },
            );
        }
        assert(listing_of(digests@) =~= with_rejected(prior, master_cc as int, message_id));
        self.digests = digests;
    }

    /// A copy of the digest at a position.
    pub fn digest(&self, at: usize) -> (digest: RmqMessageDigest)
        requires
            at < self@.len(),
        ensures
            seqno_of_field(digest.masterchain_seqno) == self@[at as int].0,
            digest.messages@ == self@[at as int].1,
            digest.messages@.len() > 0,
    {
        proof {
            use_type_invariant(self);
        }
        let from = &self.digests[at];
        assert(self@[at as int] == (seqno_of_field(from.masterchain_seqno), from.messages@));
        let mut messages: Vec<UInt256> = Vec::new();
        let mut i: usize = 0;
        while i < from.messages.len()
            invariant
                i <= from.messages.len(),
                messages@ == from.messages@.take(i as int),
            decreases from.messages.len() - i,
        {
            messages.push(from.messages[i]);
            i = i + 1;
        }
        assert(messages@ =~= from.messages@);
        RmqMessageDigest { masterchain_seqno: from.masterchain_seqno, messages }
    }
}

} // verus!
