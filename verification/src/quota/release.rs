//! Release of the reservations whose scope instance has reached a terminal
//! delivery status.

use vstd::prelude::*;
use crate::quota::message::{Message, QuotaKey, Reservation, reservations};
use crate::quota::scope::{
    domain_correlation_id, domain_id, recipient_correlation_id, recipient_id, sender_id,
};

verus! {

/// The kind of counter a decrement applies to.
#[derive(Clone, Copy, Debug, PartialEq, Eq, Structural)]
pub enum CounterKind {
    /// Number of messages in flight.
    Count,
    /// Cumulative size of the messages in flight, in bytes.
    Size,
}

/// One counter decrement for the caller to apply together with the rest of
/// its batch: the counter under `key` is to be lowered by `amount`.
#[derive(Clone, Debug, PartialEq, Eq)]
pub struct CounterDecrement {
    pub counter: CounterKind,
    pub key: Vec<u8>,
    pub amount: u64,
}

/// Mathematical value of a [`CounterDecrement`].
pub struct Decrement {
    pub counter: CounterKind,
    pub key: Seq<u8>,
    pub amount: u64,
}

impl Decrement {
    /// The relative adjustment the decrement stands for.
    pub open spec fn delta(self) -> int {
        -(self.amount as int)
    }
}

impl View for CounterDecrement {
    type V = Decrement;

    open spec fn view(&self) -> Decrement {
        Decrement { counter: self.counter, key: self.key@, amount: self.amount }
    }
}

impl CounterDecrement {
    /// The relative adjustment to hand to a store of signed 64-bit counters:
    /// the negated amount, or `None` where that is below the range of such
    /// a counter.
    pub fn delta(&self) -> (d: Option<i64>)
        ensures
            match d {
                Some(value) => value == self@.delta(),
                None => self@.delta() < i64::MIN,
            },
    {
        if self.amount <= 0x7fff_ffff_ffff_ffff {
            Some(-(self.amount as i64))
        } else if self.amount == 0x8000_0000_0000_0000 {
            Some(i64::MIN)
        } else {
            None
        }
    }
}

/// The decrements held in a batch, in order.
pub open spec fn decrements(batch: Seq<CounterDecrement>) -> Seq<Decrement> {
    batch.map_values(|d: CounterDecrement| d@)
}

/// The decrement that settles a reservation of a message of `size` bytes:
/// one message for a count reservation, the message's size for a size
/// reservation, on the counter the reservation was made against.
pub open spec fn decrement_of(reservation: Reservation, size: u64) -> Decrement {
    match reservation {
        Reservation::Count { key, .. } => Decrement { counter: CounterKind::Count, key, amount: 1 },
        Reservation::Size { key, .. } => Decrement { counter: CounterKind::Size, key, amount: size },
    }
}

/// The decrements that settle `settled`, in order.
pub open spec fn decrements_of(settled: Seq<Reservation>, size: u64) -> Seq<Decrement> {
    settled.map_values(|k: Reservation| decrement_of(k, size))
}

/// Whether `id` occurs in `ids`.
pub fn contains_id(ids: &Vec<u64>, id: u64) -> (found: bool)
    ensures
        found == ids@.contains(id),
{
    let mut i: usize = 0;
    while i < ids.len()
        invariant
            i <= ids@.len(),
            forall|k: int| 0 <= k < i ==> ids@[k] != id,
        decreases ids@.len() - i,
    {
        if ids[i] == id {
            return true;
        }
        i = i + 1;
    }
    false
}

impl QuotaKey {
    /// A copy of the reservation.
    pub fn duplicate(&self) -> (copy: QuotaKey)
        ensures
            copy@ == self@,
    {
        match self {
            QuotaKey::Count { key, id } => QuotaKey::Count { key: key.clone(), id: *id },
            QuotaKey::Size { key, id } => QuotaKey::Size { key: key.clone(), id: *id },
        }
    }

    /// The decrement that settles the reservation for a message of `size`
    /// bytes.
    pub fn settle(&self, size: u64) -> (done: CounterDecrement)
        ensures
            done@ == decrement_of(self@, size),
    {
        match self {
            QuotaKey::Count { key, .. } => CounterDecrement {
                counter: CounterKind::Count,
                key: key.clone(),
                amount: 1,
            },
            QuotaKey::Size { key, .. } => CounterDecrement {
                counter: CounterKind::Size,
                key: key.clone(),
                amount: size,
            },
        }
    }
}

impl Message {
    /// The domain at index `d` has reached a terminal status and `id` is its
    /// correlation id.
    pub open spec fn domain_settles(&self, d: int, id: u64) -> bool {
        &&& 0 <= d < self.domains@.len()
        &&& self.domains@[d].status.terminal()
        &&& id == domain_id(d)
    }

    /// The recipient at index `r` has reached a terminal status and `id` is
    /// its correlation id.
    pub open spec fn recipient_settles(&self, r: int, id: u64) -> bool {
        &&& 0 <= r < self.recipients@.len()
        &&& self.recipients@[r].status.terminal()
        &&& id == recipient_id(r)
    }

    /// `id` is the correlation id of a domain or of a recipient of the
    /// message that has reached a terminal status.
    pub open spec fn is_terminal_id(&self, id: u64) -> bool {
        ||| exists|d: int| self.domain_settles(d, id)
        ||| exists|r: int| self.recipient_settles(r, id)
    }

    /// The test a reservation passes when its scope instance is terminal.
    pub open spec fn settles(&self) -> spec_fn(Reservation) -> bool {
        |k: Reservation| self.is_terminal_id(k.id())
    }

    /// The test a reservation passes when its scope instance is not terminal.
    pub open spec fn keeps(&self) -> spec_fn(Reservation) -> bool {
        |k: Reservation| !self.is_terminal_id(k.id())
    }

    /// The reservations of the ledger that a release settles, in ledger order.
    pub open spec fn settled(&self) -> Seq<Reservation> {
        self.ledger().filter(self.settles())
    }

    /// The reservations of the ledger that a release leaves in place, in
    /// ledger order.
    pub open spec fn unsettled(&self) -> Seq<Reservation> {
        self.ledger().filter(self.keeps())
    }

    /// Collects the correlation ids of the domains and recipients that have
    /// reached a terminal status: domains first, then recipients, each in
    /// message order.
    pub fn terminal_ids(&self) -> (ids: Vec<u64>)
        ensures
            forall|id: u64| ids@.contains(id) <==> self.is_terminal_id(id),
    {
        let mut ids: Vec<u64> = Vec::new();
        let mut d: usize = 0;
        while d < self.domains.len()
            invariant
                d <= self.domains@.len(),
                forall|k: int| 0 <= k < ids@.len() ==> self.is_terminal_id(#[trigger] ids@[k]),
                forall|j: int, id: u64| 0 <= j < d && #[trigger] self.domain_settles(j, id) ==> ids@.contains(id),
            decreases self.domains@.len() - d,
        {
            if self.domains[d].status.is_terminal() {
                let id = domain_correlation_id(d);
                let ghost before = ids@;
                ids.push(id);
                proof {
                    assert(self.domain_settles(d as int, id));
                    assert(ids@[before.len() as int] == id);
                    assert forall|j: int, other: u64| 0 <= j < d + 1 && #[trigger] self.domain_settles(j, other)
                        implies ids@.contains(other) by {
                        if j < d {
                            assert(before.contains(other));
                            let k = choose|k: int| 0 <= k < before.len() && before[k] == other;
                            assert(ids@[k] == other);
                        }
                    }
                }
            }
            d = d + 1;
        }
        let mut r: usize = 0;
        while r < self.recipients.len()
            invariant
                r <= self.recipients@.len(),
                forall|k: int| 0 <= k < ids@.len() ==> self.is_terminal_id(#[trigger] ids@[k]),
                forall|j: int, id: u64| #[trigger] self.domain_settles(j, id) ==> ids@.contains(id),
                forall|j: int, id: u64| 0 <= j < r && #[trigger] self.recipient_settles(j, id) ==> ids@.contains(id),
            decreases self.recipients@.len() - r,
        {
            if self.recipients[r].status.is_terminal() {
                let id = recipient_correlation_id(r);
                let ghost before = ids@;
                ids.push(id);
                proof {
                    assert(self.recipient_settles(r as int, id));
                    assert(ids@[before.len() as int] == id);
                    assert forall|other: u64| before.contains(other) implies ids@.contains(other) by {
                        let k = choose|k: int| 0 <= k < before.len() && before[k] == other;
                        assert(ids@[k] == other);
                    }
                }
            }
            r = r + 1;
        }
        ids
    }

    /// Drains the settled reservations from the ledger. Every reservation
    /// whose correlation id belongs to a domain or a recipient with a
    /// terminal status leaves the ledger and is appended to `batch` as a
    /// decrement: by one for a count reservation, by the message's size for a
    /// size reservation. All other reservations stay, unchanged and in order.
    /// Nothing else of the message changes, and what `batch` already held is
    /// kept.
    pub fn release_quota(&mut self, batch: &mut Vec<CounterDecrement>)
        ensures
            final(self).same_envelope(old(self)),
            final(self).ledger() == old(self).unsettled(),
            decrements(final(batch)@) == decrements(old(batch)@) + decrements_of(
                old(self).settled(),
                old(self).size,
            ),
    {
        let ids = self.terminal_ids();
        let size = self.size;
        let ghost before = *self;
        let ghost ledger = self.ledger();
        let ghost earlier = decrements(batch@);
        let mut kept: Vec<QuotaKey> = Vec::new();
        let mut i: usize = 0;
        proof {
            reveal(Seq::filter);
            assert(ledger.take(0).filter(before.keeps()) == Seq::<Reservation>::empty());
            assert(ledger.take(0).filter(before.settles()) == Seq::<Reservation>::empty());
            assert(reservations(kept@) == Seq::<Reservation>::empty());
            assert(decrements(batch@) == earlier + decrements_of(
                Seq::<Reservation>::empty(),
                size,
            ));
        }
        while i < self.quota_keys.len()
            invariant
                *self == before,
                ledger == before.ledger(),
                size == before.size,
                i <= self.quota_keys@.len(),
                forall|id: u64| ids@.contains(id) <==> before.is_terminal_id(id),
                reservations(kept@) == ledger.take(i as int).filter(before.keeps()),
                decrements(batch@) == earlier + decrements_of(
                    ledger.take(i as int).filter(before.settles()),
                    size,
                ),
            decreases self.quota_keys@.len() - i,
        {
            let entry = &self.quota_keys[i];
            let ghost k = entry@;
            let ghost seen = ledger.take(i as int);
            let ghost held = kept@;
            let ghost sent = batch@;
            proof {
                assert(ledger.take(i + 1) == seen.push(k));
                seen.lemma_filter_push(k, before.keeps());
                seen.lemma_filter_push(k, before.settles());
            }
            if contains_id(&ids, entry.id()) {
                let done = entry.settle(size);
                batch.push(done);
                proof {
                    assert(decrements(batch@) == decrements(sent).push(decrement_of(k, size)));
                    assert(decrements_of(seen.filter(before.settles()).push(k), size)
                        == decrements_of(seen.filter(before.settles()), size).push(
                        decrement_of(k, size),
                    ));
                }
            } else {
                kept.push(entry.duplicate());
                proof {
                    assert(reservations(kept@) == reservations(held).push(k));
                }
            }
            i = i + 1;
        }
        proof {
            assert(ledger.take(i as int) == ledger);
        }
        self.quota_keys = kept;
    }
}

/// A filter that no element passes yields the empty sequence, and one that
/// every element passes yields the sequence itself.
proof fn lemma_filter_uniform(s: Seq<Reservation>, pred: spec_fn(Reservation) -> bool)
    ensures
        (forall|i: int| 0 <= i < s.len() ==> !pred(#[trigger] s[i])) ==> s.filter(pred)
            == Seq::<Reservation>::empty(),
        (forall|i: int| 0 <= i < s.len() ==> pred(#[trigger] s[i])) ==> s.filter(pred) == s,
    decreases s.len(),
{
    reveal(Seq::filter);
    if s.len() > 0 {
        lemma_filter_uniform(s.drop_last(), pred);
        assert(s.drop_last().push(s.last()) == s);
    }
}

/// Two complementary filters split a sequence: the parts add up to its
/// length, and each element is found in the part whose test it passes.
proof fn lemma_filter_split(
    s: Seq<Reservation>,
    pred: spec_fn(Reservation) -> bool,
    rest: spec_fn(Reservation) -> bool,
)
    requires
        forall|k: Reservation| #[trigger] rest(k) == !pred(k),
    ensures
        s.filter(pred).len() + s.filter(rest).len() == s.len(),
        forall|i: int| 0 <= i < s.len() && pred(#[trigger] s[i]) ==> s.filter(pred).contains(s[i]),
        forall|i: int| 0 <= i < s.len() && rest(#[trigger] s[i]) ==> s.filter(rest).contains(s[i]),
        forall|i: int| 0 <= i < s.filter(pred).len() ==> pred(#[trigger] s.filter(pred)[i]),
        forall|i: int| 0 <= i < s.filter(rest).len() ==> rest(#[trigger] s.filter(rest)[i]),
    decreases s.len(),
{
    reveal(Seq::filter);
    if s.len() > 0 {
        let front = s.drop_last();
        lemma_filter_split(front, pred, rest);
        let last = s.last();
        assert forall|i: int| 0 <= i < s.len() && pred(#[trigger] s[i]) implies s.filter(
            pred,
        ).contains(s[i]) by {
            if i < s.len() - 1 {
                assert(front[i] == s[i]);
                let j = choose|j: int| 0 <= j < front.filter(pred).len() && front.filter(pred)[j] == s[i];
                assert(s.filter(pred)[j] == s[i]);
            } else {
                assert(s.filter(pred)[front.filter(pred).len() as int] == s[i]);
            }
        }
        assert forall|i: int| 0 <= i < s.len() && rest(#[trigger] s[i]) implies s.filter(
            rest,
        ).contains(s[i]) by {
            if i < s.len() - 1 {
                assert(front[i] == s[i]);
                let j = choose|j: int| 0 <= j < front.filter(rest).len() && front.filter(rest)[j] == s[i];
                assert(s.filter(rest)[j] == s[i]);
            } else {
                assert(s.filter(rest)[front.filter(rest).len() as int] == s[i]);
            }
        }
    }
}

/// A release settles each reservation at most once and loses none: the
/// settled and the remaining reservations together are as many as the ledger
/// held; a reservation leaves exactly when its correlation id is terminal,
/// and stays exactly when it is not.
pub proof fn lemma_release_partitions_ledger(message: Message)
    ensures
        message.settled().len() + message.unsettled().len() == message.ledger().len(),
        forall|i: int|
            0 <= i < message.ledger().len() && message.is_terminal_id(
                (#[trigger] message.ledger()[i]).id(),
            ) ==> message.settled().contains(message.ledger()[i]),
        forall|i: int|
            0 <= i < message.ledger().len() && !message.is_terminal_id(
                (#[trigger] message.ledger()[i]).id(),
            ) ==> message.unsettled().contains(message.ledger()[i]),
        forall|i: int|
            0 <= i < message.settled().len() ==> message.is_terminal_id(
                (#[trigger] message.settled()[i]).id(),
            ),
        forall|i: int|
            0 <= i < message.unsettled().len() ==> !message.is_terminal_id(
                (#[trigger] message.unsettled()[i]).id(),
            ),
{
    lemma_filter_split(message.ledger(), message.settles(), message.keeps());
}

/// Releasing is idempotent: once a release has run, a second one on the
/// same delivery state finds nothing to settle, emits no decrement and
/// leaves the ledger as it is.
pub proof fn lemma_second_release_is_empty(first: Message, second: Message)
    requires
        second.same_envelope(&first),
        second.ledger() == first.unsettled(),
    ensures
        second.settled() == Seq::<Reservation>::empty(),
        decrements_of(second.settled(), second.size) == Seq::<Decrement>::empty(),
        second.unsettled() == second.ledger(),
{
    lemma_filter_split(first.ledger(), first.settles(), first.keeps());
    assert forall|id: u64| second.is_terminal_id(id) == first.is_terminal_id(id) by {
        assert forall|d: int| second.domain_settles(d, id) == first.domain_settles(d, id) by {}
        assert forall|r: int| second.recipient_settles(r, id) == first.recipient_settles(r, id) by {}
    }
    lemma_filter_uniform(second.ledger(), second.settles());
    lemma_filter_uniform(second.ledger(), second.keeps());
}

/// Once a single recipient, and nothing else, has reached a terminal
/// status, a release settles exactly the reservations tagged with that
/// recipient's correlation id. The reservations made for the sender are not
/// among them.
pub proof fn lemma_recipient_settles_only_its_own(message: Message, r: int)
    requires
        0 <= r < message.recipients@.len(),
        message.recipients@[r].status.terminal(),
        forall|d: int| 0 <= d < message.domains@.len() ==> !(#[trigger] message.domains@[d]).status.terminal(),
        forall|o: int|
            0 <= o < message.recipients@.len() && o != r ==> !(#[trigger] message.recipients@[o]).status.terminal(),
    ensures
        forall|id: u64| message.is_terminal_id(id) <==> id == recipient_id(r),
        recipient_id(r) != sender_id(),
        message.settled() == message.ledger().filter(|k: Reservation| k.id() == recipient_id(r)),
{
    assert(message.recipients.len() == message.recipients@.len());
    assert(message.recipient_settles(r, recipient_id(r)));
    let by_id = |k: Reservation| k.id() == recipient_id(r);
    lemma_filter_same(message.ledger(), message.settles(), by_id);
}

/// As long as no domain has reached a terminal status, the reservations
/// made for the sender stay in the ledger whatever the recipients' statuses
/// are.
pub proof fn lemma_sender_untouched_by_recipients(message: Message)
    requires
        forall|d: int| 0 <= d < message.domains@.len() ==> !(#[trigger] message.domains@[d]).status.terminal(),
    ensures
        !message.is_terminal_id(sender_id()),
        forall|i: int|
            0 <= i < message.ledger().len() && (#[trigger] message.ledger()[i]).id() == sender_id()
                ==> message.unsettled().contains(message.ledger()[i]),
{
    assert(message.recipients.len() == message.recipients@.len());
    lemma_release_partitions_ledger(message);
}

/// Filters that agree on every element select the same elements.
proof fn lemma_filter_same(
    s: Seq<Reservation>,
    p: spec_fn(Reservation) -> bool,
    q: spec_fn(Reservation) -> bool,
)
    requires
        forall|k: Reservation| #[trigger] p(k) == q(k),
    ensures
        s.filter(p) == s.filter(q),
    decreases s.len(),
{
    reveal(Seq::filter);
    if s.len() > 0 {
        lemma_filter_same(s.drop_last(), p, q);
    }
}

} // verus!
