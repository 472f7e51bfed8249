//! The check of one quota rule against one scope instance, and the questions
//! and answers exchanged with the predicate evaluator and the counter store.

use vstd::prelude::*;
use crate::quota::definition::QuotaDefinition;
use crate::quota::message::{QuotaKey, Reservation, reservations};
use crate::quota::scope::ScopeInstance;

verus! {

/// Something the check has to learn from a collaborator before it can go on.
#[derive(Debug, PartialEq, Eq)]
pub enum Query {
    /// Does the expression of the rule at index `definition` match `scope`?
    Matches { definition: usize, scope: ScopeInstance },
    /// What does the byte-size counter under `key` hold?
    SizeUsed { key: Vec<u8> },
    /// What does the message-count counter under `key` hold?
    CountUsed { key: Vec<u8> },
}

/// Mathematical value of a [`Query`].
pub enum Question {
    Matches { definition: nat, scope: ScopeInstance },
    SizeUsed { key: Seq<u8> },
    CountUsed { key: Seq<u8> },
}

impl View for Query {
    type V = Question;

    open spec fn view(&self) -> Question {
        match self {
            Query::Matches { definition, scope } => Question::Matches {
                definition: *definition as nat,
                scope: *scope,
            },
            Query::SizeUsed { key } => Question::SizeUsed { key: key@ },
            Query::CountUsed { key } => Question::CountUsed { key: key@ },
        }
    }
}

/// What a collaborator came back with.
#[derive(Clone, Copy, Debug, PartialEq, Eq, Structural)]
pub enum Answer {
    /// The predicate evaluator's result.
    Matched(bool),
    /// The value the counter store holds.
    Counter(i64),
    /// The collaborator failed, or the counter does not exist.
    Unavailable,
}

impl Answer {
    /// A match is only what the evaluator positively reported; a failure to
    /// evaluate counts as no match.
    pub open spec fn matched(self) -> bool {
        self == Answer::Matched(true)
    }

    /// Usage is what the store reported; an absent counter or a failed read
    /// counts as no usage.
    pub open spec fn used(self) -> int {
        match self {
            Answer::Counter(value) => value as int,
            _ => 0,
        }
    }

    /// Reads the answer as the outcome of a predicate evaluation.
    pub fn is_match(&self) -> (r: bool)
        ensures
            r == self.matched(),
    {
        match self {
            Answer::Matched(true) => true,
            _ => false,
        }
    }

    /// Reads the answer as a counter value.
    pub fn usage(&self) -> (r: i64)
        ensures
            r == self.used(),
    {
        match self {
            Answer::Counter(value) => *value,
            _ => 0,
        }
    }
}

/// Adding `delta` to the current usage would go beyond `limit`.
pub open spec fn exceeds(used: int, delta: int, limit: u64) -> bool {
    used + delta > limit
}

/// Decides whether adding `delta` to the current usage would go beyond
/// `limit`.
pub fn would_exceed(used: i64, delta: u64, limit: u64) -> (over: bool)
    ensures
        over == exceeds(used as int, delta as int, limit),
{
    (used as i128) + (delta as i128) > (limit as i128)
}

/// The rule applies to the scope it was evaluated against: it has an
/// expression, and the expression matched.
pub open spec fn rule_applies(definition: &QuotaDefinition, matched: bool) -> bool {
    definition.predicate@.len() > 0 && matched
}

/// The size reservation of a rule that limits size, for the counter `key`
/// and the correlation id `id`.
pub open spec fn size_entry(definition: &QuotaDefinition, key: Seq<u8>, id: u64) -> Seq<Reservation> {
    if definition.max_size is Some {
        seq![Reservation::Size { key, id }]
    } else {
        Seq::empty()
    }
}

/// The count reservation of a rule that limits the number of messages.
pub open spec fn count_entry(definition: &QuotaDefinition, key: Seq<u8>, id: u64) -> Seq<Reservation> {
    if definition.max_messages is Some {
        seq![Reservation::Count { key, id }]
    } else {
        Seq::empty()
    }
}

/// A rule that applies rejects the message when its size limit or its count
/// limit would be exceeded.
pub open spec fn rule_rejects(
    definition: &QuotaDefinition,
    used_size: int,
    used_count: int,
    size: u64,
) -> bool {
    ||| definition.max_size is Some && exceeds(used_size, size as int, definition.max_size->0)
    ||| definition.max_messages is Some && exceeds(used_count, 1, definition.max_messages->0)
}

/// Outcome of checking one rule against one scope instance: `None` when the
/// rule rejects the message, otherwise the reservations it contributes. A
/// rule that does not apply contributes nothing; one that applies
/// contributes a size reservation if it limits size, then a count
/// reservation if it limits the number of messages.
pub open spec fn check_outcome(
    definition: &QuotaDefinition,
    matched: bool,
    used_size: int,
    used_count: int,
    key: Seq<u8>,
    size: u64,
    id: u64,
) -> Option<Seq<Reservation>> {
    if !rule_applies(definition, matched) {
        Some(Seq::empty())
    } else if rule_rejects(definition, used_size, used_count, size) {
        None
    } else {
        Some(size_entry(definition, key, id) + count_entry(definition, key, id))
    }
}

pub(crate) fn copy_key(key: &Vec<u8>) -> (copy: Vec<u8>)
    ensures
        copy@ == key@,
{
    key.clone()
}

/// Checks one rule against one scope instance, given what the collaborators
/// reported: whether the rule's expression matched, and what the size and
/// count counters under `key` hold. Returns whether the message passes. On a
/// pass the rule's reservations are appended to `refs`; on a rejection
/// `refs` is left as it was.
pub fn check_quota(
    definition: &QuotaDefinition,
    matched: Answer,
    used_size: Answer,
    used_count: Answer,
    key: &Vec<u8>,
    size: u64,
    id: u64,
    refs: &mut Vec<QuotaKey>,
) -> (pass: bool)
    ensures
        pass == check_outcome(
            definition,
            matched.matched(),
            used_size.used(),
            used_count.used(),
            key@,
            size,
            id,
        ) is Some,
        pass ==> reservations(final(refs)@) == reservations(old(refs)@) + check_outcome(
            definition,
            matched.matched(),
            used_size.used(),
            used_count.used(),
            key@,
            size,
            id,
        )->0,
        !pass ==> final(refs)@ == old(refs)@,
{
    if definition.predicate.as_str().is_empty() || !matched.is_match() {
        assert(reservations(refs@) + Seq::<Reservation>::empty() == reservations(refs@));
        return true;
    }
    if let Some(max_size) = definition.max_size {
        if would_exceed(used_size.usage(), size, max_size) {
            return false;
        }
    }
    if let Some(max_messages) = definition.max_messages {
        if would_exceed(used_count.usage(), 1, max_messages) {
            return false;
        }
    }
    let ghost before = reservations(refs@);
    if definition.max_size.is_some() {
        refs.push(QuotaKey::Size { key: copy_key(key), id });
    }
    let ghost middle = reservations(refs@);
    assert(middle == before + size_entry(definition, key@, id));
    if definition.max_messages.is_some() {
        refs.push(QuotaKey::Count { key: copy_key(key), id });
    }
    assert(reservations(refs@) == middle + count_entry(definition, key@, id));
    assert(reservations(refs@) == before + (size_entry(definition, key@, id) + count_entry(
        definition,
        key@,
        id,
    )));
    true
}

/// A rule that sets neither limit has no effect: whatever the collaborators
/// report, it passes and reserves nothing.
pub proof fn lemma_rule_without_limits_passes(
    definition: &QuotaDefinition,
    matched: bool,
    used_size: int,
    used_count: int,
    key: Seq<u8>,
    size: u64,
    id: u64,
)
    requires
        definition.max_size is None,
        definition.max_messages is None,
    ensures
        check_outcome(definition, matched, used_size, used_count, key, size, id) == Some(
            Seq::<Reservation>::empty(),
        ),
{
    assert(size_entry(definition, key, id) + count_entry(definition, key, id) == Seq::<
        Reservation,
    >::empty());
}

/// A rule whose expression does not match the scope is skipped: it passes
/// and reserves nothing, however far beyond its limits the counters are.
pub proof fn lemma_unmatched_rule_passes(
    definition: &QuotaDefinition,
    used_size: int,
    used_count: int,
    key: Seq<u8>,
    size: u64,
    id: u64,
)
    ensures
        check_outcome(definition, false, used_size, used_count, key, size, id) == Some(
            Seq::<Reservation>::empty(),
        ),
{
}

/// A rule that applies passes exactly when neither of its limits would be
/// exceeded, and then reserves one entry per limit it sets, the size entry
/// first.
pub proof fn lemma_applied_rule(
    definition: &QuotaDefinition,
    used_size: int,
    used_count: int,
    key: Seq<u8>,
    size: u64,
    id: u64,
)
    requires
        definition.predicate@.len() > 0,
    ensures
        check_outcome(definition, true, used_size, used_count, key, size, id) is Some <==> {
            &&& definition.max_size is Some ==> used_size + size <= definition.max_size->0
            &&& definition.max_messages is Some ==> used_count + 1 <= definition.max_messages->0
        },
        check_outcome(definition, true, used_size, used_count, key, size, id) is Some
            ==> check_outcome(definition, true, used_size, used_count, key, size, id)->0.len() == (
        if definition.max_size is Some {
            1int
        } else {
            0int
        }) + (if definition.max_messages is Some {
            1int
        } else {
            0int
        }),
{
}

} // verus!
