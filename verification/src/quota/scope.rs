//! Correlation ids and counter keys of the scopes a quota rule applies to.

use vstd::prelude::*;
use vstd::bytes::{
    lemma_auto_spec_u64_to_from_le_bytes, spec_u64_from_le_bytes, spec_u64_to_le_bytes,
    u64_to_le_bytes,
};
use vstd::utf8::{encode_utf8, encode_utf8_decode_utf8};
use crate::quota::definition::{QuotaDefinition, QuotaScope};
use crate::quota::message::Message;

verus! {

/// Number of identifiers available to recipients below the first domain id.
pub const DOMAIN_ID_STRIDE: u64 = 0x1_0000_0000;

/// Correlation id of a reservation made for the sender of a message.
pub open spec fn sender_id() -> u64 {
    0
}

/// Correlation id of a reservation made for the domain at index `d`:
/// `d + 1` moved up by 32 bits, within 64 bits.
pub open spec fn domain_id(d: int) -> u64 {
    (((d + 1) % 0x1_0000_0000) * 0x1_0000_0000) as u64
}

/// Correlation id of a reservation made for the recipient at index `r`:
/// `r + 1`, within 64 bits.
pub open spec fn recipient_id(r: int) -> u64 {
    ((r + 1) % 0x1_0000_0000_0000_0000) as u64
}

/// Computes the correlation id of the domain at index `domain_idx`.
pub fn domain_correlation_id(domain_idx: usize) -> (id: u64)
    ensures
        id == domain_id(domain_idx as int),
{
    let low: u64 = (domain_idx as u64) % DOMAIN_ID_STRIDE;
    let next: u64 = (low + 1) % DOMAIN_ID_STRIDE;
    next * DOMAIN_ID_STRIDE
}

/// Computes the correlation id of the recipient at index `rcpt_idx`.
pub fn recipient_correlation_id(rcpt_idx: usize) -> (id: u64)
    ensures
        id == recipient_id(rcpt_idx as int),
{
    let wide: u64 = rcpt_idx as u64;
    if wide == u64::MAX {
        0
    } else {
        wide + 1
    }
}

/// As long as a domain index stays below 2^32 - 1, its correlation id is the
/// plain left shift of `d + 1` by 32 bits.
pub proof fn lemma_domain_id_is_shift(d: u64)
    requires
        d + 1 < 0x1_0000_0000,
    ensures
        domain_id(d as int) == ((d + 1) as u64) << 32,
{
    let x: u64 = (d + 1) as u64;
    assert(x < 0x1_0000_0000 ==> x << 32 == x * 0x1_0000_0000) by (bit_vector);
}

/// No recipient shares a correlation id with a domain: for a message of at
/// most 2^32 - 1 recipients and any number of domains, the id of recipient
/// `r` differs from the id of domain `d`.
pub proof fn lemma_recipient_id_differs_from_domain_id(r: int, d: int)
    requires
        0 <= r,
        r + 1 < 0x1_0000_0000,
        0 <= d,
    ensures
        recipient_id(r) != domain_id(d),
{
    let q = (d + 1) % 0x1_0000_0000;
    assert(0 <= q < 0x1_0000_0000);
    assert(q * 0x1_0000_0000 == 0 || q * 0x1_0000_0000 >= 0x1_0000_0000) by (nonlinear_arith)
        requires
            0 <= q,
    ;
    assert(q * 0x1_0000_0000 <= 0xffff_ffff * 0x1_0000_0000) by (nonlinear_arith)
        requires
            q <= 0xffff_ffff,
    ;
}

/// A recipient never carries the sender's correlation id.
pub proof fn lemma_recipient_id_differs_from_sender_id(r: int)
    requires
        0 <= r,
        r + 1 < 0x1_0000_0000_0000_0000,
    ensures
        recipient_id(r) != sender_id(),
{
}

/// Below 2^32 - 1 domains, a domain never carries the sender's correlation
/// id, and two different domains never share one.
pub proof fn lemma_domain_ids_distinct(d: int, e: int)
    requires
        0 <= d,
        d + 1 < 0x1_0000_0000,
        0 <= e,
        e + 1 < 0x1_0000_0000,
    ensures
        domain_id(d) != sender_id(),
        d != e ==> domain_id(d) != domain_id(e),
{
    assert((d + 1) * 0x1_0000_0000 > 0) by (nonlinear_arith)
        requires
            d >= 0,
    ;
    assert((d + 1) * 0x1_0000_0000 <= 0xffff_ffff * 0x1_0000_0000) by (nonlinear_arith)
        requires
            d + 1 <= 0xffff_ffff,
    ;
    assert((e + 1) * 0x1_0000_0000 <= 0xffff_ffff * 0x1_0000_0000) by (nonlinear_arith)
        requires
            e + 1 <= 0xffff_ffff,
    ;
    assert(d != e ==> (d + 1) * 0x1_0000_0000 != (e + 1) * 0x1_0000_0000) by (nonlinear_arith);
}

/// A concrete instance of a scope within one message: the message as a
/// whole, one of its domains, or one of its recipients.
#[derive(Clone, Copy, Debug, PartialEq, Eq, Structural)]
pub enum ScopeInstance {
    Sender,
    RecipientDomain { domain_idx: usize },
    Recipient { rcpt_idx: usize, domain_idx: usize },
}

impl ScopeInstance {
    /// The tier the instance belongs to.
    pub open spec fn kind(self) -> QuotaScope {
        match self {
            ScopeInstance::Sender => QuotaScope::Sender,
            ScopeInstance::RecipientDomain { .. } => QuotaScope::RecipientDomain,
            ScopeInstance::Recipient { .. } => QuotaScope::Recipient,
        }
    }

    /// The correlation id that tags the reservations made for the instance.
    pub open spec fn correlation(self) -> u64 {
        match self {
            ScopeInstance::Sender => sender_id(),
            ScopeInstance::RecipientDomain { domain_idx } => domain_id(domain_idx as int),
            ScopeInstance::Recipient { rcpt_idx, .. } => recipient_id(rcpt_idx as int),
        }
    }

    /// The instance points into `message`: its indices are in range, and a
    /// recipient names the domain it belongs to.
    pub open spec fn in_message(self, message: &Message) -> bool {
        match self {
            ScopeInstance::Sender => true,
            ScopeInstance::RecipientDomain { domain_idx } => domain_idx < message.domains@.len(),
            ScopeInstance::Recipient { rcpt_idx, domain_idx } => {
                &&& rcpt_idx < message.recipients@.len()
                &&& domain_idx == message.recipients@[rcpt_idx as int].domain_idx
            },
        }
    }

    /// The text that tells this instance from the others of its tier: the
    /// sender's address, the domain's name or the recipient's address.
    pub open spec fn subject(self, message: &Message) -> Seq<char> {
        match self {
            ScopeInstance::Sender => message.sender@,
            ScopeInstance::RecipientDomain { domain_idx } => message.domains@[domain_idx as int].name@,
            ScopeInstance::Recipient { rcpt_idx, .. } => message.recipients@[rcpt_idx as int].address@,
        }
    }

    /// Computes the tier of the instance.
    pub fn scope(&self) -> (kind: QuotaScope)
        ensures
            kind == self.kind(),
    {
        match self {
            ScopeInstance::Sender => QuotaScope::Sender,
            ScopeInstance::RecipientDomain { .. } => QuotaScope::RecipientDomain,
            ScopeInstance::Recipient { .. } => QuotaScope::Recipient,
        }
    }

    /// Computes the correlation id of the instance.
    pub fn correlation_id(&self) -> (id: u64)
        ensures
            id == self.correlation(),
    {
        match self {
            ScopeInstance::Sender => 0,
            ScopeInstance::RecipientDomain { domain_idx } => domain_correlation_id(*domain_idx),
            ScopeInstance::Recipient { rcpt_idx, .. } => recipient_correlation_id(*rcpt_idx),
        }
    }
}

/// The byte that marks the tier in a counter key.
pub open spec fn scope_tag(kind: QuotaScope) -> u8 {
    match kind {
        QuotaScope::Sender => 0,
        QuotaScope::RecipientDomain => 1,
        QuotaScope::Recipient => 2,
    }
}

/// The counter key of a rule applied to a scope instance: the length of the
/// rule's id as eight little-endian bytes, the id in UTF-8, the tier's tag
/// and the instance's subject in UTF-8.
pub open spec fn counter_key(id: Seq<char>, kind: QuotaScope, subject: Seq<char>) -> Seq<u8> {
    spec_u64_to_le_bytes(encode_utf8(id).len() as u64) + encode_utf8(id) + seq![scope_tag(kind)]
        + encode_utf8(subject)
}

/// The counter key of `definition` applied to `scope` within `message`.
pub open spec fn scope_counter_key(
    definition: &QuotaDefinition,
    message: &Message,
    scope: ScopeInstance,
) -> Seq<u8> {
    counter_key(definition.id@, scope.kind(), scope.subject(message))
}

fn push_all(out: &mut Vec<u8>, bytes: &[u8])
    ensures
        final(out)@ == old(out)@ + bytes@,
{
    let mut i: usize = 0;
    while i < bytes.len()
        invariant
            i <= bytes@.len(),
            out@ == old(out)@ + bytes@.subrange(0, i as int),
        decreases bytes@.len() - i,
    {
        out.push(bytes[i]);
        i = i + 1;
    }
    assert(bytes@.subrange(0, i as int) == bytes@);
}

/// Builds the counter key of `definition` applied to `scope` within
/// `message`. The key depends on the rule's id, the tier and the subject
/// only, so the same rule applied to the same sender, domain or recipient
/// yields the same key in every message and every process.
pub fn scope_key(definition: &QuotaDefinition, message: &Message, scope: &ScopeInstance) -> (key:
    Vec<u8>)
    requires
        scope.in_message(message),
    ensures
        key@ == scope_counter_key(definition, message, *scope),
{
    let id_bytes = definition.id.as_str().as_bytes();
    let mut key = u64_to_le_bytes(id_bytes.len() as u64);
    push_all(&mut key, id_bytes);
    match scope {
        ScopeInstance::Sender => {
            key.push(0u8);
            push_all(&mut key, message.sender.as_str().as_bytes());
        },
        ScopeInstance::RecipientDomain { domain_idx } => {
            key.push(1u8);
            push_all(&mut key, message.domains[*domain_idx].name.as_str().as_bytes());
        },
        ScopeInstance::Recipient { rcpt_idx, .. } => {
            key.push(2u8);
            push_all(&mut key, message.recipients[*rcpt_idx].address.as_str().as_bytes());
        },
    }
    key
}

/// Counter keys do not collide: two keys are equal only if they were built
/// from the same rule id, for the same tier, and for the same subject.
pub proof fn lemma_counter_key_injective(
    id: Seq<char>,
    kind: QuotaScope,
    subject: Seq<char>,
    other_id: Seq<char>,
    other_kind: QuotaScope,
    other_subject: Seq<char>,
)
    requires
        encode_utf8(id).len() <= u64::MAX,
        encode_utf8(other_id).len() <= u64::MAX,
        counter_key(id, kind, subject) == counter_key(other_id, other_kind, other_subject),
    ensures
        id == other_id,
        kind == other_kind,
        subject == other_subject,
{
    let a = counter_key(id, kind, subject);
    let b = counter_key(other_id, other_kind, other_subject);
    let n = encode_utf8(id).len() as int;
    let m = encode_utf8(other_id).len() as int;
    lemma_auto_spec_u64_to_from_le_bytes();
    assert(a.subrange(0, 8) == spec_u64_to_le_bytes(n as u64));
    assert(b.subrange(0, 8) == spec_u64_to_le_bytes(m as u64));
    assert(spec_u64_from_le_bytes(a.subrange(0, 8)) == n as u64);
    assert(spec_u64_from_le_bytes(b.subrange(0, 8)) == m as u64);
    assert(n == m);
    assert(a.subrange(8, 8 + n) == encode_utf8(id));
    assert(b.subrange(8, 8 + m) == encode_utf8(other_id));
    assert(a[8 + n] == scope_tag(kind));
    assert(b[8 + m] == scope_tag(other_kind));
    assert(a.subrange(9 + n, a.len() as int) == encode_utf8(subject));
    assert(b.subrange(9 + m, b.len() as int) == encode_utf8(other_subject));
    encode_utf8_decode_utf8(id);
    encode_utf8_decode_utf8(other_id);
    encode_utf8_decode_utf8(subject);
    encode_utf8_decode_utf8(other_subject);
}

/// Within a message of fewer than 2^32 domains and fewer than 2^32
/// recipients, a correlation id names one scope instance only: the sender,
/// one domain or one recipient.
pub proof fn lemma_correlation_identifies_scope(message: &Message, a: ScopeInstance, b: ScopeInstance)
    requires
        message.domains@.len() < 0x1_0000_0000,
        message.recipients@.len() < 0x1_0000_0000,
        a.in_message(message),
        b.in_message(message),
        a.correlation() == b.correlation(),
    ensures
        a == b,
{
    match (a, b) {
        (ScopeInstance::RecipientDomain { domain_idx: d }, ScopeInstance::RecipientDomain { domain_idx: e }) => {
            lemma_domain_ids_distinct(d as int, e as int);
        },
        (ScopeInstance::RecipientDomain { domain_idx: d }, ScopeInstance::Recipient { rcpt_idx: r, .. }) => {
            lemma_recipient_id_differs_from_domain_id(r as int, d as int);
        },
        (ScopeInstance::Recipient { rcpt_idx: r, .. }, ScopeInstance::RecipientDomain { domain_idx: d }) => {
            lemma_recipient_id_differs_from_domain_id(r as int, d as int);
        },
        (ScopeInstance::RecipientDomain { domain_idx: d }, ScopeInstance::Sender) => {
            lemma_domain_ids_distinct(d as int, d as int);
        },
        (ScopeInstance::Sender, ScopeInstance::RecipientDomain { domain_idx: d }) => {
            lemma_domain_ids_distinct(d as int, d as int);
        },
        _ => {},
    }
}

} // verus!
