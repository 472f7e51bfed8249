//! Static description of quota rules.

use vstd::prelude::*;

verus! {

/// The tier at which a quota rule is enforced.
#[derive(Clone, Copy, Debug, PartialEq, Eq, Structural)]
pub enum QuotaScope {
    /// One counter per sender, checked once for the whole message.
    Sender,
    /// One counter per recipient domain of the message.
    RecipientDomain,
    /// One counter per recipient of the message.
    Recipient,
}

/// One quota rule. A rule with neither limit set never rejects a message and
/// never reserves anything.
#[derive(Clone, Debug)]
pub struct QuotaDefinition {
    /// Stable identifier of the rule; part of every counter key it produces.
    pub id: String,
    /// The tier the rule belongs to.
    pub scope: QuotaScope,
    /// Source text of the matching expression. The library never interprets
    /// it; an empty expression matches nothing.
    pub predicate: String,
    /// Upper bound on the cumulative size, in bytes, of the messages in flight.
    pub max_size: Option<u64>,
    /// Upper bound on the number of messages in flight.
    pub max_messages: Option<u64>,
}

} // verus!
