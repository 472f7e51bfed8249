//! The queued message as the quota engine sees it: its size, its sender, the
//! delivery state of its domains and recipients, and its reservation ledger.

use vstd::prelude::*;
use crate::text::str_eq;

verus! {

/// Delivery outcome of one domain or one recipient of a message.
#[derive(Clone, Copy, Debug, PartialEq, Eq, Structural)]
pub enum DeliveryStatus {
    /// No attempt has been made yet.
    Pending,
    /// An attempt is scheduled, or a failed one is awaiting its retry.
    Scheduled,
    /// Delivered; no further attempt will be made.
    Completed,
    /// Rejected for good; no further attempt will be made.
    PermanentFailure,
}

impl DeliveryStatus {
    /// A status after which no further delivery attempt occurs.
    pub open spec fn terminal(self) -> bool {
        self is Completed || self is PermanentFailure
    }

    /// Whether no further delivery attempt will occur.
    pub fn is_terminal(&self) -> (r: bool)
        ensures
            r == self.terminal(),
    {
        match self {
            DeliveryStatus::Completed => true,
            DeliveryStatus::PermanentFailure => true,
            DeliveryStatus::Pending => false,
            DeliveryStatus::Scheduled => false,
        }
    }
}

/// One distinct recipient domain of a message.
#[derive(Clone, Debug)]
pub struct Domain {
    pub name: String,
    pub status: DeliveryStatus,
}

/// One recipient of a message. `domain_idx` is the position of its domain in
/// the message's list of domains.
#[derive(Clone, Debug)]
pub struct Recipient {
    pub address: String,
    pub domain_idx: usize,
    pub status: DeliveryStatus,
}

/// A pending reservation: the counter it was checked against and the
/// correlation id of the scope instance that produced it.
#[derive(Clone, Debug, PartialEq, Eq)]
pub enum QuotaKey {
    /// One message reserved against a message-count counter.
    Count { key: Vec<u8>, id: u64 },
    /// The message's size reserved against a byte-size counter.
    Size { key: Vec<u8>, id: u64 },
}

/// Mathematical value of a [`QuotaKey`].
pub enum Reservation {
    Count { key: Seq<u8>, id: u64 },
    Size { key: Seq<u8>, id: u64 },
}

impl Reservation {
    /// The correlation id the reservation is tagged with.
    pub open spec fn id(self) -> u64 {
        match self {
            Reservation::Count { id, .. } => id,
            Reservation::Size { id, .. } => id,
        }
    }

    /// The counter key the reservation was made against.
    pub open spec fn key(self) -> Seq<u8> {
        match self {
            Reservation::Count { key, .. } => key,
            Reservation::Size { key, .. } => key,
        }
    }
}

impl View for QuotaKey {
    type V = Reservation;

    open spec fn view(&self) -> Reservation {
        match self {
            QuotaKey::Count { key, id } => Reservation::Count { key: key@, id: *id },
            QuotaKey::Size { key, id } => Reservation::Size { key: key@, id: *id },
        }
    }
}

impl QuotaKey {
    /// The correlation id the reservation is tagged with.
    pub fn id(&self) -> (id: u64)
        ensures
            id == self@.id(),
    {
        match self {
            QuotaKey::Count { id, .. } => *id,
            QuotaKey::Size { id, .. } => *id,
        }
    }
}

/// The reservations held in a list of keys, in order.
pub open spec fn reservations(keys: Seq<QuotaKey>) -> Seq<Reservation> {
    keys.map_values(|k: QuotaKey| k@)
}

/// A message in the outbound queue.
#[derive(Clone, Debug)]
pub struct Message {
    /// Address the message was sent from.
    pub sender: String,
    /// Size of the message in bytes.
    pub size: u64,
    /// The distinct recipient domains, in message order.
    pub domains: Vec<Domain>,
    /// The recipients, in message order.
    pub recipients: Vec<Recipient>,
    /// The reservation ledger: empty until the message passes the quota
    /// check, and only ever shrinking afterwards.
    pub quota_keys: Vec<QuotaKey>,
}

impl Message {
    /// The reservations currently attached to the message.
    pub open spec fn ledger(&self) -> Seq<Reservation> {
        reservations(self.quota_keys@)
    }

    /// Every recipient names one of the message's domains, and no two
    /// domains share a name.
    pub open spec fn well_formed(&self) -> bool {
        &&& forall|r: int|
            0 <= r < self.recipients@.len() ==> (#[trigger] self.recipients@[r]).domain_idx
                < self.domains@.len()
        &&& forall|i: int, j: int|
            0 <= i < j < self.domains@.len() ==> (#[trigger] self.domains@[i]).name@
                != (#[trigger] self.domains@[j]).name@
    }

    /// Checks that every recipient names one of the message's domains and
    /// that no two domains share a name.
    pub fn is_well_formed(&self) -> (ok: bool)
        ensures
            ok == self.well_formed(),
    {
        let mut r: usize = 0;
        while r < self.recipients.len()
            invariant
                r <= self.recipients@.len(),
                forall|k: int|
                    0 <= k < r ==> (#[trigger] self.recipients@[k]).domain_idx < self.domains@.len(),
            decreases self.recipients@.len() - r,
        {
            if self.recipients[r].domain_idx >= self.domains.len() {
                return false;
            }
            r = r + 1;
        }
        let mut j: usize = 0;
        while j < self.domains.len()
            invariant
                j <= self.domains@.len(),
                forall|k: int|
                    0 <= k < self.recipients@.len() ==> (#[trigger] self.recipients@[k]).domain_idx
                        < self.domains@.len(),
                forall|a: int, b: int|
                    0 <= a < b < j ==> (#[trigger] self.domains@[a]).name@
                        != (#[trigger] self.domains@[b]).name@,
            decreases self.domains@.len() - j,
        {
            let mut i: usize = 0;
            while i < j
                invariant
                    i <= j,
                    j < self.domains@.len(),
                    forall|a: int|
                        0 <= a < i ==> (#[trigger] self.domains@[a]).name@ != self.domains@[j as int].name@,
                decreases j - i,
            {
                if str_eq(self.domains[i].name.as_str(), self.domains[j].name.as_str()) {
                    return false;
                }
                i = i + 1;
            }
            j = j + 1;
        }
        true
    }

    /// Everything but the ledger is the same in both messages.
    pub open spec fn same_envelope(&self, other: &Message) -> bool {
        &&& self.sender == other.sender
        &&& self.size == other.size
        &&& self.domains == other.domains
        &&& self.recipients == other.recipients
    }
}

} // verus!
