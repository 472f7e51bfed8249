//! Quota enforcement for messages in flight: rule definitions, scope keys,
//! the admission check and the release of settled reservations.

pub mod admission;
pub mod check;
pub mod definition;
pub mod message;
pub mod plan;
pub mod release;
pub mod scope;
