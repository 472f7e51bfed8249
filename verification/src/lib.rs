//! Quota admission and release for an outbound mail queue, together with the
//! message rules of the signed group-messaging protocol that shares the server.

pub mod esmp;
pub mod quota;
pub mod text;
