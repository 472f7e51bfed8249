//! The signed messaging protocol served next to the mail queue: system
//! messages, group metadata, user profiles and signatures.

pub mod api;
pub mod crypto;
pub mod group;
pub mod handler;
pub mod profile;
pub mod system;
