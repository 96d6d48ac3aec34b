//! Subscribers and what subscribing hands back.

pub mod subscribe;
pub mod partition;
pub mod scheduling;
