//! The SFU client's decisions: reconnection, subscriptions, and what to do with
//! signaling traffic.
pub mod events;
pub mod reconnection;
pub mod signals;
pub mod subscriptions;
