//! The SFU server's decisions: layer choice, rooms, subscriber tables, sessions.
pub mod bandwidth;
pub mod negotiation;
pub mod rooms;
pub mod session;
pub mod simulcast;
pub mod subscribers;
