//! Signaling protocol for the SFU architecture.
pub mod error;
pub mod keepalive;
pub mod messages;
pub mod protocol;
pub mod stun_config;
pub mod version_order;
pub mod websocket;
