//! Media stream management: errors, chat messages, quality layers, message storage.
pub mod data_channel;
pub mod error;
pub mod message;
pub mod mocks;
pub mod quality;
pub mod transient_storage;
