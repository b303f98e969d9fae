pub mod cleanup;
pub mod config;
pub mod error;
pub mod participant;
pub mod room;
pub mod telemetry;
