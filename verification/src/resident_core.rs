//! The Resident Core: a process that outlives its windows, and the protocol
//! between them.

pub mod auth;
pub mod client;
pub mod connection;
pub mod control;
pub mod endpoint;
pub mod events;
pub mod listening;
pub mod protocol;
pub mod reader;
pub mod runtime;
pub mod server;
pub mod snapshot;
pub mod wire;
pub mod worker;
