//! An in-memory store for short-lived secrets, locked behind a master password,
//! together with the request/response protocol that drives it.

pub mod clock;
pub mod connection;
pub mod listener;
pub mod model;
pub mod prompt;
pub mod protocol;
pub mod server;
pub mod store;
pub mod wire;
