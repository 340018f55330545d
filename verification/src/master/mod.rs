//! The reactor: per-connection state machine and the server's registry.

pub mod connection;
pub mod echo;
pub mod event;
pub mod server;
pub mod state;
pub mod utils;
pub mod window;
