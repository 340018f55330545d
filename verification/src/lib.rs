//! A single-threaded, readiness-driven line-echo server core: connection
//! state machines, the connection registry, and the small pure pieces
//! (grid automaton, option decoding) that sit beside it.

pub mod cli;
pub mod logger;
pub mod master;
pub mod threaded;
pub mod utils;
