//! An in-memory publish/subscribe relay: users log in, join named channels
//! and broadcast text to everyone currently in a channel.
//!
//! The library holds the shared registries and the per-connection session
//! state machine. It never touches a socket: each request yields a reply for
//! the requester and, where the request is visible to others, the event and
//! the connections it is to be pushed to.

pub mod laws;
pub mod messages;
pub mod name_set;
pub mod registry;
pub mod session;
