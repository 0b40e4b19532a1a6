//! A verified core for a desktop "universal search" broker.
//!
//! The broker hosts a set of search providers, fans a query out to all of
//! them, streams results back to the client as providers finish, and drops
//! results of superseded queries.  This crate holds the verified logic:
//! the provider registry and its path resolution, the per-connection session
//! state machine with its query epochs, the wire codec, and the pure parts
//! of the provider helpers.  Process setup, sockets and provider modules
//! live outside and drive this logic through plain values.

pub mod actions;
pub mod category;
pub mod codec;
pub mod icon;
pub mod netaddr;
pub mod protocol;
pub mod registry;
pub mod saving;
pub mod session;
pub mod terminal;
pub mod text;
pub mod window;
