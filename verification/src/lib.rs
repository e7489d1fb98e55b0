//! Readiness notification for ZeroMQ sockets.
//!
//! A ZeroMQ socket signals pending work through one operating-system
//! descriptor. This crate hands that descriptor to a registry under a token
//! and a set of interests, so that an event loop can sleep until the socket
//! needs attention.

pub mod error;
pub mod interest;
pub mod laws;
pub mod poll;
pub mod registry;
pub mod source;
pub mod table;
