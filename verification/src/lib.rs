//! Connection lifecycle of a secure echo relay.
//!
//! The relay terminates encrypted connections, upgrades each one to a framed
//! message channel and sends every data message back on the channel it came
//! from. This crate holds the decisions of that endpoint as plain functions
//! and proves what they promise; sockets, handshakes and scheduling are left
//! to the program that drives them.

pub mod connection;
pub mod identity;
pub mod interleaving;
pub mod message;
pub mod supervisor;
pub mod transcript;
