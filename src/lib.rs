//! Cluster membership and failure detection in the style of SWIM.
//!
//! Nodes probe each other with `Ping` messages and confirm liveness with
//! `Ack` replies. This crate holds the wire codec, the transport logic
//! (framing outgoing datagrams, decoding incoming ones) and the membership
//! core as a state machine; sockets, timers and threads are left to the caller.
pub mod addr;
pub mod config;
pub mod gossip;
pub mod member;
pub mod membership;
pub mod message;
