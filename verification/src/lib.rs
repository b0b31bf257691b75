//! The server side of a reverse tunnel: clients behind a firewall keep one
//! control link open, visitors connect to a public address, and every visitor
//! connection travels over the owning client's link as a stream of framed
//! packets.
//!
//! This crate holds the decisions of that server: the packet codec, the
//! handshake, the two routing indices and the steps of the per-client and
//! per-visitor tasks. Sockets, timers and task spawning belong to the
//! program that embeds it.

pub mod active_stream;
pub mod channel;
pub mod config;
pub mod connected_clients;
pub mod control_server;
pub mod hello;
pub mod packet;
pub mod random;
pub mod remote;
pub mod sub_domain;
pub mod table;
pub mod text;
