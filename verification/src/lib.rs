//! Server side of a reverse-tunnel relay.
//!
//! A central server accepts outbound control connections from remote nodes
//! that sit behind NAT, and exposes proxy rules that bind a public listening
//! address and forward inbound traffic through the matching node.  This crate
//! holds the verified core: the framed control-channel protocol, the node
//! registry with heartbeat liveness, the connection-rendezvous bookkeeping,
//! the proxy-rule engine, and the byte-pump relay model.  All I/O stays with
//! the embedding binary; the functions here work on plain values.

pub mod auth;
pub mod client;
pub mod codec;
pub mod entity;
pub mod ids;
pub mod node;
pub mod nodes;
pub mod proxy;
pub mod proxyer;
pub mod rule;
pub mod server_case;
pub mod util;
