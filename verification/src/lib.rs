//! State replication between a server and its clients over unreliable
//! datagrams: the per-connection replication manager, the wire codec and the
//! client's connection state machine.

pub mod protocol;
pub mod shared;
pub mod server;
pub mod client;
pub mod wire;
pub mod codegen;
