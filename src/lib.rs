//! Sharing keyboard and mouse input between two hosts over IP: the wire
//! formats, the peer-discovery packet and the decision logic of the client
//! and server sessions.
pub mod addr;
pub mod client;
pub mod codec;
pub mod discovery;
pub mod endian;
pub mod event;
pub mod magic;
pub mod peers;
pub mod server;
