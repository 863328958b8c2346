//! The client end: a SOCKS5 proxy whose connections are sessions of the relay.
pub mod connection;
pub mod dialogue;
pub mod http_bridge;
pub mod relay;
pub mod session;
pub mod socks5;
