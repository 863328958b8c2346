//! The server end: it discovers sessions, connects to their targets and moves the bytes.
pub mod http_bridge;
pub mod sessions;
pub mod tcp_proxy;
