//! A SOCKS5 tunnel carried over HTTP polling.
//!
//! The client end speaks SOCKS5 to a browser and turns each connection into a
//! session of an HTTP relay; the server end discovers those sessions, connects to
//! their targets and moves the bytes.  Everything here is the part of both ends
//! that decides and computes: each task is a state machine that says what it waits
//! for and is told what happened.
pub mod client;
pub mod codec;
pub mod failures;
pub mod forward;
pub mod http;
pub mod pieces;
pub mod poll;
pub mod pump;
pub mod server;
pub mod tasks;
pub mod text;
pub mod tunnel;
