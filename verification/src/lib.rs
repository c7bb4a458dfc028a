//! A text chat relay: fixed-size frames, a registry of connected users, and the
//! decisions taken by the server's readers, its relay and the client.
//!
//! Everything here is pure: sockets, threads, channels and clocks belong to the
//! program that drives these functions with the events it observes.

pub mod client;
pub mod frame;
pub mod handshake;
pub mod poll;
pub mod reader;
pub mod registry;
pub mod relay;
pub mod text;
pub mod user;
