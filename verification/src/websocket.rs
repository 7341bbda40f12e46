//! The receiving side of the WebSocket protocol.

pub mod close;
pub mod connection;
pub mod frame;
