//! The logic of Remote-Mouse, a bridge between a WebSocket endpoint and an X11 display server: it
//! decodes mouse event packets, decides what happens to each connection, and turns the events into
//! requests to the display.
//!
//! Everything here is a decision on plain values. Sockets, timers, tasks and the display itself
//! belong to the program around the library, which performs the actions that the state machines
//! ask for and hands the outcomes back.

// Specifications and proofs use more names than compiled code does.
#![allow(unused_imports)]

pub mod bridge;
pub mod bytes;
pub mod display;
pub mod event;
pub mod event_loop;
pub mod fault;
pub mod handler;
pub mod handshake;
pub mod number;
pub mod permissions;
pub mod sockets;
pub mod stream;
pub mod supervisor;
pub mod systemd;
pub mod text;
pub mod websocket;
