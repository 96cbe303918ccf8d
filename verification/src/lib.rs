//! Authoritative server core of a real-time multiplayer simulation.
//!
//! The library is the verified heart of the server: the wire codec, the
//! internal message types, the per-connection actor state machine, the
//! connection/entity ownership registry, the simulation world with its
//! per-tick systems, and the server orchestrator's decision logic.  All
//! I/O (sockets, channels, timers) lives outside, in the binary that
//! drives these functions.

pub mod ids;
pub mod server_components;
pub mod packets;
pub mod messages;
pub mod codec;
pub mod mailbox;
pub mod details;
pub mod registry;
pub mod world;
pub mod entities;
pub mod systems;
pub mod logs;
pub mod state;
pub mod entry;
pub mod connection;
pub mod server;
