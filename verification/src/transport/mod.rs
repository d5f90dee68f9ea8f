//! Cursor-on-target transports: stream framing, the relay hub and the table of
//! live connections.

pub mod codec;
pub mod connections;
pub mod hub;
pub mod relay;
