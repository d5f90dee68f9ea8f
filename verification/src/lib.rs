//! A small TAK server: cursor-on-target relay, certificate enrollment and the
//! Marti REST surface, as verified logic over plain values.

pub mod app;
pub mod backup;
pub mod bytes;
pub mod config;
pub mod content_store;
pub mod cot;
pub mod dated;
pub mod digest;
pub mod encoding;
pub mod enrollment_tokens;
pub mod eventlog;
pub mod hex;
pub mod marti;
pub mod missions;
pub mod pki;
pub mod random;
pub mod registry;
pub mod search;
pub mod table;
pub mod text;
pub mod transport;
pub mod users;
pub mod views;
