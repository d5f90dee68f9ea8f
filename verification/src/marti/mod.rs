//! The Marti REST surface: what each request is answered, as plain values.

pub mod admin;
pub mod contacts;
pub mod content;
pub mod discovery;
pub mod enrollment;
pub mod missions;
pub mod oauth;
pub mod reply;
