//! Shared result schema and command-line contract for scanner modules.
//!
//! Scanner modules (port, domain, directory and vulnerability scanners) hand
//! their findings to an orchestrator as JSON text. This crate defines the
//! record types of that wire contract together with a verified JSON encoder
//! and decoder for exactly those shapes: encoding is proved to produce the
//! canonical field-named form, decoding is proved to accept it back, and the
//! round trip is proved to restore every field.

pub mod decode;
pub mod invoke;
pub mod encode;
pub mod roundtrip;
pub mod schema;
pub mod text;
