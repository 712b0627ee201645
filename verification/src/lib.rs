//! On-wire message framing for a device-to-device mesh protocol.
//!
//! A logical message is an outer header, an (externally encrypted) payload
//! carrying a nested protocol message, and a footer with an optional
//! integrity check.  The heart of the crate is the field-presence and
//! binary-layout logic: which optional fields exist in a given message is
//! driven by flag bits elsewhere in the same message, and every multi-byte
//! field is little-endian.  Encryption, transport and counter allocation are
//! external collaborators; this crate only frames and checks bytes.

pub mod codec;
pub mod message;
