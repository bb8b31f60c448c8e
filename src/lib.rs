//! Code attestation: a deterministic fingerprint of a project tree, and
//! per-request seals that bind a response to that fingerprint and to a
//! caller-chosen challenge.
pub mod digest;
pub mod hex_text;
pub mod identity;
pub mod json;
pub mod laws;
pub mod manifest;
pub mod order;
pub mod patterns;
pub mod project;
pub mod proxy;
pub mod seal;
pub mod signing;
pub mod text;
pub mod verify;
