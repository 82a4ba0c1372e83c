//! Reader for Android OTA update payloads: header validation, manifest
//! decoding, inspection summaries and extraction planning.

pub mod codec;
pub mod error;
pub mod extract;
pub mod header;
pub mod inspect;
pub mod manifest;
pub mod message;
pub mod properties;
pub mod text;
pub mod wire;
