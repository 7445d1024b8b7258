//! Share text or files through a QR code; receive uploads over HTTP.
//!
//! The verified core decodes a single-part `multipart/form-data` upload:
//! it scans the part's headers, computes the exact payload length, bounds the
//! streamed copy, and picks an output name that does not collide.

pub mod error;
pub mod naming;
pub mod headers;
pub mod body;
pub mod render;
pub mod server;
pub mod receive;
