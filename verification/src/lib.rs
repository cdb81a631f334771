//! A codec that hides a byte payload in the samples of a mono 32-bit float
//! audio stream, as dots, dashes and symbol separators.

pub mod alphabet;
pub mod decoder;
pub mod encoder;
pub mod error;
pub mod handshake;
pub mod laws;
pub mod naming;
pub mod signal;
pub mod standard;
pub mod transport;
