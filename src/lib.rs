//! A random number generator whose entropy is a stream of signed 16-bit
//! noise samples supplied from outside.
//!
//! The generator keeps the current batch of samples and draws from its end.
//! Fetching a new batch is left to the caller: when a draw finds fewer than
//! two samples it reports so, the caller fetches a batch, hands it to
//! `NoiseRand::refill`, and draws again.
pub mod decode;
pub mod generator;

pub use decode::{decode_response, DecodeError};
pub use generator::{compose_u64, NoiseRand, RefillError};
