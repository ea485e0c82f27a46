//! Streaming, password-based authenticated file encryption.
//!
//! The library holds the logic of the engine: the password policy, key
//! derivation, the chunk codec and its on-disk framing, the container as a
//! whole, the output path resolver, and the streaming pipeline as a state
//! machine that a host drives with the bytes it reads and the time that has
//! passed. It also decides the outcome of a payment-intent request from the
//! fields of the reply.

pub mod types;
pub mod password;
pub mod keys;
pub mod codec;
pub mod container;
pub mod paths;
pub mod stream;
pub mod payment;
