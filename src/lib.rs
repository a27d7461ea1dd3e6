//! A proof-of-work engine: derive a SHA-256 digest from a challenge and a
//! nonce, test it against a difficulty of leading zero bits, and search a
//! strided nonce sequence for a digest that passes.

pub mod difficulty;
pub mod derivation;
pub mod engine;
