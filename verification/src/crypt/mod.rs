//! Keys, ciphers, digests and encodings.

pub mod asymmetric;
pub mod error;
pub mod keys;
pub mod random;
pub mod symmetric;
pub mod utils;
