//! Generators of passwords, random numbers and SHA-256 digests.
pub mod password;
pub mod rand;
pub mod sha256;
