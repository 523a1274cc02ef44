//! The calls into the cryptographic and encoding crates. Nothing in these
//! modules is proved: every contract here restates what the called crate
//! documents or what its source shows.

pub mod digest;
pub mod dilithium;
pub mod encoding;
pub mod kyber;
pub mod sphincs;
