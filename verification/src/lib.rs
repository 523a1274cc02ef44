//! Key-lifecycle management and multi-scheme dispatch for a post-quantum
//! signing, verification and key-encapsulation service.
//!
//! The library is free of I/O. The key store lives in memory; every
//! operation that changes it hands back the files that have to be written
//! so that the key directory catches up, and a store starts from a listing
//! of that directory. Public keys are kept beside the records and have a
//! directory of their own. Operations that change the store borrow it
//! exclusively, so that looking a key up and generating it on a miss is one
//! step.
//!
//! - [`scheme`]: the supported signature schemes, their sizes, names and
//!   operations.
//! - [`key_manager`]: the key store.
//! - [`layout`]: the naming of the files of the key directory.
//! - [`crypto`]: signing with keys that are generated on first use,
//!   verification, key encapsulation.
//! - [`requests`]: the operations as the transport sees them, with scheme
//!   names as text and binary fields in base64.
//! - [`outside`]: the calls into the cryptographic and encoding crates,
//!   whose contracts are taken on trust.
//! - [`text`], [`error`]: helpers and the failure categories.

pub mod crypto;
pub mod error;
pub mod key_manager;
pub mod layout;
pub mod outside;
pub mod requests;
pub mod scheme;
pub mod text;
