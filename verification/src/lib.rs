//! A hash-linked, signed payment ledger for a small community-fee service.
//!
//! The crate keeps a registry of residents, an append-only payment log and a
//! chain of blocks in which every payment is anchored. Each block carries
//! the SHA-256 digest of its own canonical text and the digest of its
//! predecessor, and each transaction carries an Ed25519 signature made with
//! the paying resident's key.
pub mod auth;
pub mod blockchain;
pub mod clock;
pub mod digest;
pub mod error;
pub mod model;
pub mod signature;
pub mod storage;
pub mod text;
