//! File encryption engine: a self-describing container format, AES-256-GCM
//! sealing, Argon2id password derivation and an optional zstd layer.
pub mod cipher;
pub mod cli;
pub mod crypto;
pub mod encoding;
pub mod error;
pub mod format;
pub mod header;
pub mod kdf;
pub mod payload;
pub mod secure_key;
