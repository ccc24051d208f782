use vstd::prelude::*;

use crate::encoding::{base64_bytes, base64_encode, base64_text};
use crate::kdf::{ARGON2_MEMORY_COST, ARGON2_PARALLELISM, ARGON2_TIME_COST, SALT_LENGTH};
use crate::secure_key::KEY_LEN;

verus! {

/// Format version written in key container headers.
pub const KEY_FORMAT_VERSION: u8 = 2;

/// Format version written in password container headers (Argon2id).
pub const PASSWORD_FORMAT_VERSION: u8 = 3;

/// Identifier of the key derivation function in password headers.
pub const KDF_ARGON2ID: &'static str = "argon2id";

/// Metadata of a key container. The key is embedded (base64) so that the
/// file can be decrypted without the caller supplying it.
pub struct XdHeader {
    pub filename: String,
    pub key: Option<String>,
    pub version: u8,
    /// Seconds since the Unix epoch when the file was encrypted.
    pub timestamp: u64,
}

/// Metadata of a password container: everything needed to derive the key
/// again, except the password.
pub struct XdPasswordHeader {
    pub filename: String,
    /// The 32-byte salt, base64.
    pub salt: String,
    pub kdf: String,
    /// Argon2 memory cost in KiB.
    pub memory_cost: Option<u32>,
    pub time_cost: Option<u32>,
    pub parallelism: Option<u32>,
    /// Iteration count of the legacy derivation.
    pub iterations: Option<u32>,
    pub version: u8,
    /// Seconds since the Unix epoch when the file was encrypted.
    pub timestamp: u64,
}

impl XdHeader {
    /// The header of a key container for `filename` that embeds `key`.
    pub fn new(filename: &str, key: &[u8], timestamp: u64) -> (r: XdHeader)
        requires
            key@.len() == KEY_LEN,
        ensures
            r.filename@ == filename@,
            r.key matches Some(k) && k@ == base64_text(key@),
            r.key matches Some(k) && base64_bytes(k@) == Some(key@),
            r.version == KEY_FORMAT_VERSION,
            r.timestamp == timestamp,
    {
        XdHeader {
            filename: filename.to_owned(),
            key: Some(base64_encode(key)),
            version: KEY_FORMAT_VERSION,
            timestamp,
        }
    }
}

impl XdPasswordHeader {
    /// The header of a password container for `filename`, whose key is
    /// derived with Argon2id from the password and `salt`.
    pub fn new(filename: &str, salt: &[u8], timestamp: u64) -> (r: XdPasswordHeader)
        requires
            salt@.len() == SALT_LENGTH,
        ensures
            r.filename@ == filename@,
            r.salt@ == base64_text(salt@),
            base64_bytes(r.salt@) == Some(salt@),
            r.kdf@ == KDF_ARGON2ID@,
            r.memory_cost == Some(ARGON2_MEMORY_COST),
            r.time_cost == Some(ARGON2_TIME_COST),
            r.parallelism == Some(ARGON2_PARALLELISM),
            r.iterations is None,
            r.version == PASSWORD_FORMAT_VERSION,
            r.timestamp == timestamp,
    {
        XdPasswordHeader {
            filename: filename.to_owned(),
            salt: base64_encode(salt),
            kdf: KDF_ARGON2ID.to_owned(),
            memory_cost: Some(ARGON2_MEMORY_COST),
            time_cost: Some(ARGON2_TIME_COST),
            parallelism: Some(ARGON2_PARALLELISM),
            iterations: None,
            version: PASSWORD_FORMAT_VERSION,
            timestamp,
        }
    }
}

} // verus!
