use vstd::prelude::*;

use vstd::string::StringSliceAdditionalSpecFns;

use crate::cipher::os_random_bytes;
use crate::error::{agrees, CryptoError, ErrorKind};

verus! {

/// Argon2id memory cost in KiB (64 MiB).
pub const ARGON2_MEMORY_COST: u32 = 65536;

/// Argon2id passes over memory.
pub const ARGON2_TIME_COST: u32 = 3;

/// Argon2id lanes.
pub const ARGON2_PARALLELISM: u32 = 1;

/// Bytes of salt that every password derivation takes.
pub const SALT_LENGTH: usize = 32;

/// The 32-byte Argon2id (version 0x13) output for these inputs and costs,
/// when the inputs are within Argon2's limits.
pub uninterp spec fn argon2id_output(password: Seq<u8>, salt: Seq<u8>, m_cost: u32, t_cost: u32, p_cost: u32) -> Option<Seq<u8>>;

/// Argon2's limits: at least 8 KiB of memory and 8 KiB per lane, at least
/// one pass, 1 to 2^24 - 1 lanes, a password of at most 2^32 - 1 bytes and a
/// salt of 8 to 2^32 - 1 bytes.
pub open spec fn argon2_accepts(password_len: nat, salt_len: nat, m_cost: u32, t_cost: u32, p_cost: u32) -> bool {
    &&& m_cost >= 8
    &&& m_cost >= 8 * p_cost
    &&& t_cost >= 1
    &&& 1 <= p_cost <= 0xFF_FFFF
    &&& password_len <= 0xFFFF_FFFF
    &&& 8 <= salt_len <= 0xFFFF_FFFF
}

/// Relies on argon2's `Argon2::hash_password_into`, run as Argon2id version
/// 0x13 with the given costs and a 32-byte output (the configuration that
/// `Params::new` and `Argon2::new` build). Its result depends on the inputs
/// alone; `Params::new` and the input checks refuse exactly the inputs
/// outside Argon2's limits, and nothing else fails.
#[verifier::external_body]
fn argon2id_hash(password: &[u8], salt: &[u8], m_cost: u32, t_cost: u32, p_cost: u32) -> (r: Option<[u8; 32]>)
    requires
        p_cost <= 0xFF_FFFF,
    ensures
        r is Some <==> argon2_accepts(password@.len(), salt@.len(), m_cost, t_cost, p_cost),
        r is Some <==> argon2id_output(password@, salt@, m_cost, t_cost, p_cost) is Some,
        r matches Some(k) ==> argon2id_output(password@, salt@, m_cost, t_cost, p_cost) == Some(k@),
{
    let params = argon2::Params::new(m_cost, t_cost, p_cost, Some(32)).ok()?;
    let mut out = [0u8; 32];
    argon2::Argon2::new(argon2::Algorithm::Argon2id, argon2::Version::V0x13, params)
        .hash_password_into(password, salt, &mut out)
        .ok()?;
    Some(out)
}

/// A fresh random salt for one password encryption.
pub fn generate_salt() -> (r: Result<[u8; 32], CryptoError>)
    ensures
        r matches Err(e) ==> e is KeyDerivationError,
{
    match os_random_bytes::<32>() {
        Some(s) => Ok(s),
        None => Err(CryptoError::KeyDerivationError("Failed to generate a salt".to_string())),
    }
}

/// The key derived from `password` and `salt` with the given Argon2id
/// costs, or the derivation error.
pub open spec fn derived_key_with(password: Seq<u8>, salt: Seq<u8>, m_cost: u32, t_cost: u32, p_cost: u32) -> Result<Seq<u8>, ErrorKind> {
    if salt.len() != SALT_LENGTH || !argon2_accepts(password.len(), salt.len(), m_cost, t_cost, p_cost) {
        Err(ErrorKind::KeyDerivation)
    } else {
        Ok(argon2id_output(password, salt, m_cost, t_cost, p_cost)->Some_0)
    }
}

/// The key derived from `password` and `salt` with the fixed costs, or the
/// derivation error.
pub open spec fn derived_key(password: Seq<u8>, salt: Seq<u8>) -> Result<Seq<u8>, ErrorKind> {
    derived_key_with(password, salt, ARGON2_MEMORY_COST, ARGON2_TIME_COST, ARGON2_PARALLELISM)
}

/// Derives a 256-bit key from `password` and a 32-byte `salt` with Argon2id
/// and the given costs (memory in KiB, passes, lanes). A salt of any other
/// length, or costs outside Argon2's limits, are refused.
pub fn derive_key_with_costs(password: &str, salt: &[u8], m_cost: u32, t_cost: u32, p_cost: u32) -> (r: Result<[u8; 32], CryptoError>)
    ensures
        agrees(r, derived_key_with(password.spec_bytes(), salt@, m_cost, t_cost, p_cost), |k: [u8; 32]| k@),
{
    if salt.len() != SALT_LENGTH {
        return Err(CryptoError::KeyDerivationError("Invalid salt length".to_string()));
    }
    if p_cost > 0xFF_FFFF {
        return Err(CryptoError::KeyDerivationError("Argon2 parallelism out of range".to_string()));
    }
    match argon2id_hash(password.as_bytes(), salt, m_cost, t_cost, p_cost) {
        Some(k) => Ok(k),
        None => Err(CryptoError::KeyDerivationError("Argon2 hashing failed".to_string())),
    }
}

/// Derives a 256-bit key from `password` and a 32-byte `salt` with Argon2id
/// (64 MiB, 3 passes, 1 lane). A salt of any other length is refused before
/// any hashing; with a 32-byte salt it fails only for a password over
/// 2^32 - 1 bytes.
pub fn derive_key_from_password_argon2(password: &str, salt: &[u8]) -> (r: Result<[u8; 32], CryptoError>)
    ensures
        agrees(r, derived_key(password.spec_bytes(), salt@), |k: [u8; 32]| k@),
        r is Ok <==> salt@.len() == SALT_LENGTH && password.spec_bytes().len() <= u32::MAX,
{
    derive_key_with_costs(password, salt, ARGON2_MEMORY_COST, ARGON2_TIME_COST, ARGON2_PARALLELISM)
}

} // verus!
