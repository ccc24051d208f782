use vstd::prelude::*;

use aes_gcm::aead::{Aead, KeyInit};

use crate::error::{agrees, CryptoError, ErrorKind};
use crate::format::NONCE_LEN;
use crate::secure_key::{SecureKey, KEY_LEN};

verus! {

/// Bytes of the authentication tag that AES-GCM appends.
pub const TAG_LEN: usize = 16;

/// Longest plaintext that AES-GCM accepts, in bytes.
pub const MAX_PLAINTEXT_LEN: u64 = 0x10_0000_0000;

/// The ciphertext with tag that AES-256-GCM makes of `plaintext`.
pub uninterp spec fn aes_gcm_sealed(key: Seq<u8>, nonce: Seq<u8>, plaintext: Seq<u8>) -> Seq<u8>;

/// The plaintext that AES-256-GCM recovers from `ciphertext`, when its tag verifies.
pub uninterp spec fn aes_gcm_opened(key: Seq<u8>, nonce: Seq<u8>, ciphertext: Seq<u8>) -> Option<Seq<u8>>;

/// Relies on rand's `OsRng::try_fill_bytes`: the array is filled by the
/// operating system's generator, and nothing comes back when it fails.
#[verifier::external_body]
pub(crate) fn os_random_bytes<const N: usize>() -> (r: Option<[u8; N]>) {
    let mut bytes = [0u8; N];
    rand::RngCore::try_fill_bytes(&mut rand::rngs::OsRng, &mut bytes).ok()?;
    Some(bytes)
}

/// Relies on aes_gcm's `Aes256Gcm::encrypt` without associated data: it
/// refuses plaintexts over 2^36 bytes, appends a 16-byte tag, and
/// `Aes256Gcm::decrypt` under the same key and nonce gives the plaintext back.
#[verifier::external_body]
fn aes256gcm_encrypt(key: &[u8], nonce: &[u8], plaintext: &[u8]) -> (r: Option<Vec<u8>>)
    requires
        key@.len() == KEY_LEN,
        nonce@.len() == NONCE_LEN,
    ensures
        r is Some <==> plaintext@.len() <= MAX_PLAINTEXT_LEN,
        r matches Some(c) ==> c@ == aes_gcm_sealed(key@, nonce@, plaintext@),
        r matches Some(c) ==> c@.len() == plaintext@.len() + TAG_LEN,
        r matches Some(c) ==> aes_gcm_opened(key@, nonce@, c@) == Some(plaintext@),
{
    let cipher = aes_gcm::Aes256Gcm::new(aes_gcm::Key::<aes_gcm::Aes256Gcm>::from_slice(key));
    cipher.encrypt(aes_gcm::Nonce::from_slice(nonce), plaintext).ok()
}

/// Relies on aes_gcm's `Aes256Gcm::decrypt` without associated data: it
/// gives a plaintext only when the tag verifies.
#[verifier::external_body]
fn aes256gcm_decrypt(key: &[u8], nonce: &[u8], ciphertext: &[u8]) -> (r: Option<Vec<u8>>)
    requires
        key@.len() == KEY_LEN,
        nonce@.len() == NONCE_LEN,
    ensures
        r is Some <==> aes_gcm_opened(key@, nonce@, ciphertext@) is Some,
        r matches Some(p) ==> aes_gcm_opened(key@, nonce@, ciphertext@) == Some(p@),
{
    let cipher = aes_gcm::Aes256Gcm::new(aes_gcm::Key::<aes_gcm::Aes256Gcm>::from_slice(key));
    cipher.decrypt(aes_gcm::Nonce::from_slice(nonce), ciphertext).ok()
}

/// What opening `ciphertext` gives: the plaintext, or the authentication error.
pub open spec fn opened(key: Seq<u8>, nonce: Seq<u8>, ciphertext: Seq<u8>) -> Result<Seq<u8>, ErrorKind> {
    match aes_gcm_opened(key, nonce, ciphertext) {
        Some(p) => Ok(p),
        None => Err(ErrorKind::Authentication),
    }
}

/// A fresh random 256-bit key, for key-mode encryption when the caller
/// brings none.
pub fn generate_secure_key() -> (r: Result<[u8; 32], CryptoError>)
    ensures
        r matches Err(e) ==> e is EncryptionError,
{
    match os_random_bytes::<32>() {
        Some(k) => Ok(k),
        None => Err(CryptoError::EncryptionError("Failed to generate a key".to_string())),
    }
}

/// A fresh nonce from the operating system's generator.
pub fn fresh_nonce() -> (r: Result<[u8; 12], CryptoError>)
    ensures
        r matches Err(e) ==> e is EncryptionError,
{
    match os_random_bytes::<12>() {
        Some(n) => Ok(n),
        None => Err(CryptoError::EncryptionError("Failed to generate a nonce".to_string())),
    }
}

/// Seals `plaintext` under `key` and `nonce`.
pub fn seal_with_nonce(key: &SecureKey, nonce: &[u8], plaintext: &[u8]) -> (r: Result<Vec<u8>, CryptoError>)
    requires
        nonce@.len() == NONCE_LEN,
    ensures
        r is Ok <==> plaintext@.len() <= MAX_PLAINTEXT_LEN,
        r matches Ok(c) ==> c@ == aes_gcm_sealed(key@, nonce@, plaintext@),
        r matches Ok(c) ==> c@.len() == plaintext@.len() + TAG_LEN,
        r matches Ok(c) ==> opened(key@, nonce@, c@) == Ok::<Seq<u8>, ErrorKind>(plaintext@),
        r matches Err(e) ==> e is EncryptionError,
{
    match aes256gcm_encrypt(key.as_slice(), nonce, plaintext) {
        Some(c) => Ok(c),
        None => Err(CryptoError::EncryptionError("Authenticated encryption failed".to_string())),
    }
}

/// Seals `plaintext` under `key` with a fresh nonce, returned beside the ciphertext.
pub fn seal(key: &SecureKey, plaintext: &[u8]) -> (r: Result<([u8; 12], Vec<u8>), CryptoError>)
    ensures
        plaintext@.len() > MAX_PLAINTEXT_LEN ==> r is Err,
        r matches Ok((n, c)) ==> c@ == aes_gcm_sealed(key@, n@, plaintext@),
        r matches Ok((n, c)) ==> c@.len() == plaintext@.len() + TAG_LEN,
        r matches Err(e) ==> e is EncryptionError,
{
    let nonce = fresh_nonce()?;
    let c = seal_with_nonce(key, nonce.as_slice(), plaintext)?;
    Ok((nonce, c))
}

/// Opens `ciphertext` under `key` and `nonce`. Whether the key is wrong or
/// the data altered, the failure is the one authentication error.
pub fn open(key: &SecureKey, nonce: &[u8], ciphertext: &[u8]) -> (r: Result<Vec<u8>, CryptoError>)
    requires
        nonce@.len() == NONCE_LEN,
    ensures
        agrees(r, opened(key@, nonce@, ciphertext@), |p: Vec<u8>| p@),
{
    match aes256gcm_decrypt(key.as_slice(), nonce, ciphertext) {
        Some(p) => Ok(p),
        None => Err(CryptoError::AuthenticationError),
    }
}

} // verus!
