use vstd::prelude::*;

use vstd::string::StringSliceAdditionalSpecFns;

use crate::cipher::{aes_gcm_opened, aes_gcm_sealed, fresh_nonce, open, opened, seal_with_nonce, MAX_PLAINTEXT_LEN, TAG_LEN};
use crate::encoding::{base64_bytes, base64_decode};
use crate::error::{agrees, CryptoError, ErrorKind};
use crate::format::{
    encode_key_container, encode_password_container, key_container, key_container_parts,
    lemma_cut_container, lemma_key_container_round_trip, lemma_password_container_round_trip,
    locate_key_container, locate_password_container, password_container, password_container_parts,
    NONCE_LEN, PASSWORD_MARKER,
};
use crate::header::{XdHeader, XdPasswordHeader, KDF_ARGON2ID};
use crate::kdf::{
    derive_key_from_password_argon2, derive_key_with_costs, derived_key, derived_key_with, ARGON2_MEMORY_COST,
    ARGON2_PARALLELISM, ARGON2_TIME_COST,
};
use crate::payload::{compress_payload, decompress_payload, unpacked};
use crate::secure_key::{wipe_vec, SecureKey, KEY_LEN};

verus! {

/// The nonce of a key container whose header is `header_len` bytes long.
pub open spec fn key_nonce(c: Seq<u8>, header_len: nat) -> Seq<u8> {
    c.subrange(4 + header_len as int, 16 + header_len as int)
}

/// The nonce of a password container whose header is `header_len` bytes long.
pub open spec fn password_nonce(c: Seq<u8>, header_len: nat) -> Seq<u8> {
    c.subrange(5 + header_len as int, 17 + header_len as int)
}

/// Key-mode encryption of `data` under `key` with `header` and `nonce`.
pub open spec fn key_encryption(data: Seq<u8>, key: Seq<u8>, header: Seq<u8>, nonce: Seq<u8>) -> Result<Seq<u8>, ErrorKind> {
    if key.len() != KEY_LEN || data.len() > MAX_PLAINTEXT_LEN || header.len() > u32::MAX {
        Err(ErrorKind::Encryption)
    } else {
        Ok(key_container(header, nonce, aes_gcm_sealed(key, nonce, data)))
    }
}

/// Password-mode encryption of `data` with `header` and `nonce`, under the
/// key derived from `password` and `salt`.
pub open spec fn password_encryption(data: Seq<u8>, password: Seq<u8>, salt: Seq<u8>, header: Seq<u8>, nonce: Seq<u8>) -> Result<Seq<u8>, ErrorKind> {
    match derived_key(password, salt) {
        Err(e) => Err(e),
        Ok(k) => if data.len() > MAX_PLAINTEXT_LEN || header.len() > u32::MAX {
            Err(ErrorKind::Encryption)
        } else {
            Ok(password_container(header, nonce, aes_gcm_sealed(k, nonce, data)))
        },
    }
}

/// `c` is a key container with `header` that seals `data` under `key`, with
/// the nonce it carries: length field, header, nonce, and a ciphertext that
/// is `data` plus the tag, which AES-GCM opens back to `data`.
pub open spec fn is_key_encryption_of(c: Seq<u8>, data: Seq<u8>, key: Seq<u8>, header: Seq<u8>) -> bool {
    let n = key_nonce(c, header.len());
    &&& c.len() == 16 + header.len() + data.len() + TAG_LEN
    &&& aes_gcm_sealed(key, n, data).len() == data.len() + TAG_LEN
    &&& key_encryption(data, key, header, n) == Ok::<Seq<u8>, ErrorKind>(c)
    &&& aes_gcm_opened(key, n, aes_gcm_sealed(key, n, data)) == Some(data)
}

/// `c` is a password container with `header` that seals `data` under the key
/// derived from `password` and `salt`, with the nonce it carries: marker,
/// length field, header, nonce, and a ciphertext that is `data` plus the
/// tag, which AES-GCM opens back to `data`.
pub open spec fn is_password_encryption_of(c: Seq<u8>, data: Seq<u8>, password: Seq<u8>, salt: Seq<u8>, header: Seq<u8>) -> bool {
    let n = password_nonce(c, header.len());
    &&& c.len() == 17 + header.len() + data.len() + TAG_LEN
    &&& derived_key(password, salt) matches Ok(k) && aes_gcm_sealed(k, n, data).len() == data.len() + TAG_LEN
    &&& password_encryption(data, password, salt, header, n) == Ok::<Seq<u8>, ErrorKind>(c)
    &&& derived_key(password, salt) matches Ok(k) && aes_gcm_opened(k, n, aes_gcm_sealed(k, n, data)) == Some(data)
}

/// The key that key-mode decryption uses: the caller's, else the one
/// embedded in the header.
pub open spec fn decryption_key(embedded: Option<Seq<char>>, key: Option<Seq<u8>>) -> Result<Seq<u8>, ErrorKind> {
    match key {
        Some(k) => if k.len() == KEY_LEN { Ok(k) } else { Err(ErrorKind::Decryption) },
        None => match embedded {
            Some(t) => match base64_bytes(t) {
                Some(k) => if k.len() == KEY_LEN { Ok(k) } else { Err(ErrorKind::Decryption) },
                None => Err(ErrorKind::Decryption),
            },
            None => Err(ErrorKind::Decryption),
        },
    }
}

/// Key-mode decryption of `data`, whose header (read by the caller) names
/// `filename` and may embed a key.
pub open spec fn key_decryption(data: Seq<u8>, filename: Seq<char>, embedded: Option<Seq<char>>, key: Option<Seq<u8>>) -> Result<(Seq<u8>, Seq<char>), ErrorKind> {
    match key_container_parts(data) {
        Err(e) => Err(e),
        Ok((_h, nonce, ciphertext)) => match decryption_key(embedded, key) {
            Err(e) => Err(e),
            Ok(k) => match opened(k, nonce, ciphertext) {
                Ok(p) => Ok((p, filename)),
                Err(e) => Err(e),
            },
        },
    }
}

/// Password-mode decryption of `data`, whose header (read by the caller)
/// names `filename`, the base64 `salt`, the `kdf` and the Argon2id costs.
pub open spec fn password_decryption(
    data: Seq<u8>,
    filename: Seq<char>,
    salt: Seq<char>,
    kdf: Seq<char>,
    m_cost: u32,
    t_cost: u32,
    p_cost: u32,
    password: Seq<u8>,
) -> Result<(Seq<u8>, Seq<char>), ErrorKind> {
    match password_container_parts(data) {
        Err(e) => Err(e),
        Ok((_h, nonce, ciphertext)) => match base64_bytes(salt) {
            None => Err(ErrorKind::Decryption),
            Some(s) => if kdf != KDF_ARGON2ID@ {
                Err(ErrorKind::Decryption)
            } else {
                match derived_key_with(password, s, m_cost, t_cost, p_cost) {
                    Err(e) => Err(e),
                    Ok(k) => match opened(k, nonce, ciphertext) {
                        Ok(p) => Ok((p, filename)),
                        Err(e) => Err(e),
                    },
                }
            },
        },
    }
}

pub open spec fn text_of(t: Option<String>) -> Option<Seq<char>> {
    match t {
        Some(s) => Some(s@),
        None => None,
    }
}

/// A cost recorded in a header, or the fixed one when it is absent.
pub open spec fn cost_or(recorded: Option<u32>, fixed: u32) -> u32 {
    match recorded {
        Some(c) => c,
        None => fixed,
    }
}

fn recorded_cost(recorded: Option<u32>, fixed: u32) -> (r: u32)
    ensures
        r == cost_or(recorded, fixed),
{
    match recorded {
        Some(c) => c,
        None => fixed,
    }
}

pub open spec fn bytes_of(b: Option<&[u8]>) -> Option<Seq<u8>> {
    match b {
        Some(s) => Some(s@),
        None => None,
    }
}

/// The 32 bytes of `k` as an array.
fn key_array(k: &[u8]) -> (r: [u8; 32])
    requires
        k@.len() == KEY_LEN,
    ensures
        r@ == k@,
{
    let mut r = [0u8; 32];
    let mut i: usize = 0;
    while i < 32
        invariant
            i <= 32,
            k@.len() == 32,
            forall|j: int| 0 <= j < i ==> r@[j] == k@[j],
        decreases 32 - i,
    {
        r[i] = k[i];
        i = i + 1;
    }
    assert(r@ == k@);
    r
}

/// Seals `data` under `key` into a key container with `header_json` and `nonce`.
fn seal_key_container(data: &[u8], key: &SecureKey, header_json: &[u8], nonce: &[u8]) -> (r: Result<Vec<u8>, CryptoError>)
    requires
        nonce@.len() == NONCE_LEN,
    ensures
        agrees(r, key_encryption(data@, key@, header_json@, nonce@), |c: Vec<u8>| c@),
        r is Ok ==> aes_gcm_opened(key@, nonce@, aes_gcm_sealed(key@, nonce@, data@)) == Some(data@),
        r is Ok ==> aes_gcm_sealed(key@, nonce@, data@).len() == data@.len() + TAG_LEN,
{
    proof {
        key.lemma_len();
    }
    let ciphertext = seal_with_nonce(key, nonce, data)?;
    encode_key_container(header_json, nonce, ciphertext.as_slice())
}

/// Seals `data` under a derived key into a password container.
fn seal_password_container(data: &[u8], key: &SecureKey, header_json: &[u8], nonce: &[u8]) -> (r: Result<Vec<u8>, CryptoError>)
    requires
        nonce@.len() == NONCE_LEN,
    ensures
        r is Ok <==> data@.len() <= MAX_PLAINTEXT_LEN && header_json@.len() <= u32::MAX,
        r matches Ok(c) ==> c@ == password_container(header_json@, nonce@, aes_gcm_sealed(key@, nonce@, data@)),
        r is Ok ==> aes_gcm_opened(key@, nonce@, aes_gcm_sealed(key@, nonce@, data@)) == Some(data@),
        r is Ok ==> aes_gcm_sealed(key@, nonce@, data@).len() == data@.len() + TAG_LEN,
        r matches Err(e) ==> e is EncryptionError,
{
    let ciphertext = seal_with_nonce(key, nonce, data)?;
    encode_password_container(header_json, nonce, ciphertext.as_slice())
}

/// Key-mode encryption with a given nonce: `data` sealed under the 32-byte
/// `key`, framed with `header_json` (the serialized `XdHeader`).
pub fn encrypt_with_header_and_nonce(data: &[u8], key: &[u8], header_json: &[u8], nonce: &[u8]) -> (r: Result<Vec<u8>, CryptoError>)
    requires
        nonce@.len() == NONCE_LEN,
    ensures
        agrees(r, key_encryption(data@, key@, header_json@, nonce@), |c: Vec<u8>| c@),
        r matches Ok(c) ==> is_key_encryption_of(c@, data@, key@, header_json@),
{
    if key.len() != KEY_LEN {
        return Err(CryptoError::EncryptionError("Key must be exactly 32 bytes".to_string()));
    }
    let secure_key = SecureKey::new(key_array(key));
    let r = seal_key_container(data, &secure_key, header_json, nonce);
    proof {
        if r is Ok {
            let c = r->Ok_0;
            assert(c@ == key_container(header_json@, nonce@, aes_gcm_sealed(key@, nonce@, data@)));
            assert(key_nonce(c@, header_json@.len()) == nonce@);
        }
    }
    r
}

/// Key-mode encryption: `data` sealed under the 32-byte `key` with a fresh
/// nonce, framed with `header_json` (the serialized `XdHeader`).
pub fn encrypt_with_header(data: &[u8], key: &[u8], header_json: &[u8]) -> (r: Result<Vec<u8>, CryptoError>)
    ensures
        key@.len() != KEY_LEN ==> r is Err,
        r matches Ok(c) ==> is_key_encryption_of(c@, data@, key@, header_json@),
        r matches Err(e) ==> e is EncryptionError,
{
    if key.len() != KEY_LEN {
        return Err(CryptoError::EncryptionError("Key must be exactly 32 bytes".to_string()));
    }
    let nonce = fresh_nonce()?;
    encrypt_with_header_and_nonce(data, key, header_json, nonce.as_slice())
}

/// Password-mode encryption with a given nonce: the key is derived from
/// `password` and the 32-byte `salt`, and `data` is sealed under it and
/// framed with `header_json` (the serialized `XdPasswordHeader`).
pub fn encrypt_with_password_and_nonce(data: &[u8], password: &str, salt: &[u8], header_json: &[u8], nonce: &[u8]) -> (r: Result<Vec<u8>, CryptoError>)
    requires
        nonce@.len() == NONCE_LEN,
    ensures
        agrees(r, password_encryption(data@, password.spec_bytes(), salt@, header_json@, nonce@), |c: Vec<u8>| c@),
        r matches Ok(c) ==> is_password_encryption_of(c@, data@, password.spec_bytes(), salt@, header_json@),
{
    let derived = derive_key_from_password_argon2(password, salt)?;
    let secure_key = SecureKey::new(derived);
    let r = seal_password_container(data, &secure_key, header_json, nonce);
    proof {
        if r is Ok {
            assert(password_nonce(r->Ok_0@, header_json@.len()) == nonce@);
        }
    }
    r
}

/// Password-mode encryption: the key is derived from `password` and the
/// 32-byte `salt`, and `data` is sealed under it with a fresh nonce and
/// framed with `header_json` (the serialized `XdPasswordHeader`).
pub fn encrypt_with_password(data: &[u8], password: &str, salt: &[u8], header_json: &[u8]) -> (r: Result<Vec<u8>, CryptoError>)
    ensures
        derived_key(password.spec_bytes(), salt@) is Err ==> (r matches Err(e) && e is KeyDerivationError),
        r matches Ok(c) ==> is_password_encryption_of(c@, data@, password.spec_bytes(), salt@, header_json@),
        (r matches Err(e) && e is KeyDerivationError) ==> derived_key(password.spec_bytes(), salt@) is Err,
        r matches Err(e) ==> e is KeyDerivationError || e is EncryptionError,
{
    let derived = derive_key_from_password_argon2(password, salt)?;
    let secure_key = SecureKey::new(derived);
    let nonce = fresh_nonce()?;
    let r = seal_password_container(data, &secure_key, header_json, nonce.as_slice());
    proof {
        if r is Ok {
            assert(password_nonce(r->Ok_0@, header_json@.len()) == nonce@);
        }
    }
    r
}

/// The key for key-mode decryption: `key` when given, which must be 32
/// bytes; otherwise the key embedded in the header.
fn select_key(header: &XdHeader, key: Option<&[u8]>) -> (r: Result<SecureKey, CryptoError>)
    ensures
        agrees(r, decryption_key(text_of(header.key), bytes_of(key)), |k: SecureKey| k@),
{
    match key {
        Some(k) => {
            if k.len() != KEY_LEN {
                return Err(CryptoError::DecryptionError("Key must be exactly 32 bytes".to_string()));
            }
            Ok(SecureKey::new(key_array(k)))
        },
        None => match &header.key {
            Some(text) => match base64_decode(text.as_str()) {
                Some(mut decoded) => {
                    if decoded.len() != KEY_LEN {
                        wipe_vec(&mut decoded);
                        return Err(CryptoError::DecryptionError("Invalid key length".to_string()));
                    }
                    let secure_key = SecureKey::new(key_array(decoded.as_slice()));
                    wipe_vec(&mut decoded);
                    Ok(secure_key)
                },
                None => Err(CryptoError::DecryptionError("Invalid embedded key format".to_string())),
            },
            None => Err(CryptoError::DecryptionError("No decryption key available".to_string())),
        },
    }
}

/// Key-mode decryption of the container `data`, whose header the caller has
/// read into `header`. Uses `key` when given, else the key embedded in the
/// header. Returns the plaintext and the original filename.
pub fn decrypt_with_header(data: &[u8], header: &XdHeader, key: Option<&[u8]>) -> (r: Result<(Vec<u8>, String), CryptoError>)
    ensures
        agrees(r, key_decryption(data@, header.filename@, text_of(header.key), bytes_of(key)), |x: (Vec<u8>, String)| (x.0@, x.1@)),
{
    let layout = match locate_key_container(data) {
        Ok(l) => l,
        Err(e) => return Err(e),
    };
    let secure_key = select_key(header, key)?;
    let total = data.len();
    let nonce = &data[layout.header_end..layout.header_end + 12];
    let ciphertext = &data[layout.header_end + 12..total];
    let plaintext = open(&secure_key, nonce, ciphertext)?;
    Ok((plaintext, header.filename.clone()))
}

/// Password-mode decryption of the container `data`, whose header the
/// caller has read into `header`. The key is derived again from `password`
/// with the salt and the Argon2id costs the header records (the fixed costs
/// stand in for absent ones). Returns the plaintext and the original
/// filename.
pub fn decrypt_with_password(data: &[u8], header: &XdPasswordHeader, password: &str) -> (r: Result<(Vec<u8>, String), CryptoError>)
    ensures
        agrees(
            r,
            password_decryption(
                data@,
                header.filename@,
                header.salt@,
                header.kdf@,
                cost_or(header.memory_cost, ARGON2_MEMORY_COST),
                cost_or(header.time_cost, ARGON2_TIME_COST),
                cost_or(header.parallelism, ARGON2_PARALLELISM),
                password.spec_bytes(),
            ),
            |x: (Vec<u8>, String)| (x.0@, x.1@),
        ),
{
    let layout = match locate_password_container(data) {
        Ok(l) => l,
        Err(e) => return Err(e),
    };
    let salt = match base64_decode(header.salt.as_str()) {
        Some(s) => s,
        None => return Err(CryptoError::DecryptionError("Invalid salt format".to_string())),
    };
    if header.kdf != KDF_ARGON2ID.to_owned() {
        return Err(CryptoError::DecryptionError("Unsupported key derivation function".to_string()));
    }
    let m_cost = recorded_cost(header.memory_cost, ARGON2_MEMORY_COST);
    let t_cost = recorded_cost(header.time_cost, ARGON2_TIME_COST);
    let p_cost = recorded_cost(header.parallelism, ARGON2_PARALLELISM);
    let derived = derive_key_with_costs(password, salt.as_slice(), m_cost, t_cost, p_cost)?;
    let secure_key = SecureKey::new(derived);
    let total = data.len();
    let nonce = &data[layout.header_end..layout.header_end + 12];
    let ciphertext = &data[layout.header_end + 12..total];
    let plaintext = open(&secure_key, nonce, ciphertext)?;
    Ok((plaintext, header.filename.clone()))
}

/// Key-mode decryption of `data`, then the compression layer undone.
pub open spec fn file_key_decryption(data: Seq<u8>, filename: Seq<char>, embedded: Option<Seq<char>>, key: Option<Seq<u8>>) -> Result<(Seq<u8>, Seq<char>), ErrorKind> {
    match key_decryption(data, filename, embedded, key) {
        Err(e) => Err(e),
        Ok((p, f)) => match unpacked(p) {
            Ok(x) => Ok((x, f)),
            Err(e) => Err(e),
        },
    }
}

/// Password-mode decryption of `data`, then the compression layer undone.
pub open spec fn file_password_decryption(
    data: Seq<u8>,
    filename: Seq<char>,
    salt: Seq<char>,
    kdf: Seq<char>,
    m_cost: u32,
    t_cost: u32,
    p_cost: u32,
    password: Seq<u8>,
) -> Result<(Seq<u8>, Seq<char>), ErrorKind> {
    match password_decryption(data, filename, salt, kdf, m_cost, t_cost, p_cost, password) {
        Err(e) => Err(e),
        Ok((p, f)) => match unpacked(p) {
            Ok(x) => Ok((x, f)),
            Err(e) => Err(e),
        },
    }
}

/// Compresses `input` and encrypts the flagged payload in key mode under the
/// 32-byte `key`, framed with `header_json`.
pub fn encrypt_bytes_with_key(input: &[u8], key: &[u8], header_json: &[u8]) -> (r: Result<Vec<u8>, CryptoError>)
    ensures
        key@.len() != KEY_LEN ==> r is Err,
        r matches Ok(c) ==> exists|p: Seq<u8>|
            #[trigger] is_key_encryption_of(c@, p, key@, header_json@) && unpacked(p) == Ok::<Seq<u8>, ErrorKind>(input@),
        r matches Err(e) ==> e is EncryptionError,
{
    let payload = compress_payload(input)?;
    encrypt_with_header(payload.as_slice(), key, header_json)
}

/// Compresses `input` and encrypts the flagged payload in password mode,
/// under the key derived from `password` and the 32-byte `salt`.
pub fn encrypt_bytes_with_password(input: &[u8], password: &str, salt: &[u8], header_json: &[u8]) -> (r: Result<Vec<u8>, CryptoError>)
    ensures
        derived_key(password.spec_bytes(), salt@) is Err ==> (r matches Err(e) && e is KeyDerivationError),
        (r matches Err(e) && e is KeyDerivationError) ==> derived_key(password.spec_bytes(), salt@) is Err,
        r matches Ok(c) ==> exists|p: Seq<u8>|
            #[trigger] is_password_encryption_of(c@, p, password.spec_bytes(), salt@, header_json@)
                && unpacked(p) == Ok::<Seq<u8>, ErrorKind>(input@),
        r matches Err(e) ==> e is KeyDerivationError || e is EncryptionError,
{
    let payload = compress_payload(input)?;
    encrypt_with_password(payload.as_slice(), password, salt, header_json)
}

/// Key-mode decryption of `data` with `header` as the caller read it, then
/// the compression layer undone.
pub fn decrypt_bytes_with_key(data: &[u8], header: &XdHeader, key: Option<&[u8]>) -> (r: Result<(Vec<u8>, String), CryptoError>)
    ensures
        agrees(r, file_key_decryption(data@, header.filename@, text_of(header.key), bytes_of(key)), |x: (Vec<u8>, String)| (x.0@, x.1@)),
{
    let (payload, filename) = decrypt_with_header(data, header, key)?;
    let plain = decompress_payload(payload.as_slice())?;
    Ok((plain, filename))
}

/// Password-mode decryption of `data` with `header` as the caller read it,
/// then the compression layer undone.
pub fn decrypt_bytes_with_password(data: &[u8], header: &XdPasswordHeader, password: &str) -> (r: Result<(Vec<u8>, String), CryptoError>)
    ensures
        agrees(
            r,
            file_password_decryption(
                data@,
                header.filename@,
                header.salt@,
                header.kdf@,
                cost_or(header.memory_cost, ARGON2_MEMORY_COST),
                cost_or(header.time_cost, ARGON2_TIME_COST),
                cost_or(header.parallelism, ARGON2_PARALLELISM),
                password.spec_bytes(),
            ),
            |x: (Vec<u8>, String)| (x.0@, x.1@),
        ),
{
    let (payload, filename) = decrypt_with_password(data, header, password)?;
    let plain = decompress_payload(payload.as_slice())?;
    Ok((plain, filename))
}

/// The secret an encryption or decryption runs on.
#[derive(Clone, Copy, Debug, PartialEq, Eq, Structural)]
pub enum Credential {
    /// A password, from which the key is derived.
    Password,
    /// A caller-supplied 32-byte key.
    Key,
    /// No secret: encryption generates a key and hands it back; decryption
    /// uses the key embedded in the header.
    Absent,
}

/// Which secret an encryption uses. Both a password and a key at once are
/// refused, as is a key that is not 32 bytes.
pub fn encryption_credential(password: Option<&str>, key: Option<&[u8]>) -> (r: Result<Credential, CryptoError>)
    ensures
        password is Some && key is Some ==> (r matches Err(e) && e is EncryptionError),
        password is Some && key is None ==> r == Ok::<Credential, CryptoError>(Credential::Password),
        password is None && key is None ==> r == Ok::<Credential, CryptoError>(Credential::Absent),
        password is None && key is Some ==> if key->Some_0@.len() == KEY_LEN {
            r == Ok::<Credential, CryptoError>(Credential::Key)
        } else {
            r matches Err(e) && e is EncryptionError
        },
{
    match (password, key) {
        (Some(_), Some(_)) => Err(CryptoError::EncryptionError("Cannot use both a password and a key".to_string())),
        (Some(_), None) => Ok(Credential::Password),
        (None, Some(k)) => if k.len() == KEY_LEN {
            Ok(Credential::Key)
        } else {
            Err(CryptoError::EncryptionError("Key must be exactly 32 bytes".to_string()))
        },
        (None, None) => Ok(Credential::Absent),
    }
}

/// Which secret a decryption uses. Both a password and a key at once are
/// refused, as is a key that is not 32 bytes; with neither, the key
/// embedded in a key container is used.
pub fn decryption_credential(password: Option<&str>, key: Option<&[u8]>) -> (r: Result<Credential, CryptoError>)
    ensures
        password is Some && key is Some ==> (r matches Err(e) && e is DecryptionError),
        password is Some && key is None ==> r == Ok::<Credential, CryptoError>(Credential::Password),
        password is None && key is None ==> r == Ok::<Credential, CryptoError>(Credential::Absent),
        password is None && key is Some ==> if key->Some_0@.len() == KEY_LEN {
            r == Ok::<Credential, CryptoError>(Credential::Key)
        } else {
            r matches Err(e) && e is DecryptionError
        },
{
    match (password, key) {
        (Some(_), Some(_)) => Err(CryptoError::DecryptionError("Cannot use both a password and a key".to_string())),
        (Some(_), None) => Ok(Credential::Password),
        (None, Some(k)) => if k.len() == KEY_LEN {
            Ok(Credential::Key)
        } else {
            Err(CryptoError::DecryptionError("Key must be exactly 32 bytes".to_string()))
        },
        (None, None) => Ok(Credential::Absent),
    }
}

/// Decrypting, with the key it was sealed under, a key container that
/// holds a payload which unpacks to `input` gives back `input` and the
/// filename of its header. The same holds when no key is given and the
/// header embeds the key. (A header of 0xFF00_0000 bytes or more is left
/// out: its length field would begin with the password marker.)
pub proof fn lemma_key_round_trip(
    input: Seq<u8>,
    payload: Seq<u8>,
    key: Seq<u8>,
    header_json: Seq<u8>,
    c: Seq<u8>,
    filename: Seq<char>,
    embedded: Seq<char>,
)
    requires
        is_key_encryption_of(c, payload, key, header_json),
        unpacked(payload) == Ok::<Seq<u8>, ErrorKind>(input),
        header_json.len() < 0xFF00_0000,
    ensures
        file_key_decryption(c, filename, None, Some(key)) == Ok::<(Seq<u8>, Seq<char>), ErrorKind>((input, filename)),
        base64_bytes(embedded) == Some(key) ==> file_key_decryption(c, filename, Some(embedded), None)
            == Ok::<(Seq<u8>, Seq<char>), ErrorKind>((input, filename)),
{
    let n = key_nonce(c, header_json.len());
    lemma_key_container_round_trip(header_json, n, aes_gcm_sealed(key, n, payload));
}

/// Decrypting, with the password it was sealed under, a password container
/// that holds a payload which unpacks to `input` gives back `input` and the
/// filename of its header, provided the header records the salt, Argon2id
/// and the fixed costs.
pub proof fn lemma_password_round_trip(
    input: Seq<u8>,
    payload: Seq<u8>,
    password: Seq<u8>,
    salt: Seq<u8>,
    header_json: Seq<u8>,
    c: Seq<u8>,
    filename: Seq<char>,
    salt_text: Seq<char>,
)
    requires
        is_password_encryption_of(c, payload, password, salt, header_json),
        unpacked(payload) == Ok::<Seq<u8>, ErrorKind>(input),
        base64_bytes(salt_text) == Some(salt),
    ensures
        file_password_decryption(
            c,
            filename,
            salt_text,
            KDF_ARGON2ID@,
            ARGON2_MEMORY_COST,
            ARGON2_TIME_COST,
            ARGON2_PARALLELISM,
            password,
        ) == Ok::<(Seq<u8>, Seq<char>), ErrorKind>((input, filename)),
{
    let n = password_nonce(c, header_json.len());
    let k = derived_key(password, salt)->Ok_0;
    lemma_password_container_round_trip(header_json, n, aes_gcm_sealed(k, n, payload));
}

/// Key-mode decryption refuses a password container, and password-mode
/// decryption a key container, with the mode error: whatever secret is
/// given, no key is derived and no tag is checked.
pub proof fn lemma_mode_mismatch(
    pc: Seq<u8>,
    kc: Seq<u8>,
    data: Seq<u8>,
    password: Seq<u8>,
    salt: Seq<u8>,
    key: Seq<u8>,
    header_json: Seq<u8>,
    filename: Seq<char>,
    embedded: Option<Seq<char>>,
    given_key: Option<Seq<u8>>,
    salt_text: Seq<char>,
    kdf: Seq<char>,
    m_cost: u32,
    t_cost: u32,
    p_cost: u32,
    given_password: Seq<u8>,
)
    requires
        is_password_encryption_of(pc, data, password, salt, header_json),
        is_key_encryption_of(kc, data, key, header_json),
        header_json.len() < 0xFF00_0000,
    ensures
        key_decryption(pc, filename, embedded, given_key)
            == Err::<(Seq<u8>, Seq<char>), ErrorKind>(ErrorKind::WrongDecryptionMethod),
        password_decryption(kc, filename, salt_text, kdf, m_cost, t_cost, p_cost, given_password)
            == Err::<(Seq<u8>, Seq<char>), ErrorKind>(ErrorKind::WrongDecryptionMethod),
{
    let n = key_nonce(kc, header_json.len());
    lemma_key_container_round_trip(header_json, n, aes_gcm_sealed(key, n, data));
    assert(pc[0] == PASSWORD_MARKER);
}

/// A key or password container cut short before the end of its nonce is
/// refused with the format error, whatever secret is given.
pub proof fn lemma_truncated_decryption(
    kc: Seq<u8>,
    pc: Seq<u8>,
    data: Seq<u8>,
    key: Seq<u8>,
    password: Seq<u8>,
    salt: Seq<u8>,
    header_json: Seq<u8>,
    keep: int,
    filename: Seq<char>,
    embedded: Option<Seq<char>>,
    given_key: Option<Seq<u8>>,
    salt_text: Seq<char>,
    kdf: Seq<char>,
    m_cost: u32,
    t_cost: u32,
    p_cost: u32,
    given_password: Seq<u8>,
)
    requires
        is_key_encryption_of(kc, data, key, header_json),
        is_password_encryption_of(pc, data, password, salt, header_json),
        header_json.len() < 0xFF00_0000,
        0 <= keep < 16 + header_json.len(),
    ensures
        key_decryption(kc.take(keep), filename, embedded, given_key)
            == Err::<(Seq<u8>, Seq<char>), ErrorKind>(ErrorKind::Format),
        password_decryption(pc.take(keep + 1), filename, salt_text, kdf, m_cost, t_cost, p_cost, given_password)
            == Err::<(Seq<u8>, Seq<char>), ErrorKind>(ErrorKind::Format),
{
    let n = key_nonce(kc, header_json.len());
    lemma_cut_container(header_json, n, aes_gcm_sealed(key, n, data), keep);
    let pn = password_nonce(pc, header_json.len());
    let k = derived_key(password, salt)->Ok_0;
    lemma_cut_container(header_json, pn, aes_gcm_sealed(k, pn, data), keep);
}

} // verus!
