use vstd::prelude::*;

verus! {

/// Failures of the encryption engine.
#[derive(Debug)]
pub enum CryptoError {
    EncryptionError(String),
    DecryptionError(String),
    KeyDerivationError(String),
    /// The authentication tag did not verify: wrong secret or altered data.
    AuthenticationError,
    /// The container is structurally invalid.
    FormatError,
    /// A password container was given a key, or a key container a password.
    WrongDecryptionMethod(String),
    AsyncError(String),
    CompressionError(String),
    DecompressionError(String),
}

/// The variant of a `CryptoError`, without its message.
#[derive(Clone, Copy, Debug, PartialEq, Eq, Structural)]
pub enum ErrorKind {
    Encryption,
    Decryption,
    KeyDerivation,
    Authentication,
    Format,
    WrongDecryptionMethod,
    Async,
    Compression,
    Decompression,
}

impl CryptoError {
    pub open spec fn spec_kind(&self) -> ErrorKind {
        match self {
            CryptoError::EncryptionError(_) => ErrorKind::Encryption,
            CryptoError::DecryptionError(_) => ErrorKind::Decryption,
            CryptoError::KeyDerivationError(_) => ErrorKind::KeyDerivation,
            CryptoError::AuthenticationError => ErrorKind::Authentication,
            CryptoError::FormatError => ErrorKind::Format,
            CryptoError::WrongDecryptionMethod(_) => ErrorKind::WrongDecryptionMethod,
            CryptoError::AsyncError(_) => ErrorKind::Async,
            CryptoError::CompressionError(_) => ErrorKind::Compression,
            CryptoError::DecompressionError(_) => ErrorKind::Decompression,
        }
    }

    /// The variant of this error.
    #[verifier::when_used_as_spec(spec_kind)]
    pub fn kind(&self) -> (r: ErrorKind)
        ensures
            r == self.spec_kind(),
    {
        match self {
            CryptoError::EncryptionError(_) => ErrorKind::Encryption,
            CryptoError::DecryptionError(_) => ErrorKind::Decryption,
            CryptoError::KeyDerivationError(_) => ErrorKind::KeyDerivation,
            CryptoError::AuthenticationError => ErrorKind::Authentication,
            CryptoError::FormatError => ErrorKind::Format,
            CryptoError::WrongDecryptionMethod(_) => ErrorKind::WrongDecryptionMethod,
            CryptoError::AsyncError(_) => ErrorKind::Async,
            CryptoError::CompressionError(_) => ErrorKind::Compression,
            CryptoError::DecompressionError(_) => ErrorKind::Decompression,
        }
    }
}

/// A result of the engine agrees with its model when both succeed with the
/// same value, or both fail with the same kind of error.
pub open spec fn agrees<T, V>(r: Result<T, CryptoError>, m: Result<V, ErrorKind>, view: spec_fn(T) -> V) -> bool {
    match (r, m) {
        (Ok(a), Ok(b)) => view(a) == b,
        (Err(e), Err(k)) => e.spec_kind() == k,
        _ => false,
    }
}

} // verus!
