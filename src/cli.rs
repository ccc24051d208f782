use vstd::prelude::*;

use vstd::string::StringExecFns;

use crate::encoding::{base64_bytes, base64_decode};
use crate::secure_key::{wipe_vec, KEY_LEN};

verus! {

/// Why a key given as base64 text was refused.
#[derive(Clone, Copy, Debug, PartialEq, Eq, Structural)]
pub enum KeyInputError {
    /// The text is not valid standard base64.
    InvalidBase64,
    /// The text decodes to this many bytes instead of 32.
    WrongLength(usize),
}

/// The stem of the last component of `path`, as `std::path::Path` reads it.
pub uninterp spec fn path_file_stem(path: Seq<char>) -> Option<Seq<char>>;

/// Relies on `std::path::Path::file_stem`: the final component without its
/// extension, if the path has a final component. A stem taken from UTF-8
/// text is UTF-8, so `to_str` keeps all of it.
#[verifier::external_body]
fn file_stem(path: &str) -> (r: Option<String>)
    ensures
        r is Some <==> path_file_stem(path@) is Some,
        r matches Some(s) ==> path_file_stem(path@) == Some(s@),
{
    let stem = std::path::Path::new(path).file_stem()?;
    Some(stem.to_str()?.to_string())
}

/// The default output name for encrypting `input_file`: its stem (or
/// `file` when it has none) with the `.xd` extension.
pub fn generate_encrypt_output(input_file: &str) -> (r: String)
    ensures
        r@ == match path_file_stem(input_file@) {
            Some(s) => s,
            None => "file"@,
        } + ".xd"@,
{
    let mut out = match file_stem(input_file) {
        Some(s) => s,
        None => "file".to_owned(),
    };
    out.append(".xd");
    out
}

/// Decodes a key given as standard base64 and checks that it is 32 bytes.
/// A decoded buffer of the wrong length is wiped before it is dropped.
pub fn validate_key(key_b64: &str) -> (r: Result<Vec<u8>, KeyInputError>)
    ensures
        match base64_bytes(key_b64@) {
            None => r == Err::<Vec<u8>, KeyInputError>(KeyInputError::InvalidBase64),
            Some(b) => if b.len() == KEY_LEN {
                r matches Ok(k) && k@ == b
            } else {
                r == Err::<Vec<u8>, KeyInputError>(KeyInputError::WrongLength(b.len() as usize))
            },
        },
{
    match base64_decode(key_b64) {
        None => Err(KeyInputError::InvalidBase64),
        Some(mut key) => {
            let n = key.len();
            if n != KEY_LEN {
                wipe_vec(&mut key);
                Err(KeyInputError::WrongLength(n))
            } else {
                Ok(key)
            }
        },
    }
}

} // verus!
