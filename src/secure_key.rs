use vstd::prelude::*;

verus! {

/// Length in bytes of every AES-256 key handled by the engine.
pub const KEY_LEN: usize = 32;

/// A 256-bit secret that is overwritten with zeros when it is dropped.
pub struct SecureKey {
    key: [u8; 32],
}

impl View for SecureKey {
    type V = Seq<u8>;

    closed spec fn view(&self) -> Seq<u8> {
        self.key@
    }
}

impl SecureKey {
    /// Takes ownership of the 32 key bytes.
    pub fn new(key: [u8; 32]) -> (r: SecureKey)
        ensures
            r@ == key@,
    {
        SecureKey { key }
    }

    /// Every key is 32 bytes long.
    pub proof fn lemma_len(&self)
        ensures
            self@.len() == KEY_LEN,
    {
    }

    /// The key bytes, for the duration of the borrow.
    pub fn as_slice(&self) -> (r: &[u8])
        ensures
            r@ == self@,
            r@.len() == KEY_LEN,
    {
        self.key.as_slice()
    }
}

impl Drop for SecureKey {
    fn drop(&mut self)
        opens_invariants none
        no_unwind
    {
        wipe(&mut self.key);
    }
}

/// Relies on zeroize's `Zeroize` for byte arrays: every byte is overwritten
/// with zero by volatile writes that the optimizer keeps.
#[verifier::external_body]
fn wipe(bytes: &mut [u8; 32])
    ensures
        final(bytes)@ == Seq::new(32, |i: int| 0u8),
    opens_invariants none
    no_unwind
{
    zeroize::Zeroize::zeroize(bytes)
}

/// Relies on zeroize's `Zeroize` for `Vec<u8>`: the bytes are overwritten with
/// zero, then the vector is cleared.
#[verifier::external_body]
pub(crate) fn wipe_vec(bytes: &mut Vec<u8>)
    ensures
        final(bytes)@.len() == 0,
    opens_invariants none
    no_unwind
{
    zeroize::Zeroize::zeroize(bytes)
}

} // verus!
