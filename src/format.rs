use vstd::prelude::*;

use crate::error::{agrees, CryptoError, ErrorKind};

verus! {

/// First byte of every password container.
pub const PASSWORD_MARKER: u8 = 0xFF;

/// Bytes of the big-endian header length field.
pub const LENGTH_FIELD_LEN: usize = 4;

/// Bytes of the AES-GCM nonce stored after the header.
pub const NONCE_LEN: usize = 12;

/// The big-endian bytes of a 32-bit number.
pub open spec fn be32(n: nat) -> Seq<u8> {
    seq![
        (n / 0x100_0000 % 0x100) as u8,
        (n / 0x1_0000 % 0x100) as u8,
        (n / 0x100 % 0x100) as u8,
        (n % 0x100) as u8,
    ]
}

/// The number whose big-endian bytes are the four at `at`.
pub open spec fn read_be32(b: Seq<u8>, at: int) -> nat {
    (b[at] as nat) * 0x100_0000 + (b[at + 1] as nat) * 0x1_0000 + (b[at + 2] as nat) * 0x100
        + (b[at + 3] as nat)
}

/// Header bytes, nonce and ciphertext with its tag.
pub type Parts = (Seq<u8>, Seq<u8>, Seq<u8>);

/// A key container: header length, header, nonce, ciphertext with its tag.
pub open spec fn key_container(header: Seq<u8>, nonce: Seq<u8>, ciphertext: Seq<u8>) -> Seq<u8> {
    be32(header.len()) + header + nonce + ciphertext
}

/// A password container: the marker byte, then the layout of a key container.
pub open spec fn password_container(header: Seq<u8>, nonce: Seq<u8>, ciphertext: Seq<u8>) -> Seq<u8> {
    seq![PASSWORD_MARKER] + key_container(header, nonce, ciphertext)
}

/// Header, nonce and ciphertext of the length-prefixed body that starts at `start`.
pub open spec fn body_parts(data: Seq<u8>, start: int) -> Result<Parts, ErrorKind> {
    if data.len() < start + 4 {
        Err(ErrorKind::Format)
    } else {
        let h = start + 4 + read_be32(data, start);
        if data.len() < h + 12 {
            Err(ErrorKind::Format)
        } else {
            Ok((data.subrange(start + 4, h), data.subrange(h, h + 12), data.subrange(h + 12, data.len() as int)))
        }
    }
}

/// How a key-mode decryption splits `data`, or why it refuses it.
pub open spec fn key_container_parts(data: Seq<u8>) -> Result<Parts, ErrorKind> {
    if data.len() < 4 {
        Err(ErrorKind::Format)
    } else if data[0] == PASSWORD_MARKER {
        Err(ErrorKind::WrongDecryptionMethod)
    } else {
        body_parts(data, 0)
    }
}

/// How a password-mode decryption splits `data`, or why it refuses it.
pub open spec fn password_container_parts(data: Seq<u8>) -> Result<Parts, ErrorKind> {
    if data.len() == 0 {
        Err(ErrorKind::Format)
    } else if data[0] != PASSWORD_MARKER {
        Err(ErrorKind::WrongDecryptionMethod)
    } else {
        body_parts(data, 1)
    }
}

/// Where the parts of a checked container lie: the header ends at
/// `header_end`, the nonce takes the next twelve bytes, the ciphertext the rest.
pub struct Layout {
    pub header_start: usize,
    pub header_end: usize,
}

impl Layout {
    pub open spec fn parts_of(self, data: Seq<u8>) -> (Seq<u8>, Seq<u8>, Seq<u8>) {
        (
            data.subrange(self.header_start as int, self.header_end as int),
            data.subrange(self.header_end as int, self.header_end + 12),
            data.subrange(self.header_end + 12, data.len() as int),
        )
    }

    pub open spec fn fits(self, data: Seq<u8>) -> bool {
        self.header_start <= self.header_end && self.header_end + 12 <= data.len()
    }
}

/// Appends `bytes` to `out`.
pub(crate) fn append(out: &mut Vec<u8>, bytes: &[u8])
    ensures
        final(out)@ == old(out)@ + bytes@,
{
    let mut i: usize = 0;
    while i < bytes.len()
        invariant
            i <= bytes@.len(),
            out@ == old(out)@ + bytes@.subrange(0, i as int),
        decreases bytes@.len() - i,
    {
        out.push(bytes[i]);
        i = i + 1;
        assert(bytes@.subrange(0, i as int) == bytes@.subrange(0, i - 1) + seq![bytes@[i - 1]]);
    }
    assert(bytes@.subrange(0, bytes@.len() as int) == bytes@);
}

/// The four big-endian bytes of `n`.
fn be32_bytes(n: u32) -> (r: [u8; 4])
    ensures
        r@ == be32(n as nat),
{
    let r = [(n >> 24) as u8, ((n >> 16) & 0xff) as u8, ((n >> 8) & 0xff) as u8, (n & 0xff) as u8];
    assert(r@ == be32(n as nat)) by {
        assert((n >> 24) as u8 == (n / 0x100_0000 % 0x100) as u8) by (bit_vector);
        assert(((n >> 16) & 0xff) as u8 == (n / 0x1_0000 % 0x100) as u8) by (bit_vector);
        assert(((n >> 8) & 0xff) as u8 == (n / 0x100 % 0x100) as u8) by (bit_vector);
        assert((n & 0xff) as u8 == (n % 0x100) as u8) by (bit_vector);
    }
    r
}

/// Lays out a container body after `out`: the length of `header`, `header`,
/// `nonce` and `ciphertext`.
fn push_body(out: &mut Vec<u8>, header: &[u8], nonce: &[u8], ciphertext: &[u8])
    requires
        header@.len() <= u32::MAX,
    ensures
        final(out)@ == old(out)@ + key_container(header@, nonce@, ciphertext@),
{
    let len = be32_bytes(header.len() as u32);
    append(out, len.as_slice());
    append(out, header);
    append(out, nonce);
    append(out, ciphertext);
    assert(final(out)@ == old(out)@ + key_container(header@, nonce@, ciphertext@));
}

/// Builds a key container. Fails when the header is too long for its
/// 32-bit length field.
pub fn encode_key_container(header: &[u8], nonce: &[u8], ciphertext: &[u8]) -> (r: Result<Vec<u8>, CryptoError>)
    requires
        nonce@.len() == NONCE_LEN,
    ensures
        r is Ok <==> header@.len() <= u32::MAX,
        r matches Ok(c) ==> c@ == key_container(header@, nonce@, ciphertext@),
        r matches Err(e) ==> e is EncryptionError,
{
    if header.len() > 0xFFFF_FFFF {
        return Err(CryptoError::EncryptionError("header too long".to_string()));
    }
    let mut out: Vec<u8> = Vec::new();
    push_body(&mut out, header, nonce, ciphertext);
    assert(out@ == key_container(header@, nonce@, ciphertext@));
    Ok(out)
}

/// Builds a password container. Fails when the header is too long for its
/// 32-bit length field.
pub fn encode_password_container(header: &[u8], nonce: &[u8], ciphertext: &[u8]) -> (r: Result<Vec<u8>, CryptoError>)
    requires
        nonce@.len() == NONCE_LEN,
    ensures
        r is Ok <==> header@.len() <= u32::MAX,
        r matches Ok(c) ==> c@ == password_container(header@, nonce@, ciphertext@),
        r matches Err(e) ==> e is EncryptionError,
{
    if header.len() > 0xFFFF_FFFF {
        return Err(CryptoError::EncryptionError("header too long".to_string()));
    }
    let mut out: Vec<u8> = Vec::new();
    out.push(PASSWORD_MARKER);
    push_body(&mut out, header, nonce, ciphertext);
    Ok(out)
}

/// Checks the length-prefixed body that starts at `start`.
fn locate_body(data: &[u8], start: usize) -> (r: Result<Layout, CryptoError>)
    requires
        start <= 1,
    ensures
        agrees(r, body_parts(data@, start as int), |l: Layout| l.parts_of(data@)),
        r matches Ok(l) ==> l.fits(data@) && l.header_start == start + 4,
{
    if data.len() < start + 4 {
        return Err(CryptoError::FormatError);
    }
    let b0 = data[start] as usize;
    let b1 = data[start + 1] as usize;
    let b2 = data[start + 2] as usize;
    let b3 = data[start + 3] as usize;
    let header_len: u64 = (b0 as u64) * 0x100_0000 + (b1 as u64) * 0x1_0000 + (b2 as u64) * 0x100 + (b3 as u64);
    assert(header_len == read_be32(data@, start as int));
    let hl = header_len as usize;
    if data.len() < start + 16 || data.len() - (start + 16) < hl {
        return Err(CryptoError::FormatError);
    }
    let header_end = start + 4 + hl;
    Ok(Layout { header_start: start + 4, header_end })
}

/// Checks a container for key-mode decryption and returns where its parts lie.
pub fn locate_key_container(data: &[u8]) -> (r: Result<Layout, CryptoError>)
    ensures
        agrees(r, key_container_parts(data@), |l: Layout| l.parts_of(data@)),
        r matches Ok(l) ==> l.fits(data@),
{
    if data.len() < 4 {
        return Err(CryptoError::FormatError);
    }
    if data[0] == PASSWORD_MARKER {
        return Err(CryptoError::WrongDecryptionMethod(
            "This is a password-encrypted file. A password is required for decryption.".to_string(),
        ));
    }
    locate_body(data, 0)
}

/// Checks a container for password-mode decryption and returns where its parts lie.
pub fn locate_password_container(data: &[u8]) -> (r: Result<Layout, CryptoError>)
    ensures
        agrees(r, password_container_parts(data@), |l: Layout| l.parts_of(data@)),
        r matches Ok(l) ==> l.fits(data@),
{
    if data.len() == 0 {
        return Err(CryptoError::FormatError);
    }
    if data[0] != PASSWORD_MARKER {
        return Err(CryptoError::WrongDecryptionMethod(
            "This file was not encrypted with a password. Please decrypt without providing a password.".to_string(),
        ));
    }
    locate_body(data, 1)
}

} // verus!

verus! {

proof fn lemma_be32_bytes(x: u32)
    by (bit_vector)
    ensures
        ((x / 0x100_0000 % 0x100) as u8) * 0x100_0000 + ((x / 0x1_0000 % 0x100) as u8) * 0x1_0000
            + ((x / 0x100 % 0x100) as u8) * 0x100 + ((x % 0x100) as u8) == x,
        x < 0xFF00_0000 ==> (x / 0x100_0000 % 0x100) as u8 != 0xFF,
{
}

/// Reading the length field written for `n` gives `n` back.
proof fn lemma_read_be32(n: nat, prefix: Seq<u8>, rest: Seq<u8>)
    requires
        n <= u32::MAX,
    ensures
        read_be32(prefix + be32(n) + rest, prefix.len() as int) == n,
        n < 0xFF00_0000 ==> be32(n)[0] != PASSWORD_MARKER,
{
    lemma_be32_bytes(n as u32);
    let s = prefix + be32(n) + rest;
    let p = prefix.len() as int;
    assert(s[p] == be32(n)[0]);
    assert(s[p + 1] == be32(n)[1]);
    assert(s[p + 2] == be32(n)[2]);
    assert(s[p + 3] == be32(n)[3]);
}

/// Reading back a key container gives the header, nonce and ciphertext it
/// was built from. A header of 0xFF00_0000 bytes or more is left out: its
/// length field would begin with the password marker.
pub proof fn lemma_key_container_round_trip(header: Seq<u8>, nonce: Seq<u8>, ciphertext: Seq<u8>)
    requires
        header.len() < 0xFF00_0000,
        nonce.len() == NONCE_LEN,
    ensures
        key_container_parts(key_container(header, nonce, ciphertext)) == Ok::<Parts, ErrorKind>((header, nonce, ciphertext)),
{
    let c = key_container(header, nonce, ciphertext);
    lemma_read_be32(header.len(), Seq::empty(), header + nonce + ciphertext);
    assert(c == Seq::<u8>::empty() + be32(header.len()) + (header + nonce + ciphertext));
    let h = 4 + header.len() as int;
    assert(c.subrange(4, h) == header);
    assert(c.subrange(h, h + 12) == nonce);
    assert(c.subrange(h + 12, c.len() as int) == ciphertext);
}

/// Reading back a password container gives the header, nonce and ciphertext
/// it was built from.
pub proof fn lemma_password_container_round_trip(header: Seq<u8>, nonce: Seq<u8>, ciphertext: Seq<u8>)
    requires
        header.len() <= u32::MAX,
        nonce.len() == NONCE_LEN,
    ensures
        password_container_parts(password_container(header, nonce, ciphertext)) == Ok::<Parts, ErrorKind>((header, nonce, ciphertext)),
{
    let c = password_container(header, nonce, ciphertext);
    lemma_read_be32(header.len(), seq![PASSWORD_MARKER], header + nonce + ciphertext);
    assert(c == seq![PASSWORD_MARKER] + be32(header.len()) + (header + nonce + ciphertext));
    let h = 5 + header.len() as int;
    assert(c.subrange(5, h) == header);
    assert(c.subrange(h, h + 12) == nonce);
    assert(c.subrange(h + 12, c.len() as int) == ciphertext);
}

/// A container cut short of its declared header and nonce is refused with
/// the format error, in either mode.
pub proof fn lemma_truncated_container(data: Seq<u8>)
    ensures
        (data.len() < 4 || (data[0] != PASSWORD_MARKER && data.len() < 16 + read_be32(data, 0)))
            ==> key_container_parts(data) == Err::<Parts, ErrorKind>(ErrorKind::Format),
        (data.len() < 5 || (data[0] == PASSWORD_MARKER && data.len() < 17 + read_be32(data, 1)))
            ==> (data.len() == 0 || data[0] == PASSWORD_MARKER)
            ==> password_container_parts(data) == Err::<Parts, ErrorKind>(ErrorKind::Format),
{
}

/// Any prefix of a container that stops before the end of its nonce is
/// refused with the format error.
pub proof fn lemma_cut_container(header: Seq<u8>, nonce: Seq<u8>, ciphertext: Seq<u8>, keep: int)
    requires
        header.len() < 0xFF00_0000,
        nonce.len() == NONCE_LEN,
        0 <= keep < 16 + header.len(),
    ensures
        key_container_parts(key_container(header, nonce, ciphertext).take(keep))
            == Err::<Parts, ErrorKind>(ErrorKind::Format),
        password_container_parts(password_container(header, nonce, ciphertext).take(keep + 1))
            == Err::<Parts, ErrorKind>(ErrorKind::Format),
{
    let c = key_container(header, nonce, ciphertext);
    let t = c.take(keep);
    lemma_read_be32(header.len(), Seq::empty(), header + nonce + ciphertext);
    assert(c == Seq::<u8>::empty() + be32(header.len()) + (header + nonce + ciphertext));
    if keep >= 4 {
        assert(t[0] == c[0]);
        assert(read_be32(t, 0) == read_be32(c, 0));
    }
    let p = password_container(header, nonce, ciphertext);
    let tp = p.take(keep + 1);
    lemma_read_be32(header.len(), seq![PASSWORD_MARKER], header + nonce + ciphertext);
    assert(p == seq![PASSWORD_MARKER] + be32(header.len()) + (header + nonce + ciphertext));
    assert(tp[0] == PASSWORD_MARKER);
    if keep + 1 >= 5 {
        assert(read_be32(tp, 1) == read_be32(p, 1));
    }
}

} // verus!
