use vstd::prelude::*;

use crate::error::{agrees, CryptoError, ErrorKind};
use crate::format::append;

verus! {

/// First byte of a sealed payload whose rest is zstd-compressed.
pub const COMPRESSED_FLAG: u8 = 0x01;

/// zstd level used before encryption.
pub const COMPRESSION_LEVEL: i32 = 3;

/// What zstd's `decode_all` makes of `frames`, when they are valid.
pub uninterp spec fn zstd_decoded(frames: Seq<u8>) -> Option<Seq<u8>>;

/// Relies on zstd's `stream::encode_all`: it writes zstd frames, which
/// `decode_all` turns back into `data`. Reading a byte slice and writing a
/// `Vec` cannot fail, nor can setting up an encoder at a valid level.
#[verifier::external_body]
fn zstd_encode(data: &[u8], level: i32) -> (r: Option<Vec<u8>>)
    ensures
        1 <= level <= 22 ==> r is Some,
        r matches Some(c) ==> zstd_decoded(c@) == Some(data@),
{
    zstd::stream::encode_all(data, level).ok()
}

/// Relies on zstd's `stream::decode_all`: the decompressed bytes of valid
/// zstd frames, nothing otherwise.
#[verifier::external_body]
fn zstd_decode(frames: &[u8]) -> (r: Option<Vec<u8>>)
    ensures
        r is Some <==> zstd_decoded(frames@) is Some,
        r matches Some(d) ==> zstd_decoded(frames@) == Some(d@),
{
    zstd::stream::decode_all(frames).ok()
}

/// The bytes a decrypted payload stands for: flagged payloads are
/// decompressed, any other payload is taken as it is.
pub open spec fn unpacked(payload: Seq<u8>) -> Result<Seq<u8>, ErrorKind> {
    if payload.len() > 0 && payload[0] == COMPRESSED_FLAG {
        match zstd_decoded(payload.drop_first()) {
            Some(d) => Ok(d),
            None => Err(ErrorKind::Decompression),
        }
    } else {
        Ok(payload)
    }
}

/// The payload to seal for `input`: the compressed flag, then `input`
/// compressed with zstd.
pub fn compress_payload(input: &[u8]) -> (r: Result<Vec<u8>, CryptoError>)
    ensures
        r is Ok,
        r matches Ok(p) ==> p@.len() >= 1 && p@[0] == COMPRESSED_FLAG,
        r matches Ok(p) ==> zstd_decoded(p@.drop_first()) == Some(input@),
        r matches Ok(p) ==> unpacked(p@) == Ok::<Seq<u8>, ErrorKind>(input@),
        r matches Err(e) ==> e is CompressionError,
{
    match zstd_encode(input, COMPRESSION_LEVEL) {
        Some(c) => {
            let mut out: Vec<u8> = Vec::new();
            out.push(COMPRESSED_FLAG);
            append(&mut out, c.as_slice());
            assert(out@.drop_first() == c@);
            Ok(out)
        },
        None => Err(CryptoError::CompressionError("Compression failed".to_string())),
    }
}

/// The original bytes of a decrypted payload: the rest decompressed when the
/// first byte is the compressed flag, the payload unchanged otherwise.
pub fn decompress_payload(payload: &[u8]) -> (r: Result<Vec<u8>, CryptoError>)
    ensures
        agrees(r, unpacked(payload@), |d: Vec<u8>| d@),
{
    if payload.len() > 0 && payload[0] == COMPRESSED_FLAG {
        match zstd_decode(&payload[1..payload.len()]) {
            Some(d) => {
                assert(payload@.subrange(1, payload@.len() as int) == payload@.drop_first());
                Ok(d)
            },
            None => {
                assert(payload@.subrange(1, payload@.len() as int) == payload@.drop_first());
                Err(CryptoError::DecompressionError("Decompression failed".to_string()))
            },
        }
    } else {
        let mut out: Vec<u8> = Vec::new();
        append(&mut out, payload);
        assert(out@ == payload@);
        Ok(out)
    }
}

/// Unpacking a compressed payload gives back what was compressed, whether
/// the compressed form came out shorter or longer than the input.
pub proof fn lemma_payload_round_trip(input: Seq<u8>, frames: Seq<u8>)
    requires
        zstd_decoded(frames) == Some(input),
    ensures
        unpacked(seq![COMPRESSED_FLAG] + frames) == Ok::<Seq<u8>, ErrorKind>(input),
{
    assert((seq![COMPRESSED_FLAG] + frames).drop_first() == frames);
}

} // verus!
