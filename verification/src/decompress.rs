//! Decompression of the certificates that a server sends compressed.

use vstd::prelude::*;

verus! {

/// The longest certificate message that is accepted, in bytes.
pub const MAX_CERT_BYTES: usize = 1048576;

/// How many compressed bytes the decoder takes in at a time.
const INPUT_BUFFER: usize = 4096;

/// What a brotli stream at the front of `compressed` decompresses to, where
/// there is a complete and valid one.
pub uninterp spec fn brotli_content(compressed: Seq<u8>) -> Option<Seq<u8>>;

/// Reads a `brotli::Decompressor` to its end, but no further than `limit`
/// bytes of output. Claimed: of a valid stream the content comes back, cut off
/// at the limit; bytes behind the stream do not matter. Where the stream is
/// not valid, either nothing comes back, or `limit` bytes that were decoded
/// before the fault was met.
#[verifier::external_body]
fn decode_brotli(compressed: &[u8], limit: u64) -> (r: Option<Vec<u8>>)
    ensures
        match brotli_content(compressed@) {
            Some(c) => r matches Some(v) && v@ == (if c.len() <= limit {
                c
            } else {
                c.take(limit as int)
            }),
            None => r matches Some(v) ==> v@.len() == limit,
        },
{
    let mut input = compressed;
    let decoder = brotli::Decompressor::new(&mut input, INPUT_BUFFER);
    let mut limited = std::io::Read::take(decoder, limit);
    let mut decoded: Vec<u8> = Vec::new();
    match std::io::Read::read_to_end(&mut limited, &mut decoded) {
        Ok(_) => Some(decoded),
        Err(_) => None,
    }
}

/// Whether a certificate message of the announced length is accepted at all.
pub open spec fn length_accepted(uncompressed_len: nat) -> bool {
    1 <= uncompressed_len <= MAX_CERT_BYTES
}

/// What was decoded, if it is as long as was announced.
pub fn of_announced_length(decoded: Option<Vec<u8>>, uncompressed_len: usize) -> (r: Option<
    Vec<u8>,
>)
    ensures
        crate::fingerprint::spec::opt_bytes(r) == (match decoded {
            Some(v) => if v@.len() == uncompressed_len {
                Some(v@)
            } else {
                None
            },
            None => None,
        }),
{
    match decoded {
        Some(v) => if v.len() == uncompressed_len {
            Some(v)
        } else {
            None
        },
        None => None,
    }
}

/// Decompresses a certificate message. It is accepted exactly where the
/// announced length is between one byte and a mebibyte and the stream's
/// content has that length.
pub fn decompress_certificate(compressed: &[u8], uncompressed_len: usize) -> (r: Option<Vec<u8>>)
    ensures
        crate::fingerprint::spec::opt_bytes(r) == (match brotli_content(compressed@) {
            Some(c) => if length_accepted(uncompressed_len as nat) && c.len() == uncompressed_len {
                Some(c)
            } else {
                None
            },
            None => None,
        }),
{
    if uncompressed_len == 0 || uncompressed_len > MAX_CERT_BYTES {
        return None;
    }
    let decoded = decode_brotli(compressed, uncompressed_len as u64 + 1);
    of_announced_length(decoded, uncompressed_len)
}

} // verus!
