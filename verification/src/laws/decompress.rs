//! What decompressing a certificate gives.

use crate::decompress::{brotli_content, decompress_certificate, of_announced_length};
use vstd::prelude::*;

verus! {

/// A certificate comes back exactly where the stream is valid, its content is
/// as long as was announced, and that is between one byte and a mebibyte; what
/// comes back is the content.
pub proof fn law_decompression(compressed: &[u8], announced: usize, r: Option<Vec<u8>>)
    requires
        call_ensures(decompress_certificate, (compressed, announced), r),
    ensures
        r is Some <==> 1 <= announced <= 1048576 && (brotli_content(compressed@) matches Some(c)
            && c.len() == announced),
        r matches Some(v) ==> brotli_content(compressed@) == Some(v@) && v@.len() == announced,
{
}

/// What was decoded is kept exactly where it is as long as was announced.
pub proof fn law_announced_lengths(
    decoded: Option<Vec<u8>>,
    announced: usize,
    r: Option<Vec<u8>>,
)
    requires
        call_ensures(of_announced_length, (decoded, announced), r),
    ensures
        r is Some <==> (decoded matches Some(v) && v@.len() == announced),
        r matches Some(v) ==> v@ == decoded->Some_0@,
{
}

} // verus!
