//! The errors of the library.

use vstd::prelude::*;

verus! {

/// Why an operation did not succeed.
#[derive(Debug, PartialEq, Eq)]
pub enum Error {
    /// More bytes are needed from the peer.
    WantRead,
    /// Queued bytes have to be sent first.
    WantWrite,
    /// The peer closed the transport without `close_notify`.
    Eof,
    /// The peer closed the connection with `close_notify`.
    ZeroReturn,
    /// The peer's certificate was not accepted.
    Verification { reason: String, verify_code: Option<i64> },
    /// The TLS engine reported a failure.
    Protocol { message: String, code: Option<u32> },
    /// The caller asked for something that is not allowed.
    Usage(String),
    /// Reading or writing a file failed.
    Io(String),
    /// The feature is not available.
    Unsupported(String),
}

impl Error {
    /// Whether this is a usage error that says `text`.
    pub open spec fn is_usage(self, text: Seq<char>) -> bool {
        self matches Error::Usage(s) && s@ == text
    }
}

/// A usage error that says `text`.
pub(crate) fn usage(text: &str) -> (e: Error)
    ensures
        e.is_usage(text@),
{
    Error::Usage(text.to_owned())
}

} // verus!
