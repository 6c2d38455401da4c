//! Error taxonomy surfaced to callers.

use vstd::prelude::*;

verus! {

/// Failure of the byte-path codec while decoding an encoded literal.
///
/// A malformed token always indicates corrupted data or a programming
/// mistake: decoding the codec's own output never produces it.
#[derive(Debug)]
pub enum EncodingError {
    /// A marker byte was not followed by two hexadecimal digits.
    MalformedToken,
}

/// Everything a deletion request can fail with.
#[derive(Debug)]
pub enum Error {
    /// The byte-path codec met a malformed escape token while decoding.
    Encoding(EncodingError),
    /// A path cannot be represented as the text a strategy requires,
    /// for example because it is empty.
    Conversion { path: Vec<u8> },
    /// The native trash-relocation service rejected one specific path.
    Service { path: Vec<u8>, description: Vec<u8> },
    /// The automation interface exited nonzero or could not be spawned.
    /// `code` is the numeric exit code when one exists; a
    /// signal-terminated process reports `None`.
    Process { code: Option<i32>, diagnostic: Vec<u8> },
    /// A direct move of one entry into the trash directory failed.
    Move { path: Vec<u8>, description: Vec<u8> },
}

} // verus!
