use vstd::prelude::*;

verus! {

/// The ways a call into this library can fail.
///
/// Every decoding step reports the first violation it meets and nothing
/// after it; there are no partial results.
#[derive(Clone, Copy, Debug, PartialEq, Eq, Structural)]
pub enum Error {
    /// Fewer bytes are available than a declared length requires.
    TruncatedInput,
    /// Malformed structure: a wrong tag, a non-canonical length encoding,
    /// an empty integer, a non-empty NULL, or an oversized signature
    /// component.
    InvalidInput,
    /// Trailing bytes follow a structure that must consume its whole input.
    ExtraInput,
    /// An indefinite-length or longer-than-two-byte length form.
    UnsupportedInput,
    /// An integer does not fit the target width.
    ValueTooLarge,
    /// An internal inconsistency: an unsupported hash algorithm or
    /// inconsistent padding parameters.
    LibraryFailure,
}

} // verus!
