use vstd::prelude::*;

verus! {

/// Why the decoder rejected a tag/payload pair.
///
/// All three are terminal validation failures: decoding is a deterministic
/// function of its input, so retrying cannot succeed.
#[derive(Debug, PartialEq, Eq, Structural)]
pub enum DecodeError {
    /// A path other than the tag-0 one reconstructed the marker glyph, whose
    /// sole legal encoding is the bare tag 0.
    Gay,
    /// A one-byte escape carried the code of an ASCII lowercase letter, which
    /// the literal-letter tags already cover; the encoding is redundant.
    Lowercase,
    /// The reconstructed value is not a valid Unicode scalar value.
    Weird,
}

impl DecodeError {
    /// A fixed human-readable description of this error.
    pub fn message(&self) -> (m: &'static str)
        ensures
            m@ == match self {
                DecodeError::Gay => "invalid encoding of the rainbow"@,
                DecodeError::Lowercase => "invalid encoding of an ascii lowercase letter"@,
                DecodeError::Weird => "not unicode"@,
            },
    {
        match self {
            DecodeError::Gay => "invalid encoding of the rainbow",
            DecodeError::Lowercase => "invalid encoding of an ascii lowercase letter",
            DecodeError::Weird => "not unicode",
        }
    }
}

} // verus!
