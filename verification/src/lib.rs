//! UTF-58: a bijective, variable-width encoding of Unicode scalar values.
//!
//! Each scalar value maps to a five-bit tag ([`Quibble`]) plus zero to three
//! little-endian payload bytes. [`Utf58Ext`] provides the encoder and the
//! decoder, and [`DecodeError`] classifies the inputs the decoder rejects.

mod codec;
mod error;

pub use codec::is_unicode_scalar;
pub use codec::lemma_marker_glyph_exclusive;
pub use codec::lemma_reject_lowercase_escape;
pub use codec::lemma_reject_surrogate;
pub use codec::lemma_utf58_len;
pub use codec::lemma_utf58_round_trip;
pub use codec::payload_len_of_tag;
pub use codec::raw_code_of;
pub use codec::Quibble;
pub use codec::Utf58Ext;
pub use error::DecodeError;
