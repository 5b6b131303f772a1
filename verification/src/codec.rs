use vstd::prelude::*;

use crate::error::DecodeError;

verus! {

/// True when `v` is a Unicode scalar value: at most 0x10FFFF and not a
/// UTF-16 surrogate code point.
pub open spec fn is_unicode_scalar(v: u32) -> bool {
    v <= 0x10FFFF && !(0xD800 <= v && v <= 0xDFFF)
}

/// How many payload bytes follow a tag: one, two or three for the escape
/// tags 29, 30 and 31, and none for the marker and the literal letters.
pub open spec fn payload_len_of_tag(t: u8) -> nat {
    if t == 29 {
        1
    } else if t == 30 {
        2
    } else if t == 31 {
        3
    } else {
        0
    }
}

/// The numeric value a tag/payload pair stands for: the marker glyph's code
/// for tag 0, the little-endian payload value for the escape tags, and the
/// letter code recovered by setting bit 5 for the remaining tags.
pub open spec fn raw_code_of(t: u8, rest: Seq<u8>) -> u32
    recommends
        rest.len() >= payload_len_of_tag(t),
{
    if t == 0 {
        0x1F308
    } else if t == 29 {
        rest[0] as u32
    } else if t == 30 {
        (rest[0] + 256 * rest[1]) as u32
    } else if t == 31 {
        (rest[0] + 256 * rest[1] + 65536 * rest[2]) as u32
    } else {
        (t | 0x60) as u32
    }
}

/// A five-bit tag naming how one scalar value is encoded: `0` stands for the
/// marker glyph, `1..=26` for a literal lowercase letter, and `29`, `30`, `31`
/// announce one, two or three little-endian payload bytes.
#[derive(Debug, PartialEq, Eq, Structural)]
pub struct Quibble(u8);

impl View for Quibble {
    type V = u8;

    closed spec fn view(&self) -> u8 {
        self.0
    }
}

impl Quibble {
    #[verifier::type_invariant]
    spec fn tag_in_range(self) -> bool {
        self.0 <= 31
    }

    /// Builds a tag from the low five bits of `byte`.
    pub fn new_truncated(byte: u8) -> (q: Quibble)
        ensures
            q@ == byte & 0x1F,
            q@ <= 31,
    {
        proof {
            assert(byte & 0x1F <= 31) by (bit_vector);
        }
        Quibble(byte & 0x1F)
    }

    /// The stored tag value; in five-bit range however the tag was built.
    pub fn value(&self) -> (t: u8)
        ensures
            t == self@,
            t <= 31,
    {
        proof {
            use_type_invariant(self);
        }
        self.0
    }
}

/// Relies on char::from_u32: it returns Some exactly when the argument is a
/// Unicode scalar value (not a surrogate, at most 0x10FFFF), and the
/// returned char then has the argument as its code.
pub assume_specification[ char::from_u32 ](v: u32) -> (r: Option<char>)
    ensures
        r is Some <==> is_unicode_scalar(v),
        r matches Some(c) ==> c as u32 == v,
;

/// Encoding and decoding of single scalar values in UTF-58.
pub trait Utf58Ext: Copy + Sized {
    /// The tag that `self` encodes to.
    spec fn utf58_tag(self) -> u8;

    /// The payload bytes that `self` encodes to.
    spec fn utf58_payload(self) -> Seq<u8>;

    /// What decoding tag `t` with payload `rest` yields.
    spec fn utf58_decoded(t: u8, rest: Seq<u8>) -> Result<Self, DecodeError>;

    /// Encodes `self` as a tag and up to three payload bytes, written to the
    /// front of `rest`; returns the tag and the payload length.
    fn encode_utf58(self, rest: &mut [u8; 3]) -> (r: (Quibble, usize))
        ensures
            r.0@ == self.utf58_tag(),
            r.1 == self.utf58_payload().len(),
            final(rest)@ == self.utf58_payload() + old(rest)@.skip(r.1 as int);

    /// The number of segments in the encoding of `self`: one for the tag,
    /// plus one per payload byte.
    fn len_utf58(self) -> (n: usize)
        ensures
            n == 1 + self.utf58_payload().len();

    /// Decodes a tag and its payload back to a value, or rejects the pair.
    fn decode_utf58(q: Quibble, rest: &[u8]) -> (r: Result<Self, DecodeError>)
        requires
            rest@.len() >= payload_len_of_tag(q@),
        ensures
            r == Self::utf58_decoded(q@, rest@);
}

impl Utf58Ext for char {
    open spec fn utf58_tag(self) -> u8 {
        let u = self as u32;
        if u == 0x1F308 {
            0
        } else if 0x61 <= u && u <= 0x7A {
            (u - 0x60) as u8
        } else if u < 0x100 {
            29
        } else if u < 0x10000 {
            30
        } else {
            31
        }
    }

    open spec fn utf58_payload(self) -> Seq<u8> {
        let u = self as u32;
        if u == 0x1F308 || (0x61 <= u && u <= 0x7A) {
            Seq::empty()
        } else if u < 0x100 {
            seq![u as u8]
        } else if u < 0x10000 {
            seq![(u % 256) as u8, ((u / 256) % 256) as u8]
        } else {
            seq![(u % 256) as u8, ((u / 256) % 256) as u8, ((u / 65536) % 256) as u8]
        }
    }

    open spec fn utf58_decoded(t: u8, rest: Seq<u8>) -> Result<char, DecodeError> {
        let v = raw_code_of(t, rest);
        if t == 0 {
            Ok('\u{1F308}')
        } else if t == 29 && 0x61 <= rest[0] && rest[0] <= 0x7A {
            Err(DecodeError::Lowercase)
        } else if (t == 30 || t == 31) && !is_unicode_scalar(v) {
            Err(DecodeError::Weird)
        } else if v == 0x1F308 {
            Err(DecodeError::Gay)
        } else {
            Ok(v as char)
        }
    }

    fn encode_utf58(self, rest: &mut [u8; 3]) -> (r: (Quibble, usize)) {
        let u = self as u32;
        if u == 0x1F308 {
            let q = Quibble::new_truncated(0);
            proof {
                assert(0u8 & 0x1F == 0) by (bit_vector);
                assert(self.utf58_payload() + rest@.skip(0) =~= rest@);
            }
            (q, 0)
        } else if 0x61 <= u && u <= 0x7A {
            let q = Quibble::new_truncated((u % 256) as u8);
            proof {
                assert((((u % 256) as u8) & 0x1F) == (u - 0x60) as u8) by (bit_vector)
                    requires
                        0x61 <= u && u <= 0x7A,
                ;
                assert(self.utf58_payload() + rest@.skip(0) =~= rest@);
            }
            (q, 0)
        } else {
            let b0 = (u % 256) as u8;
            if u < 0x100 {
                rest[0] = b0;
                let q = Quibble::new_truncated(29);
                proof {
                    assert(29u8 & 0x1F == 29) by (bit_vector);
                    assert(self.utf58_payload() + old(rest)@.skip(1) =~= rest@);
                }
                (q, 1)
            } else {
                let b1 = ((u / 256) % 256) as u8;
                if u < 0x10000 {
                    rest[0] = b0;
                    rest[1] = b1;
                    let q = Quibble::new_truncated(30);
                    proof {
                        assert(30u8 & 0x1F == 30) by (bit_vector);
                        assert(self.utf58_payload() + old(rest)@.skip(2) =~= rest@);
                    }
                    (q, 2)
                } else {
                    let b2 = ((u / 65536) % 256) as u8;
                    rest[0] = b0;
                    rest[1] = b1;
                    rest[2] = b2;
                    let q = Quibble::new_truncated(31);
                    proof {
                        assert(31u8 & 0x1F == 31) by (bit_vector);
                        assert(self.utf58_payload() + old(rest)@.skip(3) =~= rest@);
                    }
                    (q, 3)
                }
            }
        }
    }

    fn len_utf58(self) -> (n: usize) {
        let u = self as u32;
        if u == 0x1F308 || (0x61 <= u && u <= 0x7A) {
            1
        } else if u < 0x100 {
            2
        } else if u < 0x10000 {
            3
        } else {
            4
        }
    }

    fn decode_utf58(q: Quibble, rest: &[u8]) -> (r: Result<char, DecodeError>) {
        let t = q.value();
        let res: char;
        if t == 29 {
            let b = rest[0];
            if 0x61 <= b && b <= 0x7A {
                return Err(DecodeError::Lowercase);
            }
            res = char::from_u32(b as u32).unwrap();
        } else if t == 30 {
            let v = rest[0] as u32 + 256 * (rest[1] as u32);
            match char::from_u32(v) {
                Some(c) => {
                    res = c;
                },
                None => {
                    return Err(DecodeError::Weird);
                },
            }
        } else if t == 31 {
            let v = rest[0] as u32 + 256 * (rest[1] as u32) + 65536 * (rest[2] as u32);
            match char::from_u32(v) {
                Some(c) => {
                    res = c;
                },
                None => {
                    return Err(DecodeError::Weird);
                },
            }
        } else if t == 0 {
            return Ok('\u{1F308}');
        } else {
            proof {
                assert(t | 0x60 <= 0x7F) by (bit_vector)
                    requires
                        t <= 31,
                ;
            }
            res = char::from_u32((t | 0x60) as u32).unwrap();
        }
        proof {
            assert(res as u32 == raw_code_of(t, rest@));
            vstd::utf8::char_u32_cast(res, res as u32);
            vstd::utf8::char_u32_cast('\u{1F308}', 0x1F308);
        }
        if res == '\u{1F308}' {
            return Err(DecodeError::Gay);
        }
        Ok(res)
    }
}

/// Round trip: decoding the tag and payload that a scalar value encodes to
/// yields that value back.
pub proof fn lemma_utf58_round_trip(c: char)
    ensures
        char::utf58_decoded(c.utf58_tag(), c.utf58_payload()) == Ok::<char, DecodeError>(c),
{
    vstd::utf8::char_is_scalar(c);
    let u = c as u32;
    vstd::utf8::char_u32_cast(c, u);
    vstd::utf8::char_u32_cast('\u{1F308}', 0x1F308);
    if u == 0x1F308 {
    } else if 0x61 <= u && u <= 0x7A {
        assert((((u - 0x60) as u8) | 0x60) as u32 == u) by (bit_vector)
            requires
                0x61 <= u && u <= 0x7A,
        ;
    } else if u < 0x100 {
    } else if u < 0x10000 {
        assert(u % 256 + 256 * ((u / 256) % 256) == u) by (bit_vector)
            requires
                u < 0x10000,
        ;
    } else {
        assert(u % 256 + 256 * ((u / 256) % 256) + 65536 * ((u / 65536) % 256) == u)
            by (bit_vector)
            requires
                u < 0x1000000,
        ;
    }
}

/// Length consistency: one tag segment plus the payload makes one segment in
/// all for the marker glyph and the literal letters, and two, three or four
/// for the three escape tiers.
pub proof fn lemma_utf58_len(c: char)
    ensures
        c.utf58_tag() <= 26 ==> c.utf58_payload().len() == 0,
        c.utf58_tag() == 29 ==> c.utf58_payload().len() == 1,
        c.utf58_tag() == 30 ==> c.utf58_payload().len() == 2,
        c.utf58_tag() == 31 ==> c.utf58_payload().len() == 3,
{
}

/// A one-byte escape whose payload byte is an ASCII lowercase letter code is
/// a redundant encoding and is rejected with `Lowercase`.
pub proof fn lemma_reject_lowercase_escape(rest: Seq<u8>)
    requires
        rest.len() >= 1,
        0x61 <= rest[0] && rest[0] <= 0x7A,
    ensures
        char::utf58_decoded(29, rest) == Err::<char, DecodeError>(DecodeError::Lowercase),
{
}

/// A two-byte escape whose little-endian payload value is a UTF-16 surrogate
/// code point is rejected with `Weird`.
pub proof fn lemma_reject_surrogate(rest: Seq<u8>)
    requires
        rest.len() >= 2,
        0xD800 <= rest[0] + 256 * rest[1] && rest[0] + 256 * rest[1] <= 0xDFFF,
    ensures
        char::utf58_decoded(30, rest) == Err::<char, DecodeError>(DecodeError::Weird),
{
}

/// Marker glyph exclusivity: under any tag other than 0, a payload that would
/// numerically reconstruct the marker glyph's code is rejected with `Gay`.
pub proof fn lemma_marker_glyph_exclusive(t: u8, rest: Seq<u8>)
    requires
        1 <= t && t <= 31,
        rest.len() >= payload_len_of_tag(t),
        raw_code_of(t, rest) == 0x1F308,
    ensures
        char::utf58_decoded(t, rest) == Err::<char, DecodeError>(DecodeError::Gay),
{
}

} // verus!
