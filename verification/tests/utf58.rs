use utf58::{DecodeError, Quibble, Utf58Ext};

#[test]
fn encoding() {
    let tests = [
        ('\u{1F308}', (Quibble::new_truncated(0), vec![])),
        ('a', (Quibble::new_truncated(0b00001), vec![])),
        ('b', (Quibble::new_truncated(0b00010), vec![])),
        ('p', (Quibble::new_truncated(0b10000), vec![])),
        ('A', (Quibble::new_truncated(0b11101), vec![b'A'])),
        ('B', (Quibble::new_truncated(0b11101), vec![b'B'])),
        ('\u{3042}', (Quibble::new_truncated(0b11110), vec![0x42, 0x30])),
        ('\u{1F62D}', (Quibble::new_truncated(0b11111), vec![0x2d, 0xf6, 0x01])),
    ];

    for (c, (q, r)) in tests {
        let mut buf = [0; 3];
        let (encoded, len) = c.encode_utf58(&mut buf);
        assert_eq!(encoded, q);
        assert_eq!(r, &buf[..len]);
    }
}

#[test]
fn decoding() {
    let tests = [
        ('\u{1F308}', (Quibble::new_truncated(0), vec![])),
        ('a', (Quibble::new_truncated(0b00001), vec![])),
        ('b', (Quibble::new_truncated(0b00010), vec![])),
        ('A', (Quibble::new_truncated(0b11101), vec![b'A'])),
        ('B', (Quibble::new_truncated(0b11101), vec![b'B'])),
        ('\u{3042}', (Quibble::new_truncated(0b11110), vec![0x42, 0x30])),
        ('\u{1F62D}', (Quibble::new_truncated(0b11111), vec![0x2d, 0xf6, 0x01])),
    ];

    for (c, result) in tests {
        let decoded = char::decode_utf58(result.0, &result.1);
        assert_eq!(decoded, Ok(c));
    }
}

#[test]
fn round_trip() {
    let samples = [
        '\0', 'a', 'z', '`', '{', '\u{60}', '\u{7B}', '\u{7C}', 'A', '\u{FF}', '\u{100}',
        '\u{D7FF}', '\u{E000}', '\u{FFFF}', '\u{10000}', '\u{10FFFF}', '\u{1F308}', '\u{3042}',
        '\u{1F62D}',
    ];
    for c in samples {
        let mut rest = [0; 3];
        let (q, l) = c.encode_utf58(&mut rest);
        assert_eq!(char::decode_utf58(q, &rest[..l]), Ok(c));
    }
}

#[test]
fn len_matches_encoding() {
    let expected = [
        ('\u{1F308}', 1),
        ('q', 1),
        ('A', 2),
        ('\u{FF}', 2),
        ('\u{100}', 3),
        ('\u{FFFF}', 3),
        ('\u{10000}', 4),
        ('\u{10FFFF}', 4),
    ];
    for (c, n) in expected {
        assert_eq!(c.len_utf58(), n);
        let mut rest = [0; 3];
        let (_, l) = c.encode_utf58(&mut rest);
        assert_eq!(c.len_utf58(), 1 + l);
    }
}

#[test]
fn tag_stays_in_range() {
    for byte in 0..=255u8 {
        let q = Quibble::new_truncated(byte);
        assert!(q.value() <= 31);
        assert_eq!(q.value(), byte & 0b11111);
    }
}

#[test]
fn rejects_redundant_lowercase_escape() {
    for b in b'a'..=b'z' {
        let q = Quibble::new_truncated(0b11101);
        assert_eq!(char::decode_utf58(q, &[b]), Err(DecodeError::Lowercase));
    }
    // A byte just outside the lowercase range decodes fine.
    let q = Quibble::new_truncated(0b11101);
    assert_eq!(char::decode_utf58(q, &[b'a' - 1]), Ok('`'));
    let q = Quibble::new_truncated(0b11101);
    assert_eq!(char::decode_utf58(q, &[b'z' + 1]), Ok('{'));
}

#[test]
fn rejects_surrogates() {
    // 0xD800 and 0xDFFF, little-endian, under the two-byte escape.
    let q = Quibble::new_truncated(0b11110);
    assert_eq!(char::decode_utf58(q, &[0x00, 0xD8]), Err(DecodeError::Weird));
    let q = Quibble::new_truncated(0b11110);
    assert_eq!(char::decode_utf58(q, &[0xFF, 0xDF]), Err(DecodeError::Weird));
    // A surrogate under the three-byte escape as well.
    let q = Quibble::new_truncated(0b11111);
    assert_eq!(char::decode_utf58(q, &[0x00, 0xD8, 0x00]), Err(DecodeError::Weird));
    // Beyond the last code point under the three-byte escape.
    let q = Quibble::new_truncated(0b11111);
    assert_eq!(char::decode_utf58(q, &[0x00, 0x00, 0x11]), Err(DecodeError::Weird));
}

#[test]
fn marker_glyph_is_exclusive() {
    // 0x1F308 little-endian under the three-byte escape: the one payload that
    // numerically reconstructs the marker glyph.
    let q = Quibble::new_truncated(0b11111);
    assert_eq!(char::decode_utf58(q, &[0x08, 0xF3, 0x01]), Err(DecodeError::Gay));
    // The marker glyph itself only decodes through tag 0.
    let q = Quibble::new_truncated(0);
    assert_eq!(char::decode_utf58(q, &[]), Ok('\u{1F308}'));
}

#[test]
fn literal_letter_tags() {
    for t in 1..=26u8 {
        let q = Quibble::new_truncated(t);
        assert_eq!(char::decode_utf58(q, &[]), Ok((t | 0b0110_0000) as char));
    }
    // Tags 27 and 28 recover the two code points just past 'z'.
    let q = Quibble::new_truncated(27);
    assert_eq!(char::decode_utf58(q, &[]), Ok('{'));
    let q = Quibble::new_truncated(28);
    assert_eq!(char::decode_utf58(q, &[]), Ok('|'));
}

#[test]
fn error_messages() {
    assert_eq!(DecodeError::Gay.message(), "invalid encoding of the rainbow");
    assert_eq!(
        DecodeError::Lowercase.message(),
        "invalid encoding of an ascii lowercase letter"
    );
    assert_eq!(DecodeError::Weird.message(), "not unicode");
}
