use treekem_hkdf::context::{decode_spid, encode_quote, ContextError, HexError};

#[test]
fn decode_spid_reads_sixteen_bytes() {
    let id = decode_spid("00112233445566778899AaBbCcDdEeFf").unwrap();
    assert_eq!(
        id,
        [0x00, 0x11, 0x22, 0x33, 0x44, 0x55, 0x66, 0x77, 0x88, 0x99, 0xaa, 0xbb, 0xcc, 0xdd, 0xee, 0xff]
    );
}

#[test]
fn decode_spid_rejects_odd_length() {
    assert_eq!(decode_spid("abc"), Err(ContextError::Hex(HexError::OddLength)));
    // "é0" is three bytes in UTF-8.
    assert_eq!(decode_spid("é0"), Err(ContextError::Hex(HexError::OddLength)));
}

#[test]
fn decode_spid_rejects_non_hex_digits() {
    assert_eq!(
        decode_spid("0011223344556677889900112233445g"),
        Err(ContextError::Hex(HexError::InvalidHexCharacter { c: 'g', index: 31 }))
    );
    assert_eq!(
        decode_spid("0x11"),
        Err(ContextError::Hex(HexError::InvalidHexCharacter { c: 'x', index: 1 }))
    );
    // The first byte of "é" in UTF-8 is 0xc3, read as the character U+00C3.
    assert_eq!(
        decode_spid("é00"),
        Err(ContextError::Hex(HexError::InvalidHexCharacter { c: '\u{c3}', index: 0 }))
    );
}

#[test]
fn encode_quote_is_padded_standard_base64() {
    assert_eq!(encode_quote(b""), "");
    assert_eq!(encode_quote(b"f"), "Zg==");
    assert_eq!(encode_quote(b"fo"), "Zm8=");
    assert_eq!(encode_quote(b"foo"), "Zm9v");
    assert_eq!(encode_quote(b"foobar"), "Zm9vYmFy");
    assert_eq!(encode_quote(&[0xfb, 0xff]), "+/8=");
}
