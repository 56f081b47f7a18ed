//! The computations that the enclave context makes on what it reads and sends:
//! decoding the service provider ID and encoding the attestation quote.

use vstd::prelude::*;
use vstd::string::StringSliceAdditionalSpecFns;

verus! {

/// Why a hexadecimal string could not be decoded, with the kinds that the
/// `hex` crate tells apart.
#[derive(Debug, PartialEq, Eq, Structural)]
pub enum HexError {
    /// The byte at `index` is not a hexadecimal digit; `c` is that byte read
    /// as a character.
    InvalidHexCharacter { c: char, index: usize },
    /// The string has an odd number of bytes.
    OddLength,
    /// The string does not fit the buffer it is decoded into.
    InvalidStringLength,
}

/// Why the enclave context could not be set up.
#[derive(Debug, PartialEq, Eq, Structural)]
pub enum ContextError {
    /// The service provider ID is not a hexadecimal string.
    Hex(HexError),
}

/// An ASCII hexadecimal digit, of either case.
pub open spec fn is_hex_digit(b: u8) -> bool {
    (0x30 <= b && b <= 0x39) || (0x61 <= b && b <= 0x66) || (0x41 <= b && b <= 0x46)
}

/// The value of a hexadecimal digit.
pub open spec fn hex_digit_value(b: u8) -> int {
    if 0x30 <= b && b <= 0x39 {
        b - 0x30
    } else if 0x61 <= b && b <= 0x66 {
        b - 0x61 + 10
    } else {
        b - 0x41 + 10
    }
}

/// A string, given by its bytes, made of pairs of hexadecimal digits.
pub open spec fn is_hex_string(s: Seq<u8>) -> bool {
    &&& s.len() % 2 == 0
    &&& forall|i: int| 0 <= i < s.len() ==> #[trigger] is_hex_digit(s[i])
}

/// The bytes that a hexadecimal string spells, two digits each, high digit first.
pub open spec fn hex_bytes(s: Seq<u8>) -> Seq<u8> {
    Seq::new(s.len() / 2, |i: int| (hex_digit_value(s[2 * i]) * 16 + hex_digit_value(s[2 * i + 1])) as u8)
}

/// The position of the first byte of `s` that is not a hexadecimal digit.
pub open spec fn first_non_hex_digit(s: Seq<u8>) -> int {
    choose|i: int|
        0 <= i < s.len() && !is_hex_digit(s[i]) && forall|j: int| 0 <= j < i ==> #[trigger] is_hex_digit(s[j])
}

/// The error that decoding a string that is not a hexadecimal string gives:
/// an odd length first, else the first byte that is not a digit.
pub open spec fn hex_decode_error(s: Seq<u8>) -> HexError {
    if s.len() % 2 != 0 {
        HexError::OddLength
    } else {
        let i = first_non_hex_digit(s);
        HexError::InvalidHexCharacter { c: s[i] as char, index: i as usize }
    }
}

/// `hex::decode` on a string, with its error turned variant by variant into
/// `HexError`. Claimed, as the crate's source shows: it reads the string's
/// UTF-8 bytes; it succeeds exactly when they are pairs of hexadecimal digits
/// (either case), and then each pair gives one byte, high digit first;
/// otherwise it reports an odd length, else the first byte, in order, that is
/// not a digit, with its position.
#[verifier::external_body]
fn hex_decode(s: &str) -> (res: Result<Vec<u8>, HexError>)
    ensures
        res is Ok <==> is_hex_string(s.spec_bytes()),
        res matches Ok(bytes) ==> bytes@ == hex_bytes(s.spec_bytes()),
        res matches Err(e) ==> e == hex_decode_error(s.spec_bytes()),
{
    match hex::decode(s) {
        Ok(bytes) => Ok(bytes),
        Err(hex::FromHexError::InvalidHexCharacter { c, index }) => Err(HexError::InvalidHexCharacter { c, index }),
        Err(hex::FromHexError::OddLength) => Err(HexError::OddLength),
        Err(hex::FromHexError::InvalidStringLength) => Err(HexError::InvalidStringLength),
    }
}

/// Decodes the service provider ID for the ISV from its 32 hexadecimal
/// digits into its 16 bytes, passing on why a string that is not
/// hexadecimal could not be decoded.
pub fn decode_spid(spid: &str) -> (res: Result<[u8; 16], ContextError>)
    requires
        is_hex_string(spid.spec_bytes()) ==> spid.spec_bytes().len() == 32,
    ensures
        res is Ok <==> is_hex_string(spid.spec_bytes()),
        res matches Ok(id) ==> id@ == hex_bytes(spid.spec_bytes()),
        res is Err ==> res == Err::<[u8; 16], ContextError>(ContextError::Hex(hex_decode_error(spid.spec_bytes()))),
{
    let spid_vec = match hex_decode(spid) {
        Ok(v) => v,
        Err(e) => return Err(ContextError::Hex(e)),
    };
    let mut id = [0u8; 16];
    let mut i: usize = 0;
    while i < 16
        invariant
            i <= 16,
            spid_vec@.len() == 16,
            forall|j: int| 0 <= j < i ==> id@[j] == spid_vec@[j],
        decreases 16 - i,
    {
        id[i] = spid_vec[i];
        i = i + 1;
    }
    assert(id@ =~= spid_vec@);
    Ok(id)
}

/// A base64 symbol of the standard alphabet (RFC 4648, table 1).
pub open spec fn base64_symbol(v: int) -> char {
    if v < 26 {
        (65 + v) as char
    } else if v < 52 {
        (97 + v - 26) as char
    } else if v < 62 {
        (48 + v - 52) as char
    } else if v == 62 {
        '+'
    } else {
        '/'
    }
}

/// Base64 with the standard alphabet and `=` padding (RFC 4648, section 4):
/// each group of three bytes, read as a 24-bit number, gives four symbols;
/// a last group of one or two bytes is padded with zero bits and `=`.
pub open spec fn base64_standard(data: Seq<u8>) -> Seq<char>
    decreases data.len(),
{
    if data.len() == 0 {
        Seq::empty()
    } else if data.len() == 1 {
        let n = data[0] * 65536;
        seq![base64_symbol(n / 262144), base64_symbol(n / 4096 % 64), '=', '=']
    } else if data.len() == 2 {
        let n = data[0] * 65536 + data[1] * 256;
        seq![base64_symbol(n / 262144), base64_symbol(n / 4096 % 64), base64_symbol(n / 64 % 64), '=']
    } else {
        let n = data[0] * 65536 + data[1] * 256 + data[2];
        seq![
            base64_symbol(n / 262144),
            base64_symbol(n / 4096 % 64),
            base64_symbol(n / 64 % 64),
            base64_symbol(n % 64),
        ] + base64_standard(data.subrange(3, data.len() as int))
    }
}

/// `base64::encode` (the standard alphabet, padded). Claimed: the RFC 4648
/// encoding of `data`. The crate panics when the length of the encoding
/// does not fit a `usize`; `requires` leaves those inputs out.
#[verifier::external_body]
fn base64_encode(data: &[u8]) -> (encoded: String)
    requires
        (data@.len() + 2) / 3 * 4 <= usize::MAX,
    ensures
        encoded@ == base64_standard(data@),
{
    base64::encode(data)
}

/// Encodes an attestation quote in base64, the form in which it is handed
/// out through the API.
pub fn encode_quote(quote: &[u8]) -> (encoded: String)
    requires
        (quote@.len() + 2) / 3 * 4 <= usize::MAX,
    ensures
        encoded@ == base64_standard(quote@),
{
    base64_encode(quote)
}

} // verus!
