//! Hex coding, UTF-16 encoding and the hash primitives of the login
//! challenge-response.
use vstd::prelude::*;
use vstd::string::StringSliceAdditionalSpecFns;
use crate::text::{append_chars, chars_of, decimal, string_of, to_decimal};

verus! {

/// The value of a hex digit (either case).
pub open spec fn hex_value(c: char) -> Option<u8> {
    if '0' <= c && c <= '9' {
        Some((c as int - '0' as int) as u8)
    } else if 'a' <= c && c <= 'f' {
        Some((c as int - 'a' as int + 10) as u8)
    } else if 'A' <= c && c <= 'F' {
        Some((c as int - 'A' as int + 10) as u8)
    } else {
        None
    }
}

/// Hex decoding: an even number of hex digits, two per byte, high nibble
/// first; anything else is rejected.
pub open spec fn hex_decode_spec(s: Seq<char>) -> Option<Seq<u8>> {
    if s.len() % 2 == 0 && forall|i: int| 0 <= i < s.len() ==> #[trigger] hex_value(s[i]) is Some {
        Some(
            Seq::new(
                s.len() / 2,
                |i: int| (hex_value(s[2 * i])->0 * 16 + hex_value(s[2 * i + 1])->0) as u8,
            ),
        )
    } else {
        None
    }
}

/// The lowercase hex digit for `d < 16`.
pub open spec fn lower_hex_digit(d: int) -> char {
    if d < 10 {
        (d + '0' as int) as char
    } else {
        (d - 10 + 'a' as int) as char
    }
}

/// Lowercase hex encoding, two digits per byte, high nibble first.
pub open spec fn hex_lower(b: Seq<u8>) -> Seq<char> {
    Seq::new(
        2 * b.len(),
        |i: int|
            if i % 2 == 0 {
                lower_hex_digit((b[i / 2] / 16) as int)
            } else {
                lower_hex_digit((b[i / 2] % 16) as int)
            },
    )
}

/// Why hex decoding failed, as `hex::FromHexError` reports it.
#[derive(Clone, Copy, Debug, PartialEq, Eq, Structural)]
pub enum HexError {
    /// A byte that is no hex digit, as a character, and its byte position.
    InvalidHexCharacter { c: char, index: usize },
    /// An odd number of bytes.
    OddLength,
    /// A length that does not fit a fixed-size output.
    InvalidStringLength,
}

/// Whether a byte is an ASCII hex digit (either case).
pub open spec fn is_hex_byte(b: u8) -> bool {
    (48 <= b && b <= 57) || (97 <= b && b <= 102) || (65 <= b && b <= 70)
}

/// Whether position `i` holds the first byte that is no hex digit.
pub open spec fn is_first_bad_byte(bytes: Seq<u8>, i: int) -> bool {
    &&& 0 <= i < bytes.len()
    &&& !is_hex_byte(bytes[i])
    &&& forall|j: int| 0 <= j < i ==> is_hex_byte(#[trigger] bytes[j])
}

/// The error that decoding rejected text reports: an odd byte count first,
/// else the first byte that is no hex digit, with its position.
pub open spec fn hex_error_spec(bytes: Seq<u8>) -> HexError {
    if bytes.len() % 2 != 0 {
        HexError::OddLength
    } else {
        let i = choose|i: int| is_first_bad_byte(bytes, i);
        HexError::InvalidHexCharacter { c: bytes[i] as char, index: i as usize }
    }
}

/// `hex::decode`: decodes a string of hex digits (either case) into bytes.
/// Text of non-ASCII characters never decodes, so success and the bytes are
/// stated over the characters; the error is stated over the UTF-8 bytes the
/// crate reads: an odd count, else the first byte that is no hex digit.
#[verifier::external_body]
pub(crate) fn hex_decode(s: &str) -> (res: Result<Vec<u8>, HexError>)
    ensures
        res is Ok <==> hex_decode_spec(s@) is Some,
        res matches Ok(v) ==> v@ == hex_decode_spec(s@)->0,
        res matches Err(e) ==> e == hex_error_spec(s.spec_bytes()),
{
    match hex::decode(s) {
        Ok(v) => Ok(v),
        Err(hex::FromHexError::InvalidHexCharacter { c, index }) => Err(
            HexError::InvalidHexCharacter { c, index },
        ),
        Err(hex::FromHexError::OddLength) => Err(HexError::OddLength),
        Err(hex::FromHexError::InvalidStringLength) => Err(HexError::InvalidStringLength),
    }
}

/// The text that `{:?}` renders for a character (quoted and escaped).
pub uninterp spec fn char_debug_text(c: char) -> Seq<char>;

/// `<char as Debug>::fmt` through `format!("{:?}", c)`: the quoted,
/// escaped rendering of a character, named by `char_debug_text`.
#[verifier::external_body]
fn char_debug(c: char) -> (res: String)
    ensures
        res@ == char_debug_text(c),
{
    format!("{:?}", c)
}

/// The message of a hex decoding error, as `hex::FromHexError` displays it.
pub open spec fn hex_error_message(e: HexError) -> Seq<char> {
    match e {
        HexError::InvalidHexCharacter { c, index } => "Invalid character "@ + char_debug_text(c)
            + " at position "@ + decimal(index as nat),
        HexError::OddLength => "Odd number of digits"@,
        HexError::InvalidStringLength => "Invalid string length"@,
    }
}

impl HexError {
    /// The message of the error.
    pub fn message(&self) -> (res: String)
        ensures
            res@ == hex_error_message(*self),
    {
        let mut out: Vec<char> = Vec::new();
        match self {
            HexError::InvalidHexCharacter { c, index } => {
                append_chars(&mut out, &chars_of("Invalid character "));
                let shown = char_debug(*c);
                append_chars(&mut out, &chars_of(shown.as_str()));
                append_chars(&mut out, &chars_of(" at position "));
                append_chars(&mut out, &to_decimal(*index as u64));
            },
            HexError::OddLength => {
                append_chars(&mut out, &chars_of("Odd number of digits"));
            },
            HexError::InvalidStringLength => {
                append_chars(&mut out, &chars_of("Invalid string length"));
            },
        }
        assert(out@ =~= hex_error_message(*self));
        string_of(&out)
    }
}

/// `hex::encode`: lowercase hex encoding of the bytes.
#[verifier::external_body]
pub(crate) fn hex_encode(data: &[u8]) -> (res: String)
    ensures
        res@ == hex_lower(data@),
{
    hex::encode(data)
}

fn lower_hex_char(d: u8) -> (c: char)
    requires
        d < 16,
    ensures
        c == lower_hex_digit(d as int),
{
    if d == 0 { '0' }
    else if d == 1 { '1' }
    else if d == 2 { '2' }
    else if d == 3 { '3' }
    else if d == 4 { '4' }
    else if d == 5 { '5' }
    else if d == 6 { '6' }
    else if d == 7 { '7' }
    else if d == 8 { '8' }
    else if d == 9 { '9' }
    else if d == 10 { 'a' }
    else if d == 11 { 'b' }
    else if d == 12 { 'c' }
    else if d == 13 { 'd' }
    else if d == 14 { 'e' }
    else { 'f' }
}

/// Lowercase hex rendering of bytes, as `{:02x}` per byte.
pub fn to_lower_hex(data: &[u8]) -> (res: Vec<char>)
    ensures
        res@ == hex_lower(data@),
{
    let mut out: Vec<char> = Vec::new();
    let mut i: usize = 0;
    while i < data.len()
        invariant
            i <= data@.len(),
            out@ =~= hex_lower(data@.subrange(0, i as int)),
        decreases data.len() - i,
    {
        let b: u8 = data[i];
        out.push(lower_hex_char(b / 16));
        out.push(lower_hex_char(b % 16));
        i = i + 1;
        assert(out@ =~= hex_lower(data@.subrange(0, i as int)));
    }
    assert(data@.subrange(0, data@.len() as int) =~= data@);
    out
}

/// The MD5 digest of `data`.
pub uninterp spec fn md5_digest(data: Seq<u8>) -> Seq<u8>;

/// `md5::compute`: the 16-byte MD5 digest of `data`, which this contract
/// names without describing the hash function itself.
#[verifier::external_body]
pub(crate) fn md5_compute(data: &[u8]) -> (res: Vec<u8>)
    ensures
        res@ == md5_digest(data@),
        res@.len() == 16,
{
    md5::compute(data).0.to_vec()
}

/// The first 32 bytes of PBKDF2 with HMAC-SHA256 over `password`, `salt`
/// and `rounds` iterations.
pub uninterp spec fn pbkdf2_sha256_key32(password: Seq<u8>, salt: Seq<u8>, rounds: u32) -> Seq<u8>;

/// `pbkdf2::pbkdf2_hmac::<sha2::Sha256>` into a 32-byte buffer: the
/// derived key, named by `pbkdf2_sha256_key32`.
#[verifier::external_body]
pub(crate) fn pbkdf2_sha256(password: &[u8], salt: &[u8], rounds: u32) -> (res: Vec<u8>)
    ensures
        res@ == pbkdf2_sha256_key32(password@, salt@, rounds),
        res@.len() == 32,
{
    let mut out = [0u8; 32];
    pbkdf2::pbkdf2_hmac::<sha2::Sha256>(password, salt, rounds, &mut out);
    out.to_vec()
}

/// UTF-16LE bytes of one character: one code unit below U+10000, a
/// surrogate pair above; each unit low byte first.
pub open spec fn char_utf16le(c: char) -> Seq<u8> {
    let u: int = c as u32 as int;
    if u < 0x10000 {
        seq![(u % 256) as u8, (u / 256) as u8]
    } else {
        let v: int = u - 0x10000;
        let hi: int = 0xD800 + v / 1024;
        let lo: int = 0xDC00 + v % 1024;
        seq![(hi % 256) as u8, (hi / 256) as u8, (lo % 256) as u8, (lo / 256) as u8]
    }
}

/// UTF-16LE encoding of a character sequence
/// (`encode_utf16` followed by `u16::to_le_bytes`).
pub open spec fn utf16le(s: Seq<char>) -> Seq<u8>
    decreases s.len(),
{
    if s.len() == 0 {
        Seq::empty()
    } else {
        utf16le(s.drop_last()) + char_utf16le(s.last())
    }
}

/// Encodes characters as UTF-16LE bytes.
pub fn encode_utf16le(s: &[char]) -> (res: Vec<u8>)
    ensures
        res@ == utf16le(s@),
{
    let mut out: Vec<u8> = Vec::new();
    let mut i: usize = 0;
    while i < s.len()
        invariant
            i <= s@.len(),
            out@ == utf16le(s@.subrange(0, i as int)),
        decreases s.len() - i,
    {
        let c = s[i];
        let u: u32 = c as u32;
        let ghost prev = out@;
        if u < 0x10000 {
            out.push((u % 256) as u8);
            out.push((u / 256) as u8);
        } else {
            let v: u32 = u - 0x10000;
            let hi: u32 = 0xD800 + v / 1024;
            let lo: u32 = 0xDC00 + v % 1024;
            out.push((hi % 256) as u8);
            out.push((hi / 256) as u8);
            out.push((lo % 256) as u8);
            out.push((lo / 256) as u8);
        }
        proof {
            assert(s@.subrange(0, i + 1).drop_last() =~= s@.subrange(0, i as int));
            assert(s@.subrange(0, i + 1).last() == c);
            assert(out@ =~= prev + char_utf16le(c));
        }
        i = i + 1;
    }
    assert(s@.subrange(0, s@.len() as int) =~= s@);
    out
}

} // verus!

verus! {

proof fn lemma_lower_hex_digit_value(d: int)
    requires
        0 <= d < 16,
    ensures
        hex_value(lower_hex_digit(d)) == Some(d as u8),
{
}

/// Hex decoding undoes lowercase hex encoding: decoding the encoding of any
/// bytes gives back exactly those bytes.
pub proof fn law_hex_round_trip(b: Seq<u8>)
    ensures
        hex_lower(b).len() == 2 * b.len(),
        hex_decode_spec(hex_lower(b)) == Some(b),
{
    let s = hex_lower(b);
    assert forall|i: int| 0 <= i < s.len() implies #[trigger] hex_value(s[i]) is Some by {
        if i % 2 == 0 {
            lemma_lower_hex_digit_value((b[i / 2] / 16) as int);
        } else {
            lemma_lower_hex_digit_value((b[i / 2] % 16) as int);
        }
    }
    assert(s.len() % 2 == 0);
    let d = hex_decode_spec(s)->0;
    assert forall|i: int| 0 <= i < b.len() implies #[trigger] d[i] == b[i] by {
        assert((2 * i) % 2 == 0);
        assert((2 * i + 1) % 2 == 1);
        assert((2 * i) / 2 == i);
        assert((2 * i + 1) / 2 == i);
        lemma_lower_hex_digit_value((b[i] / 16) as int);
        lemma_lower_hex_digit_value((b[i] % 16) as int);
    }
    assert(d =~= b);
}

/// Text of characters below U+10000 encodes to two bytes per character,
/// the low byte of the code point first, then the high byte.
pub proof fn law_utf16le_bmp(s: Seq<char>)
    requires
        forall|i: int| 0 <= i < s.len() ==> (#[trigger] s[i] as u32) < 0x10000,
    ensures
        utf16le(s).len() == 2 * s.len(),
        forall|i: int|
            0 <= i < s.len() ==> utf16le(s)[2 * i] == (#[trigger] s[i] as u32 % 256) as u8
                && utf16le(s)[2 * i + 1] == (s[i] as u32 / 256) as u8,
    decreases s.len(),
{
    if s.len() > 0 {
        let t = s.drop_last();
        assert forall|i: int| 0 <= i < t.len() implies (#[trigger] t[i] as u32) < 0x10000 by {
            assert(t[i] == s[i]);
        }
        law_utf16le_bmp(t);
        let last = s.last();
        assert((s[s.len() - 1] as u32) < 0x10000);
        assert forall|i: int| 0 <= i < s.len() implies utf16le(s)[2 * i] == (#[trigger] s[i] as u32
            % 256) as u8 && utf16le(s)[2 * i + 1] == (s[i] as u32 / 256) as u8 by {
            if i < t.len() {
                assert(t[i] == s[i]);
            } else {
                assert(s[i] == last);
            }
        }
    }
}

/// Every character encodes to two bytes, or four above U+FFFF.
pub proof fn law_utf16le_char_width(c: char)
    ensures
        char_utf16le(c).len() == if (c as u32) < 0x10000 { 2int } else { 4int },
{
}

} // verus!
