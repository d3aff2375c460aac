//! Digests and encodings of bytes: SHA-256 through `sha2`, URL-safe base64
//! through `base64`, and hexadecimal.
use crate::text::chars_of;
use vstd::prelude::*;

verus! {

broadcast use vstd::string::group_string_axioms;

/// The SHA-256 digest of a message.
pub uninterp spec fn sha256_of(message: Seq<u8>) -> Seq<u8>;

/// The character of the URL-safe base64 alphabet for a six-bit value.
pub open spec fn base64_char(v: int) -> char {
    if v < 26 {
        ('A' as u32 + v) as char
    } else if v < 52 {
        ('a' as u32 + (v - 26)) as char
    } else if v < 62 {
        ('0' as u32 + (v - 52)) as char
    } else if v == 62 {
        '-'
    } else {
        '_'
    }
}

/// The URL-safe base64 text of `data` without padding: four characters for
/// each three bytes, two or three for what is left.
pub open spec fn base64_text(data: Seq<u8>) -> Seq<char>
    decreases data.len(),
{
    if data.len() == 0 {
        Seq::empty()
    } else if data.len() == 1 {
        seq![base64_char(data[0] as int / 4), base64_char(data[0] as int % 4 * 16)]
    } else if data.len() == 2 {
        seq![
            base64_char(data[0] as int / 4),
            base64_char(data[0] as int % 4 * 16 + data[1] as int / 16),
            base64_char(data[1] as int % 16 * 4),
        ]
    } else {
        seq![
            base64_char(data[0] as int / 4),
            base64_char(data[0] as int % 4 * 16 + data[1] as int / 16),
            base64_char(data[1] as int % 16 * 4 + data[2] as int / 64),
            base64_char(data[2] as int % 64),
        ] + base64_text(data.skip(3))
    }
}

/// The padding that brings a base64 text of `n` bytes to a multiple of four.
pub open spec fn base64_padding(n: nat) -> Seq<char> {
    if n % 3 == 1 {
        seq!['=', '=']
    } else if n % 3 == 2 {
        seq!['=']
    } else {
        Seq::empty()
    }
}

/// The lower-case hexadecimal digit of a four-bit value.
pub open spec fn hex_digit(v: int) -> char {
    if v < 10 {
        ('0' as u32 + v) as char
    } else {
        ('a' as u32 + (v - 10)) as char
    }
}

/// `data` in lower-case hexadecimal, two digits a byte.
pub open spec fn hex_text(data: Seq<u8>) -> Seq<char>
    decreases data.len(),
{
    if data.len() == 0 {
        Seq::empty()
    } else {
        hex_text(data.drop_last()).push(hex_digit(data.last() as int / 16)).push(
            hex_digit(data.last() as int % 16),
        )
    }
}

/// `sha2::Sha256::digest`: 32 bytes, made of the message alone.
#[verifier::external_body]
pub(crate) fn sha256(message: &[u8]) -> (r: Vec<u8>)
    ensures
        r@ == sha256_of(message@),
        r@.len() == 32,
{
    <sha2::Sha256 as sha2::Digest>::digest(message).to_vec()
}

/// `base64`'s `URL_SAFE` engine: the URL-safe alphabet, padded.
#[verifier::external_body]
pub(crate) fn base64_url_safe(data: &[u8]) -> (r: String)
    ensures
        r@ == base64_text(data@) + base64_padding(data@.len()),
{
    base64::Engine::encode(&base64::engine::general_purpose::URL_SAFE, data)
}

/// `base64`'s `URL_SAFE_NO_PAD` engine: the URL-safe alphabet, not padded.
#[verifier::external_body]
pub(crate) fn base64_url_safe_no_pad(data: &[u8]) -> (r: String)
    ensures
        r@ == base64_text(data@),
{
    base64::Engine::encode(&base64::engine::general_purpose::URL_SAFE_NO_PAD, data)
}

/// The lower-case hexadecimal digit of a four-bit value.
fn hex_digit_of(v: u8) -> (r: char)
    requires
        v < 16,
    ensures
        r == hex_digit(v as int),
{
    if v < 10 {
        (48u8 + v) as char
    } else {
        (87u8 + v) as char
    }
}

/// `data` in lower-case hexadecimal.
pub fn hex(data: &[u8]) -> (r: String)
    ensures
        r@ == hex_text(data@),
{
    let mut out = String::new();
    let mut i: usize = 0;
    while i < data.len()
        invariant
            i <= data@.len(),
            out@ == hex_text(data@.take(i as int)),
        decreases data@.len() - i,
    {
        out.push(hex_digit_of(data[i] / 16));
        out.push(hex_digit_of(data[i] % 16));
        assert(data@.take(i + 1).drop_last() == data@.take(i as int));
        i = i + 1;
    }
    assert(data@.take(data@.len() as int) == data@);
    out
}

/// The bits in which two characters differ.
fn difference(c: char, d: char) -> (r: u32)
    ensures
        r == 0 <==> c == d,
{
    let x: u32 = c as u32;
    let y: u32 = d as u32;
    assert(x ^ y == 0 <==> x == y) by (bit_vector);
    x ^ y
}

/// Whether two digests are the same. Every character is compared: how long it
/// takes tells nothing of where they differ.
pub fn ct_eq(a: &str, b: &str) -> (r: bool)
    ensures
        r == (a@ == b@),
{
    let left = chars_of(a);
    let right = chars_of(b);
    if left.len() != right.len() {
        return false;
    }
    let mut differ: u32 = 0;
    let mut i: usize = 0;
    while i < left.len()
        invariant
            i <= left@.len(),
            left@.len() == right@.len(),
            differ == 0 <==> forall|j: int| 0 <= j < i ==> left@[j] == right@[j],
        decreases left@.len() - i,
    {
        let before: u32 = differ;
        let here: u32 = difference(left[i], right[i]);
        assert(before | here == 0 <==> before == 0 && here == 0) by (bit_vector);
        differ = before | here;
        i = i + 1;
    }
    assert(differ == 0 <==> left@ =~= right@);
    differ == 0
}

/// The hexadecimal SHA-256 digest of a text.
pub open spec fn sha256_hex_of(s: Seq<char>) -> Seq<char> {
    hex_text(sha256_of(vstd::utf8::encode_utf8(s)))
}

/// A hexadecimal text has two digits a byte.
proof fn lemma_hex_len(data: Seq<u8>)
    ensures
        hex_text(data).len() == 2 * data.len(),
    decreases data.len(),
{
    if data.len() > 0 {
        lemma_hex_len(data.drop_last());
    }
}

/// The hexadecimal SHA-256 digest of a text: 64 digits.
pub fn sha256_hex(s: &str) -> (r: String)
    ensures
        r@ == sha256_hex_of(s@),
        r@.len() == 64,
{
    let digest = sha256(s.as_bytes());
    proof {
        lemma_hex_len(digest@);
    }
    hex(digest.as_slice())
}

}
