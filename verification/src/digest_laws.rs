//! What is written as hexadecimal or base64 text reads back as it was.
use crate::digest::{base64_char, base64_text, hex_digit, hex_text, sha256_hex_of, sha256_of};
use vstd::prelude::*;
use vstd::utf8::encode_utf8;

verus! {

/// The value of a hexadecimal digit.
pub open spec fn hex_value(c: char) -> int {
    if '0' <= c <= '9' {
        c as int - '0' as int
    } else {
        c as int - 'a' as int + 10
    }
}

/// The bytes that hexadecimal text stands for, two digits each.
pub open spec fn hex_read(s: Seq<char>) -> Seq<u8>
    decreases s.len(),
{
    if s.len() < 2 {
        Seq::empty()
    } else {
        hex_read(s.take(s.len() - 2)).push(
            (16 * hex_value(s[s.len() - 2]) + hex_value(s[s.len() - 1])) as u8,
        )
    }
}

proof fn lemma_hex_digit(v: int)
    requires
        0 <= v < 16,
    ensures
        hex_value(hex_digit(v)) == v,
{
    if v < 10 {
        assert(hex_digit(v) as int == 48 + v);
    } else {
        assert(hex_digit(v) as int == 87 + v);
    }
}

/// Hexadecimal text has two digits a byte and reads back, so that no two
/// values share one.
pub proof fn law_hexadecimal_reads_back(data: Seq<u8>)
    ensures
        hex_text(data).len() == 2 * data.len(),
        hex_read(hex_text(data)) == data,
    decreases data.len(),
{
    if data.len() > 0 {
        let front = data.drop_last();
        law_hexadecimal_reads_back(front);
        let b = data.last();
        let s = hex_text(data);
        lemma_hex_digit(b as int / 16);
        lemma_hex_digit(b as int % 16);
        assert(s.take(s.len() - 2) =~= hex_text(front));
        assert(16 * (b as int / 16) + b as int % 16 == b);
        assert(data =~= front.push(b));
    }
}

/// The value of a base64 character of the URL-safe alphabet.
pub open spec fn base64_value(c: char) -> int {
    if 'A' <= c <= 'Z' {
        c as int - 'A' as int
    } else if 'a' <= c <= 'z' {
        c as int - 'a' as int + 26
    } else if '0' <= c <= '9' {
        c as int - '0' as int + 52
    } else if c == '-' {
        62
    } else {
        63
    }
}

/// The bytes that unpadded base64 text stands for.
pub open spec fn base64_read(s: Seq<char>) -> Seq<u8>
    decreases s.len(),
{
    if s.len() < 2 {
        Seq::empty()
    } else {
        let a = base64_value(s[0]);
        let b = base64_value(s[1]);
        let first = (a * 4 + b / 16) as u8;
        if s.len() == 2 {
            seq![first]
        } else {
            let c = base64_value(s[2]);
            let second = (b % 16 * 16 + c / 4) as u8;
            if s.len() == 3 {
                seq![first, second]
            } else {
                let d = base64_value(s[3]);
                let third = (c % 4 * 64 + d) as u8;
                seq![first, second, third] + base64_read(s.skip(4))
            }
        }
    }
}

proof fn lemma_base64_char(v: int)
    requires
        0 <= v < 64,
    ensures
        base64_value(base64_char(v)) == v,
{
    if v < 26 {
        assert(base64_char(v) as int == 65 + v);
    } else if v < 52 {
        assert(base64_char(v) as int == 71 + v);
    } else if v < 62 {
        assert(base64_char(v) as int == v - 4);
    }
}

/// Base64 text reads back.
pub proof fn law_base64_reads_back(data: Seq<u8>)
    ensures
        base64_read(base64_text(data)) == data,
    decreases data.len(),
{
    let s = base64_text(data);
    if data.len() == 0 {
        assert(base64_read(s) =~= data);
    } else {
        let x = data[0] as int;
        lemma_base64_char(x / 4);
        assert(x / 4 * 4 + x % 4 == x);
        if data.len() == 1 {
            lemma_base64_char(x % 4 * 16);
            assert((x % 4 * 16) / 16 == x % 4);
            assert(base64_read(s) =~= data);
        } else {
            let y = data[1] as int;
            lemma_base64_char(x % 4 * 16 + y / 16);
            assert((x % 4 * 16 + y / 16) / 16 == x % 4);
            assert((x % 4 * 16 + y / 16) % 16 == y / 16);
            assert(y / 16 * 16 + y % 16 == y);
            if data.len() == 2 {
                lemma_base64_char(y % 16 * 4);
                assert((y % 16 * 4) / 4 == y % 16);
                assert(base64_read(s) =~= data);
            } else {
                let z = data[2] as int;
                lemma_base64_char(y % 16 * 4 + z / 64);
                lemma_base64_char(z % 64);
                assert((y % 16 * 4 + z / 64) / 4 == y % 16);
                assert((y % 16 * 4 + z / 64) % 4 == z / 64);
                assert(z / 64 * 64 + z % 64 == z);
                let rest = data.skip(3);
                law_base64_reads_back(rest);
                assert(s.skip(4) =~= base64_text(rest));
                assert(base64_read(s) =~= seq![data[0], data[1], data[2]] + rest);
                assert(seq![data[0], data[1], data[2]] + rest =~= data);
            }
        }
    }
}

/// A digest is written out in hexadecimal, of the text's bytes.
pub proof fn law_digests_are_written_out(s: Seq<char>)
    ensures
        hex_read(sha256_hex_of(s)) == sha256_of(encode_utf8(s)),
{
    law_hexadecimal_reads_back(sha256_of(encode_utf8(s)));
}

}
