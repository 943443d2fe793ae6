//! File fingerprint: SHA-256 rendered as lowercase hexadecimal.

use sha2::{Digest, Sha256};
use vstd::prelude::*;

verus! {

/// The 32-byte digest that `sha2::Sha256` computes for `data`.
pub uninterp spec fn sha256(data: Seq<u8>) -> Seq<u8>;

/// Calls `sha2::Sha256::digest`, which creates a hasher, feeds it `data` and
/// finalizes it. Trusted: the output is the SHA-256 digest of the input, a
/// function of the input bytes alone, and is always 32 bytes long (the
/// hasher's `OutputSize` is `U32`).
#[verifier::external_body]
fn sha256_bytes(data: &[u8]) -> (out: Vec<u8>)
    ensures
        out@ == sha256(data@),
        out@.len() == 32,
{
    Sha256::digest(data).to_vec()
}

/// The lowercase hexadecimal digit for a value below sixteen.
pub open spec fn hex_digit(n: int) -> char {
    if n == 0 {
        '0'
    } else if n == 1 {
        '1'
    } else if n == 2 {
        '2'
    } else if n == 3 {
        '3'
    } else if n == 4 {
        '4'
    } else if n == 5 {
        '5'
    } else if n == 6 {
        '6'
    } else if n == 7 {
        '7'
    } else if n == 8 {
        '8'
    } else if n == 9 {
        '9'
    } else if n == 10 {
        'a'
    } else if n == 11 {
        'b'
    } else if n == 12 {
        'c'
    } else if n == 13 {
        'd'
    } else if n == 14 {
        'e'
    } else {
        'f'
    }
}

/// Whether `c` is one of `0`-`9`, `a`-`f`.
pub open spec fn is_lower_hex(c: char) -> bool {
    ('0' <= c && c <= '9') || ('a' <= c && c <= 'f')
}

/// The character at position `i` of the hexadecimal rendering of `bytes`:
/// even positions hold the high nibble of a byte, odd positions the low one.
pub open spec fn hex_char_at(bytes: Seq<u8>, i: int) -> char {
    if i % 2 == 0 {
        hex_digit(bytes[i / 2] as int / 16)
    } else {
        hex_digit(bytes[i / 2] as int % 16)
    }
}

/// Lowercase hexadecimal rendering: two characters per byte, in byte order,
/// high nibble first.
pub open spec fn hex_string(bytes: Seq<u8>) -> Seq<char> {
    Seq::new(2 * bytes.len(), |i: int| hex_char_at(bytes, i))
}

/// The one-character string for a nibble.
fn hex_digit_str(n: u8) -> (s: &'static str)
    requires
        n < 16,
    ensures
        s@ == seq![hex_digit(n as int)],
{
    proof {
        reveal_strlit("0");
        reveal_strlit("1");
        reveal_strlit("2");
        reveal_strlit("3");
        reveal_strlit("4");
        reveal_strlit("5");
        reveal_strlit("6");
        reveal_strlit("7");
        reveal_strlit("8");
        reveal_strlit("9");
        reveal_strlit("a");
        reveal_strlit("b");
        reveal_strlit("c");
        reveal_strlit("d");
        reveal_strlit("e");
        reveal_strlit("f");
    }
    let s = match n {
        0 => "0",
        1 => "1",
        2 => "2",
        3 => "3",
        4 => "4",
        5 => "5",
        6 => "6",
        7 => "7",
        8 => "8",
        9 => "9",
        10 => "a",
        11 => "b",
        12 => "c",
        13 => "d",
        14 => "e",
        _ => "f",
    };
    s
}

/// Renders `bytes` as lowercase hexadecimal.
pub fn hex_encode(bytes: &[u8]) -> (s: String)
    ensures
        s@ == hex_string(bytes@),
{
    let mut s = String::new();
    let mut i: usize = 0;
    while i < bytes.len()
        invariant
            i <= bytes.len(),
            s@ == hex_string(bytes@.take(i as int)),
        decreases bytes.len() - i,
    {
        let b = bytes[i];
        s.append(hex_digit_str(b / 16));
        s.append(hex_digit_str(b % 16));
        assert(s@ =~= hex_string(bytes@.take(i + 1)));
        i += 1;
    }
    s
}

/// Every rendering has two characters per byte, all of them lowercase
/// hexadecimal digits.
pub proof fn lemma_hex_string_shape(bytes: Seq<u8>)
    ensures
        hex_string(bytes).len() == 2 * bytes.len(),
        forall|i: int|
            0 <= i < hex_string(bytes).len() ==> is_lower_hex(#[trigger] hex_string(bytes)[i]),
{
}

/// Whether `s` has the shape of a rendered SHA-256 digest: exactly 64
/// lowercase hexadecimal characters.
pub open spec fn is_hex_digest(s: Seq<char>) -> bool {
    &&& s.len() == 64
    &&& forall|i: int| 0 <= i < s.len() ==> is_lower_hex(#[trigger] s[i])
}

/// The rendered digest is determined by the bytes that were hashed: two
/// digests of the same bytes are the same string.
pub proof fn lemma_digest_deterministic(first: Seq<char>, second: Seq<char>, data: Seq<u8>)
    requires
        first == hex_string(sha256(data)),
        second == hex_string(sha256(data)),
    ensures
        first == second,
{
}

/// The SHA-256 digest of `data` as 64 lowercase hexadecimal characters. The
/// result depends on the bytes of `data` alone.
pub fn sha256_hex(data: &[u8]) -> (s: String)
    ensures
        s@ == hex_string(sha256(data@)),
        is_hex_digest(s@),
{
    let raw = sha256_bytes(data);
    proof {
        lemma_hex_string_shape(raw@);
    }
    hex_encode(raw.as_slice())
}

} // verus!
