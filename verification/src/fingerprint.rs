//! File fingerprints: the SHA-256 digest of a file's bytes, in lowercase hex.

use vstd::prelude::*;
use crate::text::push_char;

verus! {

/// What `sha2::Sha256::digest` returns for these bytes.
pub uninterp spec fn sha256(data: Seq<u8>) -> Seq<u8>;

/// The SHA-256 digest of some bytes (`sha2::Sha256::digest`).
///
/// Trusted: the result is the named `sha256` of the bytes, and it is 32
/// bytes long, the digest's output size in the crate's types.
#[verifier::external_body]
fn sha256_digest(data: &[u8]) -> (d: Vec<u8>)
    ensures
        d@ == sha256(data@),
        d@.len() == 32,
{
    <sha2::Sha256 as sha2::Digest>::digest(data).to_vec()
}

/// The lowercase hex digit for a number below sixteen.
pub open spec fn hex_digit(n: u8) -> char {
    if n < 10 {
        ((48 + n) as u8) as char
    } else {
        ((87 + n) as u8) as char
    }
}

/// Bytes in lowercase hex, two digits per byte, high half first.
pub open spec fn hex_lower(b: Seq<u8>) -> Seq<char>
    decreases b.len(),
{
    if b.len() == 0 {
        seq![]
    } else {
        hex_lower(b.drop_last()) + seq![hex_digit(b.last() / 16), hex_digit(b.last() % 16)]
    }
}

/// The digit for a number below sixteen.
fn hex_char(n: u8) -> (c: char)
    requires
        n < 16,
    ensures
        c == hex_digit(n),
{
    if n < 10 {
        (48u8 + n) as char
    } else {
        (87u8 + n) as char
    }
}

/// Bytes in lowercase hex.
pub fn to_hex(b: &[u8]) -> (s: String)
    ensures
        s@ == hex_lower(b@),
{
    let mut s = String::new();
    let mut k: usize = 0;
    while k < b.len()
        invariant
            k <= b.len(),
            s@ == hex_lower(b@.take(k as int)),
        decreases b.len() - k,
    {
        let x = b[k];
        push_char(&mut s, hex_char(x / 16));
        push_char(&mut s, hex_char(x % 16));
        assert(b@.take(k + 1).drop_last() =~= b@.take(k as int));
        k = k + 1;
    }
    assert(b@.take(b.len() as int) =~= b@);
    s
}

/// The fingerprint of a file's contents: its SHA-256 digest in lowercase
/// hex, 64 characters.
pub fn fingerprint(content: &[u8]) -> (s: String)
    ensures
        s@ == hex_lower(sha256(content@)),
        s@.len() == 64,
{
    let d = sha256_digest(content);
    proof {
        lemma_hex_len(d@);
    }
    to_hex(d.as_slice())
}

/// Hex takes two characters per byte.
pub proof fn lemma_hex_len(b: Seq<u8>)
    ensures
        hex_lower(b).len() == 2 * b.len(),
    decreases b.len(),
{
    if b.len() > 0 {
        lemma_hex_len(b.drop_last());
    }
}

} // verus!
