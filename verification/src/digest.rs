//! Hashing and byte-to-text encodings used to fingerprint prompts and sign
//! requests.
use vstd::prelude::*;
use vstd::utf8::encode_utf8;
use crate::text::{chars_of, digit_char, string_of};
use sha2::Digest;

verus! {

/// The SHA-256 digest of `data`.
pub uninterp spec fn sha256(data: Seq<u8>) -> Seq<u8>;

/// The lowercase hexadecimal digit for a nibble `n < 16`.
pub open spec fn hex_char(n: int) -> char {
    if n < 10 {
        digit_char(n as nat)
    } else if n == 10 {
        'a'
    } else if n == 11 {
        'b'
    } else if n == 12 {
        'c'
    } else if n == 13 {
        'd'
    } else if n == 14 {
        'e'
    } else {
        'f'
    }
}

/// Lowercase hexadecimal text of `bytes`: two digits per byte, high nibble
/// first.
pub open spec fn hex_lower(bytes: Seq<u8>) -> Seq<char>
    decreases bytes.len(),
{
    if bytes.len() == 0 {
        Seq::empty()
    } else {
        seq![hex_char(bytes[0] as int / 16), hex_char(bytes[0] as int % 16)] + hex_lower(
            bytes.drop_first(),
        )
    }
}

/// Hex text has two characters per byte.
pub proof fn lemma_hex_lower_len(bytes: Seq<u8>)
    ensures
        hex_lower(bytes).len() == 2 * bytes.len(),
    decreases bytes.len(),
{
    if bytes.len() > 0 {
        lemma_hex_lower_len(bytes.drop_first());
    }
}

/// SHA-256 of `data` with `sha2::Sha256::digest`: the claimed result is the
/// digest, which is 32 bytes long.
#[verifier::external_body]
pub(crate) fn sha256_digest(data: &[u8]) -> (r: Vec<u8>)
    ensures
        r@ == sha256(data@),
        r@.len() == 32,
{
    sha2::Sha256::digest(data).to_vec()
}

/// `hex::encode`: lowercase hexadecimal, two digits per byte.
#[verifier::external_body]
pub(crate) fn hex_encode(bytes: &[u8]) -> (r: String)
    ensures
        r@ == hex_lower(bytes@),
{
    hex::encode(bytes)
}

/// The content fingerprint of a prompt body: the first 16 hexadecimal
/// digits of the SHA-256 of its UTF-8 bytes.
pub open spec fn content_hash_of(content: Seq<char>) -> Seq<char> {
    hex_lower(sha256(encode_utf8(content))).take(16)
}

/// The first `n` characters of the lowercase hex SHA-256 of `data`.
pub open spec fn sha256_hex_prefix(data: Seq<u8>, n: int) -> Seq<char> {
    hex_lower(sha256(data)).take(n)
}

/// The first `n <= 64` characters of the lowercase hex SHA-256 of `data`.
pub fn sha256_hex_prefix_of(data: &[u8], n: usize) -> (r: String)
    requires
        n <= 64,
    ensures
        r@ == sha256_hex_prefix(data@, n as int),
{
    let digest = sha256_digest(data);
    let hex = hex_encode(digest.as_slice());
    proof {
        lemma_hex_lower_len(digest@);
    }
    let all = chars_of(hex.as_str());
    let mut v: Vec<char> = Vec::new();
    let mut i: usize = 0;
    while i < n
        invariant
            n <= all.len(),
            0 <= i <= n,
            v@ == all@.take(i as int),
        decreases n - i,
    {
        v.push(all[i]);
        proof {
            assert(all@.take(i + 1) =~= all@.take(i as int).push(all@[i as int]));
        }
        i += 1;
    }
    string_of(&v)
}

/// Fingerprint of a prompt body (16 hex digits of its SHA-256).
pub fn content_hash(content: &str) -> (r: String)
    ensures
        r@ == content_hash_of(content@),
{
    sha256_hex_prefix_of(content.as_bytes(), 16)
}

} // verus!
