//! Digests and encodings computed by outside crates.

use vstd::prelude::*;

use base64::Engine;
use sha1::Digest;

verus! {

/// The SHA-1 digest of some bytes, as the `sha1` crate computes it.
pub uninterp spec fn sha1_digest(bytes: Seq<u8>) -> Seq<u8>;

/// The BLAKE3 hash of some bytes, as the `blake3` crate computes it.
pub uninterp spec fn blake3_digest(bytes: Seq<u8>) -> Seq<u8>;

/// The standard, padded Base64 encoding of some bytes, as the `base64` crate writes it.
pub uninterp spec fn base64_standard(bytes: Seq<u8>) -> Seq<char>;

/// `Sha1::digest` of the `sha1` crate: the 20-byte digest.
#[verifier::external_body]
pub(crate) fn sha1_hash(bytes: &[u8]) -> (d: Vec<u8>)
    ensures
        d@ == sha1_digest(bytes@),
        d@.len() == 20,
{
    sha1::Sha1::digest(bytes).to_vec()
}

/// `blake3::hash` of the `blake3` crate: the 32-byte hash.
#[verifier::external_body]
pub(crate) fn blake3_hash(bytes: &[u8]) -> (d: Vec<u8>)
    ensures
        d@ == blake3_digest(bytes@),
        d@.len() == 32,
{
    blake3::hash(bytes).as_bytes().to_vec()
}

/// `Engine::encode` of the `base64` crate with the standard alphabet and padding.
#[verifier::external_body]
pub(crate) fn base64_encode(bytes: &[u8]) -> (s: String)
    ensures
        s@ == base64_standard(bytes@),
{
    base64::engine::general_purpose::STANDARD.encode(bytes)
}

/// The lowercase hexadecimal digit of a nibble.
pub open spec fn hex_digit(n: int) -> char {
    if n < 10 {
        (('0' as int) + n) as char
    } else {
        (('a' as int) + n - 10) as char
    }
}

/// Two lowercase hexadecimal digits per byte, high nibble first.
pub open spec fn hex_lower(bytes: Seq<u8>) -> Seq<char>
    decreases bytes.len(),
{
    if bytes.len() == 0 {
        Seq::empty()
    } else {
        hex_lower(bytes.drop_last()).push(hex_digit(bytes.last() as int / 16)).push(hex_digit(bytes.last() as int % 16))
    }
}

/// `hex::encode` of the `hex` crate: two lowercase digits per byte.
#[verifier::external_body]
pub(crate) fn hex_encode(bytes: &[u8]) -> (s: String)
    ensures
        s@ == hex_lower(bytes@),
{
    hex::encode(bytes)
}

} // verus!
