//! Stable content hashing for change detection.

use sha2::Digest;
use vstd::prelude::*;

verus! {

/// The hexadecimal SHA-256 digest of a text: a function of the text alone.
pub uninterp spec fn sha256_hex_of(text: Seq<char>) -> Seq<char>;

/// Compute a stable hash for content.
///
/// Relies on sha2::Sha256 and hex::encode: the digest depends only on the
/// input bytes, is 32 bytes long, and its hexadecimal rendering holds two
/// characters for each digest byte, 64 in all.
#[verifier::external_body]
pub fn content_hash(content: &str) -> (r: String)
    ensures
        r@ == sha256_hex_of(content@),
        r@.len() == 64,
{
    hex::encode(sha2::Sha256::digest(content.as_bytes()))
}

/// Equal texts always carry equal content hashes: the digest is a function
/// of the hashed text and of nothing else.
pub proof fn lemma_content_hash_deterministic(a: Seq<char>, b: Seq<char>)
    requires
        a == b,
    ensures
        sha256_hex_of(a) == sha256_hex_of(b),
{
}

} // verus!
