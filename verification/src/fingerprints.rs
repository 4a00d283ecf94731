//! Deterministic identifiers derived from paths and file contents.
//!
//! A registered site is addressed by the fixed-width hash of its canonical
//! path; thumbnail cache entries are addressed by a content digest, falling
//! back to a path digest when the file cannot be read. The digests come from
//! outside hash functions; only their determinism is relied on, and it is a
//! known limitation that two distinct inputs could in principle collide.

use vstd::prelude::*;

use crate::digits::{hex_of, hex_string};

verus! {

/// The digest std's `DefaultHasher` assigns to a path's components: a pure
/// function of the path text.
pub uninterp spec fn path_digest(path: Seq<char>) -> u64;

/// The digest std's `DefaultHasher` assigns to a string: a pure function of
/// the string's characters.
pub uninterp spec fn str_digest(s: Seq<char>) -> u64;

/// The 64-character lowercase hexadecimal BLAKE3 digest of a byte string:
/// a pure function of the bytes.
pub uninterp spec fn blake3_hex(data: Seq<u8>) -> Seq<char>;

/// Relies on `DefaultHasher` over `PathBuf`: the digest is a function of the
/// path's components alone, so equal path texts give equal digests.
#[verifier::external_body]
fn digest_of_path(path: &str) -> (r: u64)
    ensures
        r == path_digest(path@),
{
    let mut hasher = std::collections::hash_map::DefaultHasher::new();
    std::hash::Hash::hash(&std::path::PathBuf::from(path), &mut hasher);
    std::hash::Hasher::finish(&hasher)
}

/// Relies on `DefaultHasher` over `str`: the digest is a function of the
/// string's characters alone.
#[verifier::external_body]
fn digest_of_str(s: &str) -> (r: u64)
    ensures
        r == str_digest(s@),
{
    let mut hasher = std::collections::hash_map::DefaultHasher::new();
    std::hash::Hash::hash(s, &mut hasher);
    std::hash::Hasher::finish(&hasher)
}

/// Relies on `blake3::hash` and `blake3::Hash::to_hex`: a 64-character
/// lowercase hexadecimal digest determined by the input bytes alone.
#[verifier::external_body]
fn blake3_hex_of(data: &[u8]) -> (r: String)
    ensures
        r@ == blake3_hex(data@),
        r@.len() == 64,
{
    blake3::hash(data).to_hex().as_str().to_owned()
}

/// The identifier under which a canonical path is registered as a site: the
/// lowercase hexadecimal rendering of the path's digest. Equal canonical
/// paths always give the identical identifier.
pub fn site_id(canonical_path: &str) -> (r: String)
    ensures
        r@ == hex_of(path_digest(canonical_path@) as nat),
{
    hex_string(digest_of_path(canonical_path))
}

/// The lowercase hexadecimal rendering of a string's digest; used for
/// thumbnail cache names when the file contents cannot be read.
pub fn hash_path(path: &str) -> (r: String)
    ensures
        r@ == hex_of(str_digest(path@) as nat),
{
    hex_string(digest_of_str(path))
}

/// The 64-character BLAKE3 content digest of a byte string, in lowercase
/// hexadecimal.
pub fn content_digest(data: &[u8]) -> (r: String)
    ensures
        r@ == blake3_hex(data@),
        r@.len() == 64,
{
    blake3_hex_of(data)
}

} // verus!
