//! Thumbnail cache addressing. A cached thumbnail's file name carries the
//! digest of the source image's contents — or of its path when the
//! contents cannot be read — and the requested dimensions, so that a
//! changed image or a different size never hits a stale entry.

use vstd::prelude::*;

use vstd::string::StringExecFns;

use crate::digits::{dec_of, dec_string, hex_of};
use crate::fingerprints::{blake3_hex, content_digest, hash_path, str_digest};

verus! {

/// A requested thumbnail size: one square edge, or explicit width and
/// height.
#[derive(Clone, Copy, Debug, PartialEq, Eq, Structural)]
pub enum ThumbnailSize {
    Single(u32),
    Custom { width: u32, height: u32 },
}

impl Default for ThumbnailSize {
    /// The default edge of a thumbnail: a 256-pixel square.
    fn default() -> (r: ThumbnailSize)
        ensures
            r == ThumbnailSize::Single(256u32),
    {
        ThumbnailSize::Single(256)
    }
}

/// The width and height a size denotes.
pub open spec fn spec_dimensions(size: ThumbnailSize) -> (u32, u32) {
    match size {
        ThumbnailSize::Single(s) => (s, s),
        ThumbnailSize::Custom { width, height } => (width, height),
    }
}

/// The width and height a size denotes: a single edge is a square.
pub fn thumbnail_dimensions(size: &ThumbnailSize) -> (r: (u32, u32))
    ensures
        r == spec_dimensions(*size),
{
    match size {
        ThumbnailSize::Single(s) => (*s, *s),
        ThumbnailSize::Custom { width, height } => (*width, *height),
    }
}

/// The cache file name for a digest and the requested dimensions.
pub open spec fn spec_cache_name(digest: Seq<char>, width: u32, height: u32) -> Seq<char> {
    digest + seq!['_'] + dec_of(width as nat) + seq!['x'] + dec_of(height as nat) + seq![
        '.',
        't',
        'h',
        'u',
        'm',
        'b',
    ]
}

/// Forms the cache file name `digest_WxH.thumb`.
pub fn cache_file_name(digest: &str, width: u32, height: u32) -> (r: String)
    ensures
        r@ == spec_cache_name(digest@, width, height),
{
    let mut out = digest.to_owned();
    crate::text::push_char(&mut out, '_');
    let w = dec_string(width as u64);
    out.append(w.as_str());
    crate::text::push_char(&mut out, 'x');
    let h = dec_string(height as u64);
    out.append(h.as_str());
    crate::text::push_char(&mut out, '.');
    crate::text::push_char(&mut out, 't');
    crate::text::push_char(&mut out, 'h');
    crate::text::push_char(&mut out, 'u');
    crate::text::push_char(&mut out, 'm');
    crate::text::push_char(&mut out, 'b');
    proof {
        assert(out@ =~= spec_cache_name(digest@, width, height));
    }
    out
}

/// The digest addressing a source image: the content digest of its bytes
/// when they could be read, else the digest of its path.
pub open spec fn spec_source_digest(content: Option<Seq<u8>>, path: Seq<char>) -> Seq<char> {
    match content {
        Some(data) => blake3_hex(data),
        None => hex_of(str_digest(path) as nat),
    }
}

/// The cache file name for a source image: content-addressed when the
/// file's bytes are given, path-addressed as the fallback when they could
/// not be read.
pub fn thumbnail_cache_name(content: Option<&Vec<u8>>, path: &str, width: u32, height: u32) -> (r:
    String)
    ensures
        r@ == spec_cache_name(
            spec_source_digest(
                match content {
                    Some(d) => Some(d@),
                    None => None,
                },
                path@,
            ),
            width,
            height,
        ),
{
    let digest = match content {
        Some(data) => content_digest(data.as_slice()),
        None => hash_path(path),
    };
    cache_file_name(digest.as_str(), width, height)
}

} // verus!
