//! The file hash that OpenSubtitles matches on: SHA-256 of the first and the
//! last 64 KiB of a video file.

use vstd::prelude::*;
use crate::text::{hex_lower, hex_lower_chars, string_of};

verus! {

/// Hash of a video file for the OpenSubtitles API.
#[derive(Debug, Clone)]
pub struct VideoHash {
    /// Hash in hexadecimal.
    pub hash: String,
    /// File size in bytes.
    pub size: u64,
}

/// Bytes read from each end of the file.
pub const CHUNK_SIZE: u64 = 65536;

/// SHA-256 digest of `data`.
pub uninterp spec fn sha256_digest(data: Seq<u8>) -> Seq<u8>;

/// Calls `sha2::Sha256::digest`. Claimed: the digest is a function of the
/// data, 32 bytes long.
#[verifier::external_body]
fn sha256(data: &[u8]) -> (d: Vec<u8>)
    ensures
        d@ == sha256_digest(data@),
        d@.len() == 32,
{
    <sha2::Sha256 as sha2::Digest>::digest(data).to_vec()
}

/// Where the last chunk starts: `size - 64 KiB`, or 0 for a smaller file.
pub fn tail_start(size: u64) -> (r: u64)
    ensures
        r == (if size > CHUNK_SIZE {
            size - CHUNK_SIZE
        } else {
            0
        }),
{
    size.saturating_sub(CHUNK_SIZE)
}

/// Whether the last chunk is read separately: only when the file is larger
/// than one chunk (otherwise the first chunk already holds all of it).
pub fn reads_tail(size: u64) -> (r: bool)
    ensures
        r == (size > CHUNK_SIZE),
{
    tail_start(size) > 0
}

/// The OpenSubtitles hash of a file of `size` bytes whose first chunk read
/// as `head` and whose last chunk read as `tail`: the lower-case hex SHA-256
/// of `head` followed by `tail`.
pub fn opensubtitles_hash(head: &[u8], tail: &[u8], size: u64) -> (r: VideoHash)
    ensures
        r.hash@ == hex_lower(sha256_digest(head@ + tail@)),
        r.hash@.len() == 64,
        r.size == size,
{
    let mut data: Vec<u8> = Vec::new();
    let mut i: usize = 0;
    while i < head.len()
        invariant
            i <= head@.len(),
            data@ == head@.subrange(0, i as int),
        decreases head.len() - i,
    {
        data.push(head[i]);
        i = i + 1;
    }
    let mut j: usize = 0;
    while j < tail.len()
        invariant
            j <= tail@.len(),
            data@ == head@ + tail@.subrange(0, j as int),
        decreases tail.len() - j,
    {
        data.push(tail[j]);
        j = j + 1;
    }
    assert(head@.subrange(0, head@.len() as int) =~= head@);
    assert(tail@.subrange(0, tail@.len() as int) =~= tail@);
    let d = sha256(&data);
    let hex = hex_lower_chars(&d);
    VideoHash { hash: string_of(&hex), size }
}

} // verus!
