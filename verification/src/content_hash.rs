//! Content hashes: an identity that follows the bytes of a file and not its path.

use crate::text::{append_hex, hex};
use vstd::prelude::*;
use vstd::string::*;

verus! {

/// Number of bytes of a digest.
pub const DIGEST_BYTES: usize = 32;

/// Number of bytes of a digest that a stamp shows.
pub const STAMP_BYTES: usize = 8;

/// The BLAKE3 digest of some bytes.
pub uninterp spec fn blake3_digest(bytes: Seq<u8>) -> Seq<u8>;

/// `blake3::hash`: the digest of the bytes, which has 32 bytes and depends on
/// nothing else.
#[verifier::external_body]
fn digest(bytes: &[u8]) -> (d: [u8; 32])
    ensures
        d@ == blake3_digest(bytes@),
{
    *blake3::hash(bytes).as_bytes()
}

/// The digest of the contents of a file.
pub fn blake3_contents(contents: &[u8]) -> (d: [u8; 32])
    ensures
        d@ == blake3_digest(contents@),
{
    digest(contents)
}

/// An identity for a build: its version, and the first sixteen hexadecimal digits
/// of a digest.
pub open spec fn stamp_text(version: Seq<char>, digest: Seq<u8>) -> Seq<char> {
    version + "-"@ + hex(digest.take(STAMP_BYTES as int))
}

/// An identity for a build: its version, and the first sixteen hexadecimal digits
/// of the digest of its contents.
pub fn content_stamp(version: &str, digest: &[u8; 32]) -> (s: String)
    ensures
        s@ == stamp_text(version@, digest@),
{
    let mut s: String = version.to_owned();
    s.append("-");
    let mut front: Vec<u8> = Vec::new();
    let mut i: usize = 0;
    while i < STAMP_BYTES
        invariant
            i <= STAMP_BYTES,
            front@ == digest@.take(i as int),
        decreases STAMP_BYTES - i,
    {
        front.push(digest[i]);
        assert(front@ =~= digest@.take(i + 1));
        i = i + 1;
    }
    append_hex(&mut s, front.as_slice());
    s
}

/// A stamp begins with the version and ends with sixteen hexadecimal digits: those of
/// the first eight bytes of the digest, and of no other.
pub proof fn law_stamps_show_the_front_of_the_digest(
    version: Seq<char>,
    digest: Seq<u8>,
    other: Seq<u8>,
)
    requires
        digest.len() == 32,
        other.len() == 32,
    ensures
        stamp_text(version, digest) == version + "-"@ + hex(digest.subrange(0, 8)),
        (forall|i: int| 0 <= i < 8 ==> digest[i] == other[i]) ==> stamp_text(version, digest)
            == stamp_text(version, other),
{
    assert(digest.take(8) =~= digest.subrange(0, 8));
    if forall|i: int| 0 <= i < 8 ==> digest[i] == other[i] {
        assert(digest.take(8) =~= other.take(8));
    }
}

} // verus!
