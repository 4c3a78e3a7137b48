//! An incremental SHA-1 hasher with a verified block-buffering state machine.
//!
//! The hasher accepts input in arbitrary chunks, keeps the unprocessed tail in
//! an internal buffer, and advances five 32-bit state words one 64-byte block
//! at a time.  Querying the digest pads a private copy of the pending data, so
//! the hasher stays usable for further updates.  Every public operation is
//! specified against `message::sha1_of`, the mathematical SHA-1 function over
//! the exact byte sequence fed in so far.

use vstd::prelude::*;

pub mod compress;
pub mod digest;
pub mod hasher;
pub mod message;

pub use crate::digest::Digest;
pub use crate::hasher::SHA1;

verus! {

/// Creates a new hash.
pub fn new() -> (r: SHA1)
    ensures
        r.wf(),
        r@ == Seq::<u8>::empty(),
{
    SHA1::new()
}

/// Creates a default hash.
pub fn default() -> (r: SHA1)
    ensures
        r.wf(),
        r@ == Seq::<u8>::empty(),
{
    SHA1::default()
}

/// Computes the hash of the given input.
pub fn hash(data: &[u8]) -> (digest: Digest)
    ensures
        digest@ == crate::message::sha1_of(data@),
{
    SHA1::hash(data)
}

} // verus!
