//! The digest of a file, taken piece by piece as it is read.

#[allow(unused_imports)]
use crate::outside::{blake3_hex, hashed};
use crate::outside::{finish_hasher, new_hasher, update_hasher};
use vstd::prelude::*;

verus! {

/// What has been read of a file, as far as its digest needs it.
#[derive(Debug)]
pub struct ContentDigest {
    hasher: blake3::Hasher,
}

impl View for ContentDigest {
    type V = Seq<u8>;

    /// The bytes that have been read.
    closed spec fn view(&self) -> Seq<u8> {
        hashed(self.hasher)
    }
}

impl ContentDigest {
    /// Nothing has been read.
    pub fn new() -> (r: ContentDigest)
        ensures
            r@ == Seq::<u8>::empty(),
    {
        ContentDigest { hasher: new_hasher() }
    }

    /// A piece has been read that follows those before it.
    pub fn update(&mut self, chunk: &[u8])
        ensures
            final(self)@ == old(self)@ + chunk@,
    {
        update_hasher(&mut self.hasher, chunk);
    }

    /// The digest of all that has been read, in hexadecimal digits.
    pub fn finish(&self) -> (r: String)
        ensures
            r@ == blake3_hex(self@),
            r@.len() == 64,
    {
        finish_hasher(&self.hasher)
    }
}

/// The digest of what has been read, if anything has been.
pub open spec fn digest_option(contents: Option<ContentDigest>) -> Option<Seq<char>> {
    match contents {
        Some(contents) => Some(blake3_hex(contents@)),
        None => None,
    }
}

} // verus!
