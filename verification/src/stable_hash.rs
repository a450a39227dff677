//! Stable hashing, as Cargo does it for fingerprints.
//!
//! A hash is a function of the bytes that were fed to the hasher. The hasher is
//! that of the crate `rustc-stable-hash`; what it was fed is known by the name
//! `fed`, and what comes out of it by the name `finish_value`.

use vstd::prelude::*;

verus! {

/// `rustc_stable_hash::StableSipHasher128`, a SipHash-1-3 with the key zero that
/// takes every integer in little-endian order and `usize` as 64 bits.
#[verifier::external_body]
pub struct StableHasher {
    inner: rustc_stable_hash::StableSipHasher128,
}

/// The bytes that a hasher was fed since it was made.
pub uninterp spec fn fed(h: StableHasher) -> Seq<u8>;

/// The 64-bit hash of the bytes that were fed.
pub uninterp spec fn finish_value(bytes: Seq<u8>) -> u64;

/// The bytes that the standard library's `Hash` feeds for a string.
pub uninterp spec fn str_bytes(s: Seq<char>) -> Seq<u8>;

/// The bytes that the standard library's `Hash` feeds for a path, on a machine
/// whose `usize` has the given number of bits.
pub uninterp spec fn path_bytes(p: Seq<char>, usize_bits: u32) -> Seq<u8>;

impl StableHasher {
    /// `StableSipHasher128::new`: a hasher that was fed nothing.
    #[verifier::external_body]
    pub(crate) fn new() -> (h: StableHasher)
        ensures
            fed(h) == Seq::<u8>::empty(),
    {
        StableHasher { inner: rustc_stable_hash::StableSipHasher128::new() }
    }

    /// `Hasher::write_u64` of `StableSipHasher128`: feeds the eight bytes of `x`,
    /// lowest first.
    #[verifier::external_body]
    pub(crate) fn write_u64(&mut self, x: u64)
        ensures
            fed(*final(self)) == fed(*old(self)) + vstd::bytes::spec_u64_to_le_bytes(x),
    {
        std::hash::Hasher::write_u64(&mut self.inner, x)
    }

    /// `Hasher::write_u8` of `StableSipHasher128`: feeds one byte.
    #[verifier::external_body]
    pub(crate) fn write_u8(&mut self, x: u8)
        ensures
            fed(*final(self)) == fed(*old(self)).push(x),
    {
        std::hash::Hasher::write_u8(&mut self.inner, x)
    }

    /// `Hasher::write_usize` of `StableSipHasher128`: feeds `x` as 64 bits, lowest
    /// byte first.
    #[verifier::external_body]
    pub(crate) fn write_usize(&mut self, x: usize)
        ensures
            fed(*final(self)) == fed(*old(self)) + vstd::bytes::spec_u64_to_le_bytes(x as u64),
    {
        std::hash::Hasher::write_usize(&mut self.inner, x)
    }

    /// `Hasher::write_isize` of `StableSipHasher128`, on numbers from 0 to 254: they
    /// are fed as one byte.
    #[verifier::external_body]
    pub(crate) fn write_isize(&mut self, x: isize)
        requires
            0 <= x < 0xff,
        ensures
            fed(*final(self)) == fed(*old(self)).push(x as u8),
    {
        std::hash::Hasher::write_isize(&mut self.inner, x)
    }

    /// `<str as std::hash::Hash>::hash` into a `StableSipHasher128`: what is fed is
    /// determined by the characters of the string.
    #[verifier::external_body]
    pub(crate) fn hash_str(&mut self, s: &str)
        ensures
            fed(*final(self)) == fed(*old(self)) + str_bytes(s@),
    {
        std::hash::Hash::hash(s, &mut self.inner)
    }

    /// `<std::path::Path as std::hash::Hash>::hash` into a `StableSipHasher128`: what
    /// is fed is determined by the text of the path, which is read as a Unix path,
    /// and by the width of `usize`.
    #[verifier::external_body]
    pub(crate) fn hash_path(&mut self, p: &str)
        ensures
            fed(*final(self)) == fed(*old(self)) + path_bytes(p@, usize::BITS),
    {
        std::hash::Hash::hash(std::path::Path::new(p), &mut self.inner)
    }

    /// `Hasher::finish` of `StableSipHasher128`: the hash is determined by the bytes
    /// that were fed, however they were split into writes.
    #[verifier::external_body]
    pub(crate) fn finish(&self) -> (r: u64)
        ensures
            r == finish_value(fed(*self)),
    {
        std::hash::Hasher::finish(&self.inner)
    }
}

} // verus!
