//! Hash builders that turn typed keys into 64-bit digests.
//!
//! Every filter is parametrized over a hash builder `H`. [`BuildHasherDefault`]
//! is the deterministic default; `std::hash::RandomState` works as a
//! per-instance salted alternative; [`NoHash`] marks filters whose callers
//! supply ready-made digests, and deliberately offers no hashing at all, so
//! that the typed-key methods cannot be reached through it.

use vstd::prelude::*;

use core::hash::BuildHasher;
use core::hash::Hash;
use core::hash::Hasher;
use std::collections::hash_map::DefaultHasher;

verus! {

/// The default hash builder: every hasher it hands out is a fresh
/// `DefaultHasher`, so the same key always yields the same digest within one
/// build of the standard library.
pub struct BuildHasherDefault;

impl Clone for BuildHasherDefault {
    fn clone(&self) -> (r: Self)
        ensures
            r == *self,
    {
        BuildHasherDefault
    }
}

impl Default for BuildHasherDefault {
    fn default() -> (r: Self)
        ensures
            r == BuildHasherDefault,
    {
        BuildHasherDefault
    }
}

impl BuildHasher for BuildHasherDefault {
    type Hasher = DefaultHasher;

    fn build_hasher(&self) -> (r: DefaultHasher)
        ensures
            r@ == Seq::<Seq<u8>>::empty(),
    {
        DefaultHasher::new()
    }
}

/// A serialized `BuildHasherDefault` carries no state.
impl From<BuildHasherDefault> for Vec<u8> {
    fn from(_hb: BuildHasherDefault) -> (r: Vec<u8>)
        ensures
            r@.len() == 0,
    {
        Vec::new()
    }
}

impl vstd::std_specs::convert::FromSpecImpl<BuildHasherDefault> for Vec<u8> {
    open spec fn obeys_from_spec() -> bool {
        false
    }

    open spec fn from_spec(t: BuildHasherDefault) -> Self {
        vstd::pervasive::arbitrary()
    }
}

impl From<Vec<u8>> for BuildHasherDefault {
    fn from(_bytes: Vec<u8>) -> (r: BuildHasherDefault) {
        BuildHasherDefault
    }
}

impl vstd::std_specs::convert::FromSpecImpl<Vec<u8>> for BuildHasherDefault {
    open spec fn obeys_from_spec() -> bool {
        true
    }

    open spec fn from_spec(t: Vec<u8>) -> Self {
        BuildHasherDefault
    }
}

/// A placeholder hash builder for filters that are fed pre-computed digests.
/// It implements no hashing capability on purpose: the typed-key methods of
/// the filters are simply not available with it.
pub struct NoHash;

impl Clone for NoHash {
    fn clone(&self) -> (r: Self)
        ensures
            r == *self,
    {
        NoHash
    }
}

impl Default for NoHash {
    fn default() -> (r: Self)
        ensures
            r == NoHash,
    {
        NoHash
    }
}

/// A serialized `NoHash` carries no state.
impl From<NoHash> for Vec<u8> {
    fn from(_hb: NoHash) -> (r: Vec<u8>)
        ensures
            r@.len() == 0,
    {
        Vec::new()
    }
}

impl vstd::std_specs::convert::FromSpecImpl<NoHash> for Vec<u8> {
    open spec fn obeys_from_spec() -> bool {
        false
    }

    open spec fn from_spec(t: NoHash) -> Self {
        vstd::pervasive::arbitrary()
    }
}

impl From<Vec<u8>> for NoHash {
    fn from(_bytes: Vec<u8>) -> (r: NoHash) {
        NoHash
    }
}

impl vstd::std_specs::convert::FromSpecImpl<Vec<u8>> for NoHash {
    open spec fn obeys_from_spec() -> bool {
        true
    }

    open spec fn from_spec(t: Vec<u8>) -> Self {
        NoHash
    }
}

/// Relies on `std::hash::BuildHasher` and `std::hash::Hash`: hashes `key`
/// through a fresh one-shot hasher from `hb` and returns the 64-bit digest.
/// Nothing is assumed of the digest: which value comes back depends on the
/// hash builder instance and on the key type's `Hash` implementation.
#[verifier::external_body]
pub(crate) fn key_digest<H: BuildHasher, K: Hash + ?Sized>(hb: &H, key: &K) -> u64 {
    let mut hasher = hb.build_hasher();
    key.hash(&mut hasher);
    hasher.finish()
}

/// Relies on `std::hash::BuildHasher::build_hasher`: hands out a fresh
/// one-shot hasher of the builder's hasher type.
#[verifier::external_body]
pub(crate) fn fresh_hasher<H: BuildHasher>(hb: &H) -> H::Hasher {
    hb.build_hasher()
}

} // verus!
