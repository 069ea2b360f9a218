//! The single-type xor8 filter that predates the builder/filter split.
//!
//! It accumulates keys and carries the built fingerprint array in one value.
//! Newer code should prefer [`crate::xor8::Xor8Builder`] and
//! [`crate::xor8::Xor8`]; this type is kept for callers of the older API and
//! shares the peeling construction and the byte format with them.

use vstd::prelude::*;

use core::hash::BuildHasher;
use core::hash::Hash;

use crate::codec;
use crate::hasher::fresh_hasher;
use crate::hasher::key_digest;
use crate::hasher::BuildHasherDefault;
use crate::sorting;
use crate::xor8::builder::build_xor8_parts;
use crate::xor8::filter::spec_xor8_contains;
use crate::xor8::filter::xor8_probe;

verus! {

/// Type Xor8 is a probabilistic data structure that tests membership of an
/// element in a set, with a false-positive rate of roughly one in 256 and no
/// false negatives. Keys accumulate in the value itself; `build` turns them
/// into the immutable fingerprint array that queries read.
#[derive(Clone, Debug)]
pub struct Xor8<H = BuildHasherDefault> {
    /// The intake buffer: digests accumulated since construction, in
    /// insertion order with duplicates kept; dropped by `build`.
    pub keys: Option<Vec<u64>>,
    pub hash_builder: H,
    pub seed: u64,
    pub block_length: u32,
    pub finger_prints: Vec<u8>,
}

impl<H> Xor8<H> {
    /// The filter's geometry is consistent: a positive block length, three
    /// blocks within the 32-bit indexing range, and a fingerprint slot for
    /// every position of the three blocks.
    pub open spec fn wf(&self) -> bool {
        &&& self.block_length >= 1
        &&& 3 * (self.block_length as int) <= 0xffff_ffff
        &&& self.finger_prints@.len() == 3 * self.block_length
    }

    /// Whether this filter answers positively for `digest`.
    pub open spec fn spec_contains(&self, digest: u64) -> bool {
        spec_xor8_contains(self.seed, self.block_length, self.finger_prints@, digest)
    }
}

impl<H: Default> Default for Xor8<H> {
    fn default() -> (r: Self)
        ensures
            r.keys matches Some(ks) && ks@.len() == 0,
            r.seed == 0 && r.block_length == 0 && r.finger_prints@.len() == 0,
    {
        Xor8 {
            keys: Some(Vec::new()),
            hash_builder: H::default(),
            seed: 0,
            block_length: 0,
            finger_prints: Vec::new(),
        }
    }
}

impl<H> PartialEq for Xor8<H> {
    /// Two filters are equal when seed, block length and fingerprints agree.
    fn eq(&self, other: &Self) -> (r: bool) {
        self.seed == other.seed && self.block_length == other.block_length && eq_fingerprints(
            &self.finger_prints,
            &other.finger_prints,
        )
    }
}

impl<H> vstd::std_specs::cmp::PartialEqSpecImpl for Xor8<H> {
    open spec fn obeys_eq_spec() -> bool {
        true
    }

    open spec fn eq_spec(&self, other: &Self) -> bool {
        &&& self.seed == other.seed
        &&& self.block_length == other.block_length
        &&& self.finger_prints@ == other.finger_prints@
    }
}

fn eq_fingerprints(a: &Vec<u8>, b: &Vec<u8>) -> (r: bool)
    ensures
        r == (a@ == b@),
{
    if a.len() != b.len() {
        proof {
            assert(a@ != b@);
        }
        return false;
    }
    let mut i: usize = 0;
    while i < a.len()
        invariant
            i <= a@.len(),
            a@.len() == b@.len(),
            forall|p: int| 0 <= p < i ==> a@[p] == b@[p],
        decreases a@.len() - i,
    {
        if a[i] != b[i] {
            proof {
                assert(a@ != b@);
            }
            return false;
        }
        i = i + 1;
    }
    proof {
        assert(a@ =~= b@);
    }
    true
}

impl<H> Xor8<H> {
    /// New filter initialized with the default hash builder.
    pub fn new() -> (r: Self) where H: Default
        ensures
            r.keys matches Some(ks) && ks@.len() == 0,
            r.seed == 0 && r.block_length == 0 && r.finger_prints@.len() == 0,
    {
        Self::default()
    }

    /// New filter initialized with the supplied hash builder.
    pub fn with_hasher(hash_builder: H) -> (r: Self)
        ensures
            r.keys matches Some(ks) && ks@.len() == 0,
            r.hash_builder == hash_builder,
            r.seed == 0 && r.block_length == 0 && r.finger_prints@.len() == 0,
    {
        Xor8 { keys: Some(Vec::new()), hash_builder, seed: 0, block_length: 0, finger_prints: Vec::new() }
    }

    /// Accumulates pre-computed 64-bit digests.
    pub fn populate_keys(&mut self, digests: &[u64])
        requires
            old(self).keys is Some,
        ensures
            final(self).keys matches Some(ks) && old(self).keys matches Some(old_ks) && ks@
                == old_ks@ + digests@,
            final(self).seed == old(self).seed,
            final(self).block_length == old(self).block_length,
            final(self).finger_prints == old(self).finger_prints,
    {
        let mut i: usize = 0;
        while i < digests.len()
            invariant
                i <= digests@.len(),
                self.keys matches Some(ks) && old(self).keys matches Some(old_ks) && ks@ == old_ks@
                    + digests@.subrange(0, i as int),
                self.hash_builder == old(self).hash_builder,
                self.seed == old(self).seed,
                self.block_length == old(self).block_length,
                self.finger_prints == old(self).finger_prints,
            decreases digests@.len() - i,
        {
            match &mut self.keys {
                Some(ks) => {
                    ks.push(digests[i]);
                    proof {
                        let old_ks = old(self).keys->Some_0;
                        assert(old_ks@ + digests@.subrange(0, i + 1) =~= (old_ks@
                            + digests@.subrange(0, i as int)).push(digests@[i as int]));
                    }
                },
                None => {
                    proof {
                        assert(false);
                    }
                },
            }
            i = i + 1;
        }
        proof {
            assert(digests@.subrange(0, digests@.len() as int) =~= digests@);
        }
    }

    /// Builds the fingerprint array for the keys accumulated so far and
    /// drops the intake buffer. Duplicate digests are collapsed before
    /// peeling; every accumulated digest is contained in the built filter.
    /// Calling `build` again without accumulating is a no-op.
    pub fn build(&mut self) -> (r: Result<(), crate::Error>)
        ensures
            match r {
                Ok(()) => old(self).keys matches Some(ks) ==> {
                    &&& final(self).wf()
                    &&& final(self).keys is None
                    &&& forall|i: int|
                        0 <= i < ks@.len() ==> final(self).spec_contains(#[trigger] ks@[i])
                    &&& exists|a: nat|
                        a < 100 && final(self).seed == #[trigger] crate::mix::spec_seed_chain(1, a)
                },
                Err(e) => e is Fatal,
            },
            old(self).keys matches Some(ks) && (ks@.len() <= 1 || ks@.to_set().len() == 1) ==> r
                is Ok,
            old(self).keys is None ==> r is Ok && *final(self) == *old(self),
    {
        let keys = self.keys.take();
        match keys {
            Some(ks) => {
                let sorted_keys = sorting::sort_digests(ks);
                let unique = sorting::dedup_sorted(&sorted_keys);
                proof {
                    assert forall|x: u64|
                        old(self).keys->Some_0@.contains(x) <==> sorted_keys@.contains(x) by {
                        old(self).keys->Some_0@.to_multiset_ensures();
                        sorted_keys@.to_multiset_ensures();
                        if old(self).keys->Some_0@.contains(x) {
                            assert(old(self).keys->Some_0@.to_multiset().count(x) > 0);
                        }
                        if sorted_keys@.contains(x) {
                            assert(sorted_keys@.to_multiset().count(x) > 0);
                        }
                    }
                    sorting::lemma_distinct_count(unique@, old(self).keys->Some_0@);
                }
                let res = self.build_keys_internal(unique.as_slice());
                proof {
                    if res is Ok {
                        let ks0 = old(self).keys->Some_0@;
                        assert(forall|i: int|
                            0 <= i < ks0.len() ==> self.spec_contains(#[trigger] ks0[i])) by {
                            assert(forall|i: int| 0 <= i < ks0.len() ==> unique@.contains(ks0[i]));
                            assert(forall|x: u64|
                                #[trigger] unique@.contains(x) ==> self.spec_contains(x)) by {
                                assert(forall|j: int|
                                    0 <= j < unique@.len() ==> self.spec_contains(
                                        #[trigger] unique@[j],
                                    ));
                            }
                        }
                    }
                }
                res
            },
            None => Ok(()),
        }
    }

    /// Builds the fingerprint array for a slice of pre-computed digests,
    /// ignoring whatever was accumulated before. It is up to the caller to
    /// ensure the digests are unique: a duplicate makes every peeling attempt
    /// fail and the build return its fatal error.
    pub fn build_keys(&mut self, digests: &[u64]) -> (r: Result<(), crate::Error>)
        ensures
            match r {
                Ok(()) => {
                    &&& final(self).wf()
                    &&& forall|i: int|
                        0 <= i < digests@.len() ==> final(self).spec_contains(#[trigger] digests@[i])
                    &&& digests@.len() > 100000 ==> 8 * final(self).finger_prints@.len() <= 10
                        * digests@.len()
                    &&& exists|a: nat|
                        a < 100 && final(self).seed == #[trigger] crate::mix::spec_seed_chain(1, a)
                },
                Err(e) => e is Fatal && *final(self) == *old(self),
            },
            digests@.len() <= 1 ==> r is Ok,
    {
        proof {
            if digests@.len() > 100000 {
                crate::geometry::lemma_xor8_bits_per_key(digests@.len() as int);
            }
        }
        self.build_keys_internal(digests)
    }

    fn build_keys_internal(&mut self, digests: &[u64]) -> (r: Result<(), crate::Error>)
        ensures
            match r {
                Ok(()) => {
                    &&& final(self).wf()
                    &&& final(self).keys == old(self).keys
                    &&& final(self).hash_builder == old(self).hash_builder
                    &&& final(self).finger_prints@.len() == crate::geometry::spec_xor8_capacity(
                        digests@.len() as int,
                    )
                    &&& forall|i: int|
                        0 <= i < digests@.len() ==> final(self).spec_contains(#[trigger] digests@[i])
                    &&& exists|a: nat|
                        a < 100 && final(self).seed == #[trigger] crate::mix::spec_seed_chain(1, a)
                },
                Err(e) => e is Fatal && *final(self) == *old(self),
            },
            digests@.len() <= 1 ==> r is Ok,
    {
        match build_xor8_parts(digests) {
            Ok((seed, block_length, fp)) => {
                self.seed = seed;
                self.block_length = block_length;
                self.finger_prints = fp;
                Ok(())
            },
            Err(e) => Err(e),
        }
    }

    /// Tells whether the key, in pre-computed digest form, is likely part of
    /// the set, with a false-positive rate.
    pub fn contains_key(&self, digest: u64) -> (r: bool)
        requires
            self.wf(),
        ensures
            r == self.spec_contains(digest),
    {
        xor8_probe(self.seed, self.block_length, &self.finger_prints, digest)
    }
}

impl<H: BuildHasher> Xor8<H> {
    /// Accumulates the digest of a single typed key. The intake buffer must
    /// still be present: it is dropped by `build`.
    pub fn insert<K: Hash + ?Sized>(&mut self, key: &K)
        requires
            old(self).keys is Some,
        ensures
            final(self).keys matches Some(ks) && old(self).keys matches Some(old_ks) && exists|
                d: u64,
            | ks@ == old_ks@.push(d),
            final(self).seed == old(self).seed,
            final(self).block_length == old(self).block_length,
            final(self).finger_prints == old(self).finger_prints,
    {
        let digest = key_digest(&self.hash_builder, key);
        match &mut self.keys {
            Some(ks) => {
                ks.push(digest);
            },
            None => {
                proof {
                    assert(false);
                }
            },
        }
        proof {
            assert(self.keys->Some_0@ == old(self).keys->Some_0@.push(digest));
        }
    }

    /// Accumulates the digests of a collection of typed keys.
    pub fn populate<K: Hash>(&mut self, keys: &[K])
        requires
            old(self).keys is Some,
        ensures
            final(self).keys matches Some(ks) && old(self).keys matches Some(old_ks) && ks@.len()
                == old_ks@.len() + keys@.len(),
            final(self).seed == old(self).seed,
            final(self).block_length == old(self).block_length,
            final(self).finger_prints == old(self).finger_prints,
    {
        let mut i: usize = 0;
        while i < keys.len()
            invariant
                i <= keys@.len(),
                self.keys matches Some(ks) && old(self).keys matches Some(old_ks) && ks@.len()
                    == old_ks@.len() + i,
                self.hash_builder == old(self).hash_builder,
                self.seed == old(self).seed,
                self.block_length == old(self).block_length,
                self.finger_prints == old(self).finger_prints,
            decreases keys@.len() - i,
        {
            let digest = key_digest(&self.hash_builder, &keys[i]);
            match &mut self.keys {
                Some(ks) => {
                    ks.push(digest);
                },
                None => {
                    proof {
                        assert(false);
                    }
                },
            }
            i = i + 1;
        }
    }

    /// Tells whether the key is likely part of the set, with a
    /// false-positive rate.
    pub fn contains<K: Hash + ?Sized>(&self, key: &K) -> bool
        requires
            self.wf(),
    {
        let digest = key_digest(&self.hash_builder, key);
        self.contains_key(digest)
    }

    /// A fresh one-shot hasher from the stored hash builder.
    pub fn get_hasher(&self) -> H::Hasher {
        fresh_hasher(&self.hash_builder)
    }
}

impl<H> Xor8<H> where H: Into<Vec<u8>> + From<Vec<u8>> {
    /// The filter serialized in the version-2 byte format, identical to the
    /// byte format of [`crate::xor8::Xor8`].
    pub fn to_bytes(&self) -> (r: Vec<u8>) where H: Clone
        ensures
            exists|hb: Seq<u8>|
                r@ == #[trigger] codec::spec_xor8_encoding(
                    self.seed,
                    self.block_length,
                    self.finger_prints@,
                    hb,
                ),
    {
        let hb_binary: Vec<u8> = self.hash_builder.clone().into();
        codec::encode_xor8(self.seed, self.block_length, &self.finger_prints, &hb_binary)
    }

    /// Reads a filter back from its byte image, accepting the version-2 and
    /// the legacy version-1 formats, with the same acceptance condition as
    /// [`crate::xor8::Xor8::from_bytes`]. The intake buffer of the result is
    /// absent: a deserialized filter answers queries but takes no more keys.
    pub fn from_bytes(buf: Vec<u8>) -> (r: Result<Self, crate::Error>) where H: Default
        ensures
            match r {
                Ok(f) => {
                    &&& codec::spec_xor8_decoding(buf@) matches Option::Some(d)
                    &&& f.seed == d.0
                    &&& f.block_length == d.1
                    &&& f.finger_prints@ == d.2
                    &&& f.keys is None
                },
                Err(e) => codec::spec_xor8_decoding(buf@) is None && e is InvalidData,
            },
    {
        match codec::decode_xor8(&buf) {
            Ok((seed, block_length, fp, hb)) => {
                let hash_builder: H = match hb {
                    Some(bytes) => H::from(bytes),
                    None => H::default(),
                };
                Ok(Xor8 { keys: None, hash_builder, seed, block_length, finger_prints: fp })
            },
            Err(sig_fault) => {
                if sig_fault {
                    Err(
                        crate::Error::InvalidData(
                            "xor8.from_bytes".to_string(),
                            "File signature incorrect".to_string(),
                        ),
                    )
                } else {
                    Err(
                        crate::Error::InvalidData(
                            "xor8.from_bytes".to_string(),
                            "invalid byte slice".to_string(),
                        ),
                    )
                }
            },
        }
    }
}

} // verus!
