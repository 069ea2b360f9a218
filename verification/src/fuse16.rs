//! The binary-fuse filter with 16-bit fingerprints.

use vstd::prelude::*;

use core::hash::BuildHasher;
use core::hash::Hash;
use std::sync::Arc;

use vstd::arithmetic::power2::pow2;

use crate::fuse_core;
use crate::fuse_core::spec_fuse_hash;
use crate::fuse_core::FUSE_RNG_START;
use crate::fuse_core::XOR_MAX_ITERATIONS;
use crate::hasher::fresh_hasher;
use crate::hasher::key_digest;
use crate::hasher::BuildHasherDefault;
use crate::mix;
use crate::mix::spec_mix;
use crate::sorting;

verus! {

/// The 16-bit fingerprint a mixed hash leaves in the array, before
/// truncation: the hash folded onto its low half.
pub fn binary_fuse16_fingerprint(hash: u64) -> (r: u64)
    ensures
        r == mix::spec_fingerprint(hash),
{
    hash ^ (hash >> 32)
}

/// Whether a binary-fuse array of 16-bit fingerprints, built under `seed`
/// with the given segment geometry, answers positively for `digest`.
pub open spec fn spec_fuse16_contains(
    seed: u64,
    segment_length: u32,
    segment_count_length: u32,
    fp: Seq<u16>,
    digest: u64,
) -> bool {
    let h = spec_mix(digest, seed);
    let f = (mix::spec_fingerprint(h) % 0x1_0000) as u16;
    f == fp[spec_fuse_hash(0, h, segment_length, segment_count_length) as int] ^ fp[spec_fuse_hash(
        1,
        h,
        segment_length,
        segment_count_length,
    ) as int] ^ fp[spec_fuse_hash(2, h, segment_length, segment_count_length) as int]
}

/// Type Fuse16 is a probabilistic data structure that tests membership of an
/// element in a set, with a false-positive rate of roughly one in 65536 and
/// no false negatives.
///
/// Fuse16 is parametrized over a hash builder `H`, such as
/// `std::hash::RandomState` or the deterministic [`BuildHasherDefault`],
/// which is the default.
#[derive(Debug)]
pub struct Fuse16<H = BuildHasherDefault> {
    /// The intake buffer: digests accumulated since construction, in
    /// insertion order with duplicates kept; dropped by `build`.
    pub keys: Option<Vec<u64>>,
    pub hash_builder: H,
    pub seed: u64,
    pub num_keys: Option<usize>,
    pub segment_length: u32,
    pub segment_length_mask: u32,
    pub segment_count: u32,
    pub segment_count_length: u32,
    pub finger_prints: Arc<Vec<u16>>,
}

impl<H: Clone> Clone for Fuse16<H> {
    /// A clone shares the immutable fingerprint array and starts with a
    /// fresh, empty intake buffer.
    fn clone(&self) -> Self {
        Fuse16 {
            keys: Some(Vec::new()),
            hash_builder: self.hash_builder.clone(),
            seed: self.seed,
            num_keys: self.num_keys,
            segment_length: self.segment_length,
            segment_length_mask: self.segment_length_mask,
            segment_count: self.segment_count,
            segment_count_length: self.segment_count_length,
            finger_prints: self.finger_prints.clone(),
        }
    }
}

impl<H> Fuse16<H> {
    /// The filter's geometry is consistent: the segment length is a power of
    /// two in its ladder range with its mask beside it, the segment-count
    /// window is the product of count and length, and the fingerprint array
    /// covers the window plus two segments, within 32-bit indexing.
    pub open spec fn wf(&self) -> bool {
        &&& 4 <= self.segment_length <= 262144
        &&& (exists|k: nat| 2 <= k <= 18 && self.segment_length == #[trigger] pow2(k))
        &&& self.segment_length_mask == self.segment_length - 1
        &&& self.segment_count >= 1
        &&& self.segment_count_length as int == (self.segment_count as int) * (
        self.segment_length as int)
        &&& self.finger_prints@.len() == self.segment_count_length as int + 2 * (
        self.segment_length as int)
        &&& self.finger_prints@.len() <= 0xffff_ffff
    }

    /// Whether this filter answers positively for `digest`.
    pub open spec fn spec_contains(&self, digest: u64) -> bool {
        spec_fuse16_contains(
            self.seed,
            self.segment_length,
            self.segment_count_length,
            self.finger_prints@,
            digest,
        )
    }

    /// New Fuse16 instance sized for `size` keys, with the supplied hasher.
    pub fn with_hasher(size: u32, hash_builder: H) -> (r: Fuse16<H>)
        ensures
            r.wf(),
            r.keys matches Some(ks) && ks@.len() == 0,
            r.seed == 0,
            r.hash_builder == hash_builder,
            r.num_keys is None,
            r.segment_length == crate::geometry::spec_fuse_segment_length(size),
            crate::geometry::spec_fuse_capacity(size as int) + 2 * (
            crate::geometry::spec_fuse_segment_length(size) as int) <= 0xffff_ffff ==> {
                &&& r.segment_count as int == fuse_core::spec_fuse_segment_count(size)
                &&& r.finger_prints@.len() == fuse_core::spec_fuse_array_length(size)
            },
            forall|i: int| 0 <= i < r.finger_prints@.len() ==> r.finger_prints@[i] == 0,
            size > 100000 ==> 16 * r.finger_prints@.len() <= 20 * (size as int),
    {
        let g = fuse_core::fuse_geometry(size);
        let fp = make_zero_fp16(g.array_length as usize);
        Fuse16 {
            keys: Some(Vec::new()),
            hash_builder,
            seed: 0,
            num_keys: None,
            segment_length: g.segment_length,
            segment_length_mask: g.segment_length_mask,
            segment_count: g.segment_count,
            segment_count_length: g.segment_count_length,
            finger_prints: Arc::new(fp),
        }
    }

    /// New Fuse16 instance sized for `size` keys, with the default hasher.
    pub fn new(size: u32) -> (r: Fuse16<H>) where H: Default
        ensures
            r.wf(),
            r.keys matches Some(ks) && ks@.len() == 0,
            r.seed == 0,
            r.num_keys is None,
            r.segment_length == crate::geometry::spec_fuse_segment_length(size),
            crate::geometry::spec_fuse_capacity(size as int) + 2 * (
            crate::geometry::spec_fuse_segment_length(size) as int) <= 0xffff_ffff ==> {
                &&& r.segment_count as int == fuse_core::spec_fuse_segment_count(size)
                &&& r.finger_prints@.len() == fuse_core::spec_fuse_array_length(size)
            },
            forall|i: int| 0 <= i < r.finger_prints@.len() ==> r.finger_prints@[i] == 0,
            size > 100000 ==> 16 * r.finger_prints@.len() <= 20 * (size as int),
    {
        Self::with_hasher(size, H::default())
    }

    /// The in-memory size of the filter: the struct itself plus the heap
    /// bytes of the fingerprint array, two per fingerprint.
    pub fn size_of(&self) -> (r: usize)
        ensures
            vstd::layout::size_of::<Fuse16<H>>() + 2 * self.finger_prints@.len() <= usize::MAX
                ==> r as int == vstd::layout::size_of::<Fuse16<H>>() + 2
                * self.finger_prints@.len(),
    {
        let base: usize = core::mem::size_of::<Fuse16<H>>();
        let bytes: usize = match self.finger_prints.len().checked_mul(2) {
            Some(b) => b,
            None => {
                return usize::MAX;
            },
        };
        match base.checked_add(bytes) {
            Some(total) => total,
            None => usize::MAX,
        }
    }

    /// Return the number of keys built into the bitmap index.
    pub fn len(&self) -> (r: Option<usize>)
        ensures
            r == self.num_keys,
    {
        self.num_keys
    }

    /// Tells whether the key, in pre-computed digest form, is likely part of
    /// the set, with a false-positive rate.
    pub fn contains_key(&self, digest: u64) -> (r: bool)
        requires
            self.wf(),
        ensures
            r == self.spec_contains(digest),
    {
        proof {
            lemma_fuse16_wf_derived(self);
        }
        fuse16_probe(
            self.seed,
            self.segment_length,
            self.segment_count_length,
            &self.finger_prints,
            digest,
        )
    }

    /// Accumulates pre-computed 64-bit digests.
    pub fn populate_keys(&mut self, digests: &[u64])
        requires
            old(self).keys is Some,
        ensures
            final(self).keys matches Some(ks) && old(self).keys matches Some(old_ks) && ks@
                == old_ks@ + digests@,
            final(self).num_keys == (match old(self).num_keys {
                Some(x) => Some(
                    vstd::wrapping::usize_specs::wrapping_add(x, digests@.len() as usize),
                ),
                None => None::<usize>,
            }),
            final(self).seed == old(self).seed,
            final(self).segment_length == old(self).segment_length,
            final(self).segment_length_mask == old(self).segment_length_mask,
            final(self).segment_count == old(self).segment_count,
            final(self).segment_count_length == old(self).segment_count_length,
            final(self).finger_prints@ == old(self).finger_prints@,
    {
        match &mut self.num_keys {
            Some(x) => {
                *x = x.wrapping_add(digests.len());
            },
            None => {},
        }
        let mut i: usize = 0;
        while i < digests.len()
            invariant
                i <= digests@.len(),
                self.keys matches Some(ks) && old(self).keys matches Some(old_ks) && ks@ == old_ks@
                    + digests@.subrange(0, i as int),
                self.num_keys == (match old(self).num_keys {
                    Some(x) => Some(
                        vstd::wrapping::usize_specs::wrapping_add(x, digests@.len() as usize),
                    ),
                    None => None::<usize>,
                }),
                self.hash_builder == old(self).hash_builder,
                self.seed == old(self).seed,
                self.segment_length == old(self).segment_length,
                self.segment_length_mask == old(self).segment_length_mask,
                self.segment_count == old(self).segment_count,
                self.segment_count_length == old(self).segment_count_length,
                self.finger_prints@ == old(self).finger_prints@,
            decreases digests@.len() - i,
        {
            match &mut self.keys {
                Some(ks) => {
                    ks.push(digests[i]);
                    proof {
                        let old_ks = old(self).keys->Some_0;
                        assert(old_ks@ + digests@.subrange(0, i + 1) =~= (old_ks@
                            + digests@.subrange(0, i as int)).push(digests@[i as int]));
                    }
                },
                None => {
                    proof {
                        assert(false);
                    }
                },
            }
            i = i + 1;
        }
        proof {
            assert(digests@.subrange(0, digests@.len() as int) =~= digests@);
        }
    }

    /// Builds the fingerprint array for the keys accumulated so far and
    /// drops the intake buffer; every accumulated digest is contained in the
    /// built filter. Calling `build` again without accumulating is a no-op.
    pub fn build(&mut self) -> (r: Result<(), crate::Error>)
        requires
            old(self).wf(),
        ensures
            match r {
                Ok(()) => old(self).keys matches Some(ks) ==> {
                    &&& final(self).wf()
                    &&& final(self).keys is None
                    &&& final(self).num_keys matches Some(n) && n as nat == ks@.to_set().len()
                    &&& forall|i: int|
                        0 <= i < ks@.len() ==> final(self).spec_contains(#[trigger] ks@[i])
                    &&& exists|a: nat|
                        a < 100 && final(self).seed == #[trigger] mix::spec_seed_chain(
                            FUSE_RNG_START,
                            a,
                        )
                },
                Err(e) => {
                    &&& e is Fatal
                    &&& final(self).keys is None
                    &&& final(self).seed == old(self).seed
                    &&& final(self).num_keys == old(self).num_keys
                    &&& final(self).finger_prints@ == old(self).finger_prints@
                    &&& final(self).segment_length == old(self).segment_length
                    &&& final(self).segment_length_mask == old(self).segment_length_mask
                    &&& final(self).segment_count == old(self).segment_count
                    &&& final(self).segment_count_length == old(self).segment_count_length
                },
            },
            old(self).keys matches Some(ks) && ks@.len() <= 1 ==> r is Ok,
            old(self).keys is None ==> r is Ok && *final(self) == *old(self),
    {
        let keys = self.keys.take();
        match keys {
            Some(ks) => {
                proof {
                    if ks@.len() == 1 {
                        assert(ks@.no_duplicates());
                        ks@.unique_seq_to_set();
                    }
                }
                self.build_keys(ks.as_slice())
            },
            None => Ok(()),
        }
    }

    /// Builds the fingerprint array for a slice of pre-computed digests,
    /// ignoring whatever was accumulated before. Duplicate digests are
    /// collapsed before peeling; the recorded key count is the number of
    /// distinct digests, and every digest of the slice is contained in the
    /// result.
    pub fn build_keys(&mut self, digests: &[u64]) -> (r: Result<(), crate::Error>)
        requires
            old(self).wf(),
        ensures
            match r {
                Ok(()) => {
                    &&& final(self).wf()
                    &&& final(self).keys == old(self).keys
                    &&& final(self).num_keys matches Some(n) && n as nat == digests@.to_set().len()
                    &&& final(self).segment_length == old(self).segment_length
                    &&& final(self).segment_count_length == old(self).segment_count_length
                    &&& forall|i: int|
                        0 <= i < digests@.len() ==> final(self).spec_contains(#[trigger] digests@[i])
                    &&& exists|a: nat|
                        a < 100 && final(self).seed == #[trigger] mix::spec_seed_chain(
                            FUSE_RNG_START,
                            a,
                        )
                },
                Err(e) => e is Fatal && *final(self) == *old(self),
            },
            digests@.len() == 0 ==> r is Ok,
            digests@.len() == 1 ==> r is Ok,
            digests@.len() >= 1 && digests@.to_set().len() == 1 ==> r is Ok,
    {
        proof {
            if digests@.len() == 1 {
                assert(digests@.no_duplicates());
                digests@.unique_seq_to_set();
            }
        }
        let sorted_digests = sorting::sort_digests(copy_digests16(digests));
        let unique = sorting::dedup_sorted(&sorted_digests);
        proof {
            assert forall|x: u64| unique@.contains(x) <==> digests@.contains(x) by {
                digests@.to_multiset_ensures();
                sorted_digests@.to_multiset_ensures();
                if unique@.contains(x) {
                    assert(sorted_digests@.to_multiset().count(x) > 0);
                }
                if digests@.contains(x) {
                    assert(digests@.to_multiset().count(x) > 0);
                }
            }
            sorting::lemma_distinct_count(unique@, digests@);
        }
        if unique.len() >= 0xffff_ffff {
            return Err(
                crate::Error::Fatal(
                    "fuse16.build_keys".to_string(),
                    "Too many keys for a fuse filter".to_string(),
                ),
            );
        }
        let mut rng_counter: u64 = FUSE_RNG_START;
        proof {
            assert(rng_counter == mix::spec_splitmix64_state(FUSE_RNG_START, 0));
        }
        let arr_len: u32 = self.finger_prints.len() as u32;
        proof {
            lemma_fuse16_wf_derived(self);
        }
        let mut attempts: usize = 0;
        while attempts < XOR_MAX_ITERATIONS
            invariant
                self.wf(),
                *self == *old(self),
                unique@.len() < 0xffff_ffff,
                unique@.len() as nat == digests@.to_set().len(),
                forall|x: u64| unique@.contains(x) <==> digests@.contains(x),
                digests@.len() == 0 ==> unique@.len() == 0 && attempts == 0,
                digests@.len() >= 1 && digests@.to_set().len() == 1 ==> attempts == 0,
                arr_len == self.finger_prints@.len(),
                attempts <= XOR_MAX_ITERATIONS,
                rng_counter == mix::spec_splitmix64_state(FUSE_RNG_START, attempts as nat),
            decreases XOR_MAX_ITERATIONS - attempts,
        {
            attempts = attempts + 1;
            let seed = mix::splitmix64(&mut rng_counter);
            proof {
                assert(mix::spec_splitmix64_state(FUSE_RNG_START, attempts as nat)
                    == mix::spec_splitmix64_next(
                    mix::spec_splitmix64_state(FUSE_RNG_START, (attempts - 1) as nat),
                ));
                assert(seed == mix::spec_seed_chain(FUSE_RNG_START, (attempts - 1) as nat));
            }
            match fuse_core::fuse_peel_once(
                unique.as_slice(),
                seed,
                self.segment_length,
                self.segment_count,
                self.segment_count_length,
                arr_len,
            ) {
                Some(peel) => {
                    proof {
                        lemma_fuse16_wf_derived(self);
                    }
                    let mut fp: Vec<u16> = copy_u16s(&self.finger_prints);
                    let ghost fp_pre = fp@;
                    fuse16_backfill(
                        &peel.stack_hash,
                        &peel.stack_found,
                        self.segment_length,
                        self.segment_count_length,
                        &mut fp,
                    );
                    proof {
                        if digests@.len() >= 1 && digests@.to_set().len() == 1 {
                            lemma_fuse16_single_key_contained(
                                digests@,
                                unique@,
                                fp_pre,
                                fp@,
                                peel.stack_hash@[0],
                                seed,
                                self.segment_length,
                                self.segment_count,
                                self.segment_count_length,
                                arr_len,
                            );
                        }
                    }
                    if fuse16_all_contained(
                        digests,
                        seed,
                        self.segment_length,
                        self.segment_count_length,
                        &fp,
                    ) {
                        self.seed = seed;
                        self.num_keys = Some(unique.len());
                        self.finger_prints = Arc::new(fp);
                        return Ok(());
                    }
                },
                None => {},
            }
        }
        Err(
            crate::Error::Fatal(
                "fuse16.build_keys".to_string(),
                "Too many iterations. Are all your keys unique?".to_string(),
            ),
        )
    }
}

impl<H: BuildHasher> Fuse16<H> {
    /// Accumulates the digest of a single typed key. The intake buffer must
    /// still be present: it is dropped by `build`.
    pub fn insert<K: Hash + ?Sized>(&mut self, key: &K)
        requires
            old(self).keys is Some,
        ensures
            final(self).keys matches Some(ks) && old(self).keys matches Some(old_ks) && exists|
                d: u64,
            | ks@ == old_ks@.push(d),
            final(self).num_keys == (match old(self).num_keys {
                Some(x) => Some(vstd::wrapping::usize_specs::wrapping_add(x, 1)),
                None => None::<usize>,
            }),
            final(self).seed == old(self).seed,
            final(self).segment_length == old(self).segment_length,
            final(self).segment_length_mask == old(self).segment_length_mask,
            final(self).segment_count == old(self).segment_count,
            final(self).segment_count_length == old(self).segment_count_length,
            final(self).finger_prints@ == old(self).finger_prints@,
    {
        let digest = key_digest(&self.hash_builder, key);
        match &mut self.num_keys {
            Some(x) => {
                *x = x.wrapping_add(1);
            },
            None => {},
        }
        match &mut self.keys {
            Some(ks) => {
                ks.push(digest);
            },
            None => {
                proof {
                    assert(false);
                }
            },
        }
        proof {
            assert(self.keys->Some_0@ == old(self).keys->Some_0@.push(digest));
        }
    }

    /// Accumulates the digests of a collection of typed keys.
    pub fn populate<K: Hash>(&mut self, keys: &[K])
        requires
            old(self).keys is Some,
        ensures
            final(self).keys matches Some(ks) && old(self).keys matches Some(old_ks) && ks@.len()
                == old_ks@.len() + keys@.len(),
            final(self).num_keys == (match old(self).num_keys {
                Some(x) => Some(vstd::wrapping::usize_specs::wrapping_add(x, keys@.len() as usize)),
                None => None::<usize>,
            }),
            final(self).seed == old(self).seed,
            final(self).segment_length == old(self).segment_length,
            final(self).segment_length_mask == old(self).segment_length_mask,
            final(self).segment_count == old(self).segment_count,
            final(self).segment_count_length == old(self).segment_count_length,
            final(self).finger_prints@ == old(self).finger_prints@,
    {
        match &mut self.num_keys {
            Some(x) => {
                *x = x.wrapping_add(keys.len());
            },
            None => {},
        }
        let mut i: usize = 0;
        while i < keys.len()
            invariant
                i <= keys@.len(),
                self.keys matches Some(ks) && old(self).keys matches Some(old_ks) && ks@.len()
                    == old_ks@.len() + i,
                self.num_keys == (match old(self).num_keys {
                    Some(x) => Some(
                        vstd::wrapping::usize_specs::wrapping_add(x, keys@.len() as usize),
                    ),
                    None => None::<usize>,
                }),
                self.hash_builder == old(self).hash_builder,
                self.seed == old(self).seed,
                self.segment_length == old(self).segment_length,
                self.segment_length_mask == old(self).segment_length_mask,
                self.segment_count == old(self).segment_count,
                self.segment_count_length == old(self).segment_count_length,
                self.finger_prints@ == old(self).finger_prints@,
            decreases keys@.len() - i,
        {
            let digest = key_digest(&self.hash_builder, &keys[i]);
            match &mut self.keys {
                Some(ks) => {
                    ks.push(digest);
                },
                None => {
                    proof {
                        assert(false);
                    }
                },
            }
            i = i + 1;
        }
    }

    /// Tells whether the key is likely part of the set, with a
    /// false-positive rate.
    pub fn contains<K: Hash + ?Sized>(&self, key: &K) -> bool
        requires
            self.wf(),
    {
        let digest = key_digest(&self.hash_builder, key);
        self.contains_key(digest)
    }

    /// A fresh one-shot hasher from the stored hash builder.
    pub fn get_hasher(&self) -> H::Hasher {
        fresh_hasher(&self.hash_builder)
    }
}

/// The well-formed geometry facts that the slot functions need: the
/// segment-count window is positive and segment-aligned.
proof fn lemma_fuse16_wf_derived<H>(f: &Fuse16<H>)
    requires
        f.wf(),
    ensures
        f.segment_count_length >= 1,
        f.segment_count_length % f.segment_length == 0,
{
    assert((f.segment_count_length as int) % (f.segment_length as int) == 0) by (nonlinear_arith)
        requires
            f.segment_count_length as int == (f.segment_count as int) * (f.segment_length as int),
            f.segment_length >= 1,
    ;
    assert(f.segment_count_length >= 1) by (nonlinear_arith)
        requires
            f.segment_count_length as int == (f.segment_count as int) * (f.segment_length as int),
            f.segment_count >= 1,
            f.segment_length >= 4,
    ;
}

fn make_zero_fp16(n: usize) -> (r: Vec<u16>)
    ensures
        r@.len() == n,
        forall|i: int| 0 <= i < n ==> r@[i] == 0,
{
    let mut r: Vec<u16> = Vec::with_capacity(n);
    let mut i: usize = 0;
    while i < n
        invariant
            r@.len() == i,
            i <= n,
            forall|p: int| 0 <= p < i ==> r@[p] == 0,
        decreases n - i,
    {
        r.push(0);
        i = i + 1;
    }
    r
}

fn copy_digests16(v: &[u64]) -> (r: Vec<u64>)
    ensures
        r@ == v@,
{
    let mut r: Vec<u64> = Vec::with_capacity(v.len());
    let mut i: usize = 0;
    while i < v.len()
        invariant
            i <= v@.len(),
            r@ == v@.subrange(0, i as int),
        decreases v@.len() - i,
    {
        r.push(v[i]);
        proof {
            assert(v@.subrange(0, i + 1) =~= v@.subrange(0, i as int).push(v@[i as int]));
        }
        i = i + 1;
    }
    proof {
        assert(v@.subrange(0, v@.len() as int) =~= v@);
    }
    r
}

fn copy_u16s(v: &Vec<u16>) -> (r: Vec<u16>)
    ensures
        r@ == v@,
{
    let mut r: Vec<u16> = Vec::with_capacity(v.len());
    let mut i: usize = 0;
    while i < v.len()
        invariant
            i <= v@.len(),
            r@ == v@.subrange(0, i as int),
        decreases v@.len() - i,
    {
        r.push(v[i]);
        proof {
            assert(v@.subrange(0, i + 1) =~= v@.subrange(0, i as int).push(v@[i as int]));
        }
        i = i + 1;
    }
    proof {
        assert(v@.subrange(0, v@.len() as int) =~= v@);
    }
    r
}

/// Evaluates the binary-fuse membership test against a 16-bit array.
pub(crate) fn fuse16_probe(
    seed: u64,
    segment_length: u32,
    segment_count_length: u32,
    fp: &Vec<u16>,
    digest: u64,
) -> (r: bool)
    requires
        4 <= segment_length <= 262144,
        exists|k: nat| 2 <= k <= 18 && segment_length == #[trigger] pow2(k),
        segment_count_length >= 1,
        segment_count_length % segment_length == 0,
        fp@.len() == segment_count_length as int + 2 * (segment_length as int),
        fp@.len() <= 0xffff_ffff,
    ensures
        r == spec_fuse16_contains(seed, segment_length, segment_count_length, fp@, digest),
{
    let hash = mix::mixsplit(digest, seed);
    let f: u16 = (mix::fingerprint(hash) % 0x1_0000) as u16;
    let h0 = fuse_core::fuse_hash(0, hash, segment_length, segment_count_length) as usize;
    let h1 = fuse_core::fuse_hash(1, hash, segment_length, segment_count_length) as usize;
    let h2 = fuse_core::fuse_hash(2, hash, segment_length, segment_count_length) as usize;
    f == (fp[h0] ^ fp[h1] ^ fp[h2])
}

/// The array a one-entry peel stack back-fills: the hash's position-2 slot
/// takes its fingerprint folded with the two partner slots.
pub open spec fn spec_fuse16_single_fill(
    fp: Seq<u16>,
    hash: u64,
    segment_length: u32,
    segment_count_length: u32,
) -> Seq<u16> {
    fp.update(
        spec_fuse_hash(2, hash, segment_length, segment_count_length) as int,
        ((mix::spec_fingerprint(hash) % 0x1_0000) as u16) ^ fp[spec_fuse_hash(
            0,
            hash,
            segment_length,
            segment_count_length,
        ) as int] ^ fp[spec_fuse_hash(1, hash, segment_length, segment_count_length) as int],
    )
}

/// A one-entry back-fill answers positively for the one distinct digest of
/// the input, hence for every input digest.
proof fn lemma_fuse16_single_key_contained(
    digests: Seq<u64>,
    unique: Seq<u64>,
    fp_pre: Seq<u16>,
    fp: Seq<u16>,
    hash: u64,
    seed: u64,
    segment_length: u32,
    segment_count: u32,
    segment_count_length: u32,
    array_length: u32,
)
    requires
        digests.len() >= 1,
        digests.to_set().len() == 1,
        unique.len() as nat == digests.to_set().len(),
        forall|x: u64| unique.contains(x) <==> digests.contains(x),
        hash == spec_mix(unique[0], seed),
        fp_pre.len() == segment_count_length as int + 2 * (segment_length as int),
        fp == spec_fuse16_single_fill(fp_pre, hash, segment_length, segment_count_length),
        fuse_core::spec_fuse_geom_wf(
            segment_length,
            segment_count,
            segment_count_length,
            array_length,
        ),
        array_length == fp_pre.len(),
    ensures
        forall|i: int|
            0 <= i < digests.len() ==> spec_fuse16_contains(
                seed,
                segment_length,
                segment_count_length,
                fp,
                #[trigger] digests[i],
            ),
{
    fuse_core::lemma_fuse_slot_segments(
        hash,
        0,
        segment_length,
        segment_count,
        segment_count_length,
        array_length,
    );
    fuse_core::lemma_fuse_slot_segments(
        hash,
        1,
        segment_length,
        segment_count,
        segment_count_length,
        array_length,
    );
    fuse_core::lemma_fuse_slot_segments(
        hash,
        2,
        segment_length,
        segment_count,
        segment_count_length,
        array_length,
    );
    let s0 = spec_fuse_hash(0, hash, segment_length, segment_count_length) as int;
    let s1 = spec_fuse_hash(1, hash, segment_length, segment_count_length) as int;
    let s2 = spec_fuse_hash(2, hash, segment_length, segment_count_length) as int;
    assert(s0 != s2 && s1 != s2);
    let a = fp_pre[s0];
    let b = fp_pre[s1];
    let fv = (mix::spec_fingerprint(hash) % 0x1_0000) as u16;
    assert(fp[s0] == a && fp[s1] == b && fp[s2] == (fv ^ a) ^ b);
    assert(((a ^ b) ^ ((fv ^ a) ^ b)) == fv) by (bit_vector);
    assert(spec_fuse16_contains(seed, segment_length, segment_count_length, fp, unique[0]));
    assert forall|i: int| 0 <= i < digests.len() implies spec_fuse16_contains(
        seed,
        segment_length,
        segment_count_length,
        fp,
        #[trigger] digests[i],
    ) by {
        assert(digests.contains(digests[i]));
        assert(unique.contains(digests[i]));
        assert(digests[i] == unique[0]);
    }
}

/// Back-fills the fingerprints in reverse peel order: each stacked digest's
/// recorded slot is set so the XOR of its three slots equals its fingerprint.
fn fuse16_backfill(
    stack_hash: &Vec<u64>,
    stack_found: &Vec<u8>,
    segment_length: u32,
    segment_count_length: u32,
    fp: &mut Vec<u16>,
)
    requires
        stack_hash@.len() == stack_found@.len(),
        forall|p: int| 0 <= p < stack_found@.len() ==> stack_found@[p] <= 2,
        4 <= segment_length <= 262144,
        exists|k: nat| 2 <= k <= 18 && segment_length == #[trigger] pow2(k),
        segment_count_length >= 1,
        segment_count_length % segment_length == 0,
        old(fp)@.len() == segment_count_length as int + 2 * (segment_length as int),
        old(fp)@.len() <= 0xffff_ffff,
    ensures
        final(fp)@.len() == old(fp)@.len(),
        stack_hash@.len() == 1 && stack_found@[0] == 2 ==> final(fp)@ == spec_fuse16_single_fill(
            old(fp)@,
            stack_hash@[0],
            segment_length,
            segment_count_length,
        ),
{
    let mut i: usize = stack_hash.len();
    while i > 0
        invariant
            i <= stack_hash@.len(),
            stack_hash@.len() == stack_found@.len(),
            forall|p: int| 0 <= p < stack_found@.len() ==> stack_found@[p] <= 2,
            4 <= segment_length <= 262144,
            exists|k: nat| 2 <= k <= 18 && segment_length == #[trigger] pow2(k),
            segment_count_length >= 1,
            segment_count_length % segment_length == 0,
            fp@.len() == segment_count_length as int + 2 * (segment_length as int),
            fp@.len() <= 0xffff_ffff,
            stack_hash@.len() == 1 && stack_found@[0] == 2 ==> ((i == 1 && fp@ == old(fp)@) || (i
                == 0 && fp@ == spec_fuse16_single_fill(
                old(fp)@,
                stack_hash@[0],
                segment_length,
                segment_count_length,
            ))),
        decreases i,
    {
        i = i - 1;
        let hash = stack_hash[i];
        let xor2: u16 = (mix::fingerprint(hash) % 0x1_0000) as u16;
        let found = stack_found[i];
        let h0 = fuse_core::fuse_hash(0, hash, segment_length, segment_count_length) as usize;
        let h1 = fuse_core::fuse_hash(1, hash, segment_length, segment_count_length) as usize;
        let h2 = fuse_core::fuse_hash(2, hash, segment_length, segment_count_length) as usize;
        let (slot, o1, o2) = if found == 0 {
            (h0, h1, h2)
        } else if found == 1 {
            (h1, h2, h0)
        } else {
            (h2, h0, h1)
        };
        let ghost fp_before = fp@;
        let val = xor2 ^ fp[o1] ^ fp[o2];
        fp.set(slot, val);
        proof {
            if stack_hash@.len() == 1 && stack_found@[0] == 2 {
                assert(fp@ == spec_fuse16_single_fill(
                    fp_before,
                    stack_hash@[0],
                    segment_length,
                    segment_count_length,
                ));
            }
        }
    }
}

/// Probes every digest against the array; the result says whether all of
/// them answer positively.
fn fuse16_all_contained(
    digests: &[u64],
    seed: u64,
    segment_length: u32,
    segment_count_length: u32,
    fp: &Vec<u16>,
) -> (r: bool)
    requires
        4 <= segment_length <= 262144,
        exists|k: nat| 2 <= k <= 18 && segment_length == #[trigger] pow2(k),
        segment_count_length >= 1,
        segment_count_length % segment_length == 0,
        fp@.len() == segment_count_length as int + 2 * (segment_length as int),
        fp@.len() <= 0xffff_ffff,
    ensures
        r == (forall|i: int|
            0 <= i < digests@.len() ==> spec_fuse16_contains(
                seed,
                segment_length,
                segment_count_length,
                fp@,
                #[trigger] digests@[i],
            )),
{
    let n: usize = digests.len();
    let mut i: usize = 0;
    while i < n
        invariant
            i <= n,
            n == digests@.len(),
            4 <= segment_length <= 262144,
            exists|k: nat| 2 <= k <= 18 && segment_length == #[trigger] pow2(k),
            segment_count_length >= 1,
            segment_count_length % segment_length == 0,
            fp@.len() == segment_count_length as int + 2 * (segment_length as int),
            fp@.len() <= 0xffff_ffff,
            forall|p: int|
                0 <= p < i ==> spec_fuse16_contains(
                    seed,
                    segment_length,
                    segment_count_length,
                    fp@,
                    #[trigger] digests@[p],
                ),
        decreases n - i,
    {
        if !fuse16_probe(seed, segment_length, segment_count_length, fp, digests[i]) {
            return false;
        }
        i = i + 1;
    }
    true
}

} // verus!
