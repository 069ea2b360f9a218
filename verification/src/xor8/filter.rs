//! The built xor8 filter and its query path.
//!
//! A filter is a seed, a block length and an immutable fingerprint array of
//! three blocks. A digest is mixed with the seed; the mixed hash selects one
//! slot in each block, and the digest counts as a member exactly when the
//! XOR of the three slots equals the hash's 8-bit fingerprint.

use vstd::prelude::*;

use core::hash::BuildHasher;
use core::hash::Hash;
use std::sync::Arc;

use crate::codec;
use crate::hasher::key_digest;
use crate::hasher::fresh_hasher;
use crate::hasher::BuildHasherDefault;
use crate::mix;
use crate::mix::spec_mix;
use crate::mix::spec_reduce;
use crate::mix::spec_rotl64;

verus! {

/// The low 32 bits of a 64-bit hash.
pub open spec fn spec_low32(h: u64) -> u32 {
    (h % 0x1_0000_0000) as u32
}

/// The 8-bit fingerprint a mixed hash leaves in the array.
pub open spec fn spec_fp8(hash: u64) -> u8 {
    (mix::spec_fingerprint(hash) % 0x100) as u8
}

/// Slot of a mixed hash within the first block.
pub open spec fn spec_h0(hash: u64, block_length: u32) -> u32 {
    spec_reduce(spec_low32(hash), block_length)
}

/// Slot of a mixed hash within the second block, before the block offset.
pub open spec fn spec_h1(hash: u64, block_length: u32) -> u32 {
    spec_reduce(spec_low32(spec_rotl64(hash, 21)), block_length)
}

/// Slot of a mixed hash within the third block, before the block offset.
pub open spec fn spec_h2(hash: u64, block_length: u32) -> u32 {
    spec_reduce(spec_low32(spec_rotl64(hash, 42)), block_length)
}

/// Whether a fingerprint array of three `block_length`-sized blocks, built
/// under `seed`, answers positively for `digest`.
pub open spec fn spec_xor8_contains(seed: u64, block_length: u32, fp: Seq<u8>, digest: u64) -> bool {
    let h = spec_mix(digest, seed);
    spec_fp8(h) == fp[spec_h0(h, block_length) as int] ^ fp[spec_h1(h, block_length)
        + block_length] ^ fp[spec_h2(h, block_length) + 2 * block_length]
}

/// The three slots of any digest lie in the three disjoint blocks: the
/// first in `[0, b)`, the second in `[b, 2b)`, the third in `[2b, 3b)`.
pub proof fn lemma_xor8_slot_ranges(seed: u64, block_length: u32, digest: u64)
    requires
        block_length >= 1,
    ensures
        ({
            let h = spec_mix(digest, seed);
            &&& spec_h0(h, block_length) < block_length
            &&& block_length <= spec_h1(h, block_length) + block_length < 2 * block_length
            &&& 2 * block_length <= spec_h2(h, block_length) + 2 * block_length < 3 * block_length
        }),
{
    let h = spec_mix(digest, seed);
    lemma_reduce_bound(spec_low32(h), block_length);
    lemma_reduce_bound(spec_low32(spec_rotl64(h, 21)), block_length);
    lemma_reduce_bound(spec_low32(spec_rotl64(h, 42)), block_length);
}

/// The fast-range reduction lands strictly below its bound.
proof fn lemma_reduce_bound(hash: u32, n: u32)
    requires
        n >= 1,
    ensures
        spec_reduce(hash, n) < n,
{
    assert((hash as int) * (n as int) < 0x1_0000_0000 * (n as int)) by (nonlinear_arith)
        requires
            hash <= 0xffff_ffffu32,
            n >= 1,
    ;
    assert((hash as int) * (n as int) / 0x1_0000_0000 < n as int) by (nonlinear_arith)
        requires
            n >= 1,
            (hash as int) * (n as int) < 0x1_0000_0000 * (n as int),
            (hash as int) * (n as int) >= 0,
    ;
}

/// One slot index per block for a mixed hash, together with the hash.
pub(crate) struct Hashes {
    pub(crate) h: u64,
    pub(crate) h0: u32,
    pub(crate) h1: u32,
    pub(crate) h2: u32,
}

pub(crate) fn get_h0(hash: u64, block_length: u32) -> (r: u32)
    ensures
        r == spec_h0(hash, block_length),
        block_length > 0 ==> r < block_length,
{
    mix::reduce((hash % 0x1_0000_0000) as u32, block_length)
}

pub(crate) fn get_h1(hash: u64, block_length: u32) -> (r: u32)
    ensures
        r == spec_h1(hash, block_length),
        block_length > 0 ==> r < block_length,
{
    mix::reduce((mix::rotl64(hash, 21) % 0x1_0000_0000) as u32, block_length)
}

pub(crate) fn get_h2(hash: u64, block_length: u32) -> (r: u32)
    ensures
        r == spec_h2(hash, block_length),
        block_length > 0 ==> r < block_length,
{
    mix::reduce((mix::rotl64(hash, 42) % 0x1_0000_0000) as u32, block_length)
}

/// The three slots a digest selects under `seed`, one per block, without the
/// block offsets.
pub(crate) fn get_h0h1h2(digest: u64, seed: u64, block_length: u32) -> (r: Hashes)
    ensures
        r.h == spec_mix(digest, seed),
        r.h0 == spec_h0(r.h, block_length),
        r.h1 == spec_h1(r.h, block_length),
        r.h2 == spec_h2(r.h, block_length),
        block_length > 0 ==> r.h0 < block_length && r.h1 < block_length && r.h2 < block_length,
{
    let h = mix::mixsplit(digest, seed);
    Hashes { h, h0: get_h0(h, block_length), h1: get_h1(h, block_length), h2: get_h2(h, block_length) }
}

/// Evaluates the xor8 membership test against a fingerprint array.
pub(crate) fn xor8_probe(seed: u64, block_length: u32, fp: &Vec<u8>, digest: u64) -> (r: bool)
    requires
        block_length >= 1,
        3 * (block_length as int) <= 0xffff_ffff,
        fp@.len() == 3 * block_length,
    ensures
        r == spec_xor8_contains(seed, block_length, fp@, digest),
{
    let hash = mix::mixsplit(digest, seed);
    let f: u8 = (mix::fingerprint(hash) % 0x100) as u8;
    let h0 = get_h0(hash, block_length) as usize;
    let h1 = (get_h1(hash, block_length) + block_length) as usize;
    let h2 = (get_h2(hash, block_length) + 2 * block_length) as usize;
    f == (fp[h0] ^ fp[h1] ^ fp[h2])
}

/// Type Xor8 is a probabilistic data structure that tests membership of an
/// element in a set, with a false-positive rate of roughly one in 256 and no
/// false negatives.
///
/// Xor8 is parametrized over a hash builder `H`, such as `std::hash::RandomState`
/// or the deterministic [`BuildHasherDefault`], which is the default.
#[derive(Clone, Debug)]
pub struct Xor8<H = BuildHasherDefault> {
    pub hash_builder: H,
    pub seed: u64,
    pub num_keys: Option<usize>,
    pub block_length: u32,
    pub finger_prints: Arc<Vec<u8>>,
}

impl<H> Xor8<H> {
    /// The filter's geometry is consistent: a positive block length, three
    /// blocks within the 32-bit indexing range, and a fingerprint slot for
    /// every position of the three blocks.
    pub open spec fn wf(&self) -> bool {
        &&& self.block_length >= 1
        &&& 3 * (self.block_length as int) <= 0xffff_ffff
        &&& self.finger_prints@.len() == 3 * self.block_length
    }

    /// Whether this filter answers positively for `digest`.
    pub open spec fn spec_contains(&self, digest: u64) -> bool {
        spec_xor8_contains(self.seed, self.block_length, self.finger_prints@, digest)
    }

    pub(crate) fn new(hash_builder: H) -> (r: Self)
        ensures
            r.seed == 0 && r.block_length == 0 && r.finger_prints@.len() == 0,
            r.num_keys is None,
    {
        Self {
            hash_builder,
            seed: 0,
            num_keys: None,
            block_length: 0,
            finger_prints: Arc::new(Vec::new()),
        }
    }

    /// Return the number of keys added/built into the bitmap index.
    pub fn len(&self) -> (r: Option<usize>)
        ensures
            r == self.num_keys,
    {
        self.num_keys
    }

    /// Tells whether the key, in pre-computed digest form, is likely part of
    /// the set, with a false-positive rate.
    pub fn contains_digest(&self, digest: u64) -> (r: bool)
        requires
            self.wf(),
        ensures
            r == self.spec_contains(digest),
    {
        xor8_probe(self.seed, self.block_length, &self.finger_prints, digest)
    }
}

impl<H: BuildHasher> Xor8<H> {
    /// Tells whether the key is likely part of the set, with a
    /// false-positive rate. The key is hashed through the stored hash
    /// builder; the result is `contains_digest` of that digest.
    pub fn contains<K: Hash + ?Sized>(&self, key: &K) -> bool
        requires
            self.wf(),
    {
        let digest = key_digest(&self.hash_builder, key);
        self.contains_digest(digest)
    }

    /// A fresh one-shot hasher from the stored hash builder.
    pub fn get_hasher(&self) -> H::Hasher {
        fresh_hasher(&self.hash_builder)
    }

    /// The 64-bit digest of a key under the stored hash builder.
    pub fn hash<K: Hash + ?Sized>(&self, key: &K) -> u64 {
        key_digest(&self.hash_builder, key)
    }
}

fn eq_bytes(a: &Vec<u8>, b: &Vec<u8>) -> (r: bool)
    ensures
        r == (a@ == b@),
{
    if a.len() != b.len() {
        proof {
            assert(a@ != b@);
        }
        return false;
    }
    let mut i: usize = 0;
    while i < a.len()
        invariant
            i <= a@.len(),
            a@.len() == b@.len(),
            forall|p: int| 0 <= p < i ==> a@[p] == b@[p],
        decreases a@.len() - i,
    {
        if a[i] != b[i] {
            proof {
                assert(a@ != b@);
            }
            return false;
        }
        i = i + 1;
    }
    proof {
        assert(a@ =~= b@);
    }
    true
}

impl<H> PartialEq for Xor8<H> {
    /// Two filters are equal when seed, block length and fingerprints agree;
    /// the informational key count is compared only when both sides carry it.
    fn eq(&self, other: &Self) -> (r: bool) {
        let num_keys = match (self.num_keys, other.num_keys) {
            (Some(a), Some(b)) => a == b,
            (_, _) => true,
        };
        self.seed == other.seed && num_keys && self.block_length == other.block_length && eq_bytes(
            &self.finger_prints,
            &other.finger_prints,
        )
    }
}

impl<H> vstd::std_specs::cmp::PartialEqSpecImpl for Xor8<H> {
    open spec fn obeys_eq_spec() -> bool {
        true
    }

    open spec fn eq_spec(&self, other: &Self) -> bool {
        &&& self.seed == other.seed
        &&& (match (self.num_keys, other.num_keys) {
            (Option::Some(a), Option::Some(b)) => a == b,
            (_, _) => true,
        })
        &&& self.block_length == other.block_length
        &&& self.finger_prints@ == other.finger_prints@
    }
}

impl<H> Xor8<H> where H: Into<Vec<u8>> + From<Vec<u8>> {
    /// The filter serialized in the version-2 byte format. The trailing
    /// hash-builder block comes from the builder's own byte conversion and is
    /// opaque here.
    pub fn to_bytes(&self) -> (r: Vec<u8>) where H: Clone
        ensures
            exists|hb: Seq<u8>|
                r@ == #[trigger] codec::spec_xor8_encoding(
                    self.seed,
                    self.block_length,
                    self.finger_prints@,
                    hb,
                ),
    {
        let hb_binary: Vec<u8> = self.hash_builder.clone().into();
        let fp_copy = copy_bytes(&self.finger_prints);
        let r = codec::encode_xor8(self.seed, self.block_length, &fp_copy, &hb_binary);
        proof {
            assert(r@ == codec::spec_xor8_encoding(
                self.seed,
                self.block_length,
                self.finger_prints@,
                hb_binary@,
            ));
        }
        r
    }

    /// Reads a filter back from its byte image, accepting the version-2 and
    /// the legacy version-1 formats. Fails with an `InvalidData` error
    /// exactly when the image is malformed: shorter than its header, carrying
    /// an unknown signature, or declaring lengths past its end.
    pub fn from_bytes(buf: Vec<u8>) -> (r: Result<Self, crate::Error>) where H: Default
        ensures
            match r {
                Ok(f) => {
                    &&& codec::spec_xor8_decoding(buf@) matches Option::Some(d)
                    &&& f.seed == d.0
                    &&& f.block_length == d.1
                    &&& f.finger_prints@ == d.2
                    &&& f.num_keys is None
                },
                Err(e) => codec::spec_xor8_decoding(buf@) is None && e is InvalidData,
            },
    {
        match codec::decode_xor8(&buf) {
            Ok((seed, block_length, fp, hb)) => {
                let hash_builder: H = match hb {
                    Some(bytes) => H::from(bytes),
                    None => H::default(),
                };
                Ok(
                    Xor8 {
                        hash_builder,
                        seed,
                        num_keys: None,
                        block_length,
                        finger_prints: Arc::new(fp),
                    },
                )
            },
            Err(sig_fault) => {
                if sig_fault {
                    Err(
                        crate::Error::InvalidData(
                            "xor8.from_bytes".to_string(),
                            "File signature incorrect".to_string(),
                        ),
                    )
                } else {
                    Err(
                        crate::Error::InvalidData(
                            "xor8.from_bytes".to_string(),
                            "invalid byte slice".to_string(),
                        ),
                    )
                }
            },
        }
    }
}

fn copy_bytes(v: &Vec<u8>) -> (r: Vec<u8>)
    ensures
        r@ == v@,
{
    let mut r: Vec<u8> = Vec::new();
    let mut i: usize = 0;
    while i < v.len()
        invariant
            i <= v@.len(),
            r@ == v@.subrange(0, i as int),
        decreases v@.len() - i,
    {
        r.push(v[i]);
        proof {
            assert(v@.subrange(0, i + 1) =~= v@.subrange(0, i as int).push(v@[i as int]));
        }
        i = i + 1;
    }
    proof {
        assert(v@.subrange(0, v@.len() as int) =~= v@);
    }
    r
}

} // verus!
