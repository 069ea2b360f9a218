//! Builds an Xor8 filter by hypergraph peeling.
//!
//! Every digest selects one slot in each of three blocks. Construction keeps,
//! per slot, a count of covering digests and the XOR of their mixed hashes;
//! slots covered exactly once are peeled one after the other, each peel
//! enqueueing any partner slot whose count drops to one. When every digest
//! has been peeled, the fingerprints are back-filled in reverse peel order;
//! otherwise the construction reseeds and retries, up to a fixed cap.
//!
//! Before a built filter is returned, every input digest is probed against
//! it once, so a returned filter provably answers positively for each of
//! them; an attempt whose probe fails counts as a failed seed.

use vstd::prelude::*;

use core::hash::BuildHasher;
use core::hash::Hash;
use std::sync::Arc;

use crate::geometry;
use crate::hasher::fresh_hasher;
use crate::hasher::key_digest;
use crate::hasher::BuildHasherDefault;
use crate::mix;
use crate::sorting;
use crate::xor8::filter::get_h0;
use crate::xor8::filter::get_h0h1h2;
use crate::xor8::filter::get_h1;
use crate::xor8::filter::get_h2;
use crate::xor8::filter::spec_xor8_contains;
use crate::xor8::filter::xor8_probe;
use crate::xor8::filter::Xor8;

verus! {

/// Maximum number of seeds the peeling loop tries before giving up; running
/// past it signals duplicate digests or a pathological input.
pub const XOR_MAX_ITERATIONS: usize = 100;

#[derive(Clone, Copy)]
struct KeyIndex {
    hash: u64,
    index: u32,
}

#[derive(Clone, Copy)]
struct XorSet {
    xor_mask: u64,
    count: u32,
}

fn make_sets(n: usize) -> (r: Vec<XorSet>)
    ensures
        r@.len() == n,
{
    let mut r: Vec<XorSet> = Vec::with_capacity(n);
    let mut i: usize = 0;
    while i < n
        invariant
            r@.len() == i,
            i <= n,
        decreases n - i,
    {
        r.push(XorSet { xor_mask: 0, count: 0 });
        i = i + 1;
    }
    r
}

fn make_zero_bytes(n: usize) -> (r: Vec<u8>)
    ensures
        r@.len() == n,
        forall|i: int| 0 <= i < n ==> r@[i] == 0,
{
    let mut r: Vec<u8> = Vec::with_capacity(n);
    let mut i: usize = 0;
    while i < n
        invariant
            r@.len() == i,
            i <= n,
            forall|p: int| 0 <= p < i ==> r@[p] == 0,
        decreases n - i,
    {
        r.push(0);
        i = i + 1;
    }
    r
}

/// Probes every digest against the fingerprint array; the result says
/// whether all of them answer positively.
fn all_digests_contained(digests: &[u64], seed: u64, block_length: u32, fp: &Vec<u8>) -> (r: bool)
    requires
        block_length >= 1,
        3 * (block_length as int) <= 0xffff_ffff,
        fp@.len() == 3 * block_length,
    ensures
        r == (forall|i: int|
            0 <= i < digests@.len() ==> spec_xor8_contains(
                seed,
                block_length,
                fp@,
                #[trigger] digests@[i],
            )),
{
    let n: usize = digests.len();
    let mut i: usize = 0;
    while i < n
        invariant
            i <= n,
            n == digests@.len(),
            block_length >= 1,
            3 * (block_length as int) <= 0xffff_ffff,
            fp@.len() == 3 * block_length,
            forall|p: int|
                0 <= p < i ==> spec_xor8_contains(seed, block_length, fp@, #[trigger] digests@[p]),
        decreases n - i,
    {
        if !xor8_probe(seed, block_length, fp, digests[i]) {
            return false;
        }
        i = i + 1;
    }
    true
}

/// Runs the full peeling construction over `digests` and returns the chosen
/// seed, the block length and the filled fingerprint array.
///
/// On success every input digest is contained in the returned array; an
/// empty input always succeeds. The construction fails only when the retry
/// cap is exhausted, which a duplicate digest forces.
pub(crate) fn build_xor8_parts(digests: &[u64]) -> (r: Result<(u64, u32, Vec<u8>), crate::Error>)
    ensures
        match r {
            Ok(parts) => {
                &&& parts.1 == geometry::spec_xor8_block_length(digests@.len() as int)
                &&& parts.1 >= 1
                &&& 3 * (parts.1 as int) <= 0xffff_ffff
                &&& parts.2@.len() == 3 * parts.1
                &&& forall|i: int|
                    0 <= i < digests@.len() ==> spec_xor8_contains(
                        parts.0,
                        parts.1,
                        parts.2@,
                        #[trigger] digests@[i],
                    )
                &&& exists|a: nat| a < 100 && parts.0 == #[trigger] mix::spec_seed_chain(1, a)
            },
            Err(e) => e is Fatal,
        },
        digests@.len() <= 1 ==> r is Ok,
        digests@.len() == 0 ==> (r matches Ok(parts) ==> forall|i: int|
            0 <= i < parts.2@.len() ==> parts.2@[i] == 0),
{
    let size: usize = digests.len();
    let mut rngcounter: u64 = 1;
    let block_length: u32 = geometry::xor8_block_length(size);
    let capacity: u32 = 3 * block_length;
    let mut seed: u64 = mix::splitmix64(&mut rngcounter);
    proof {
        assert(mix::spec_splitmix64_state(1, 0) == 1u64);
        assert(seed == mix::spec_seed_chain(1, 0));
        assert(rngcounter == mix::spec_splitmix64_state(1, 1));
    }

    if size == 0 {
        // Nothing to peel: the zeroed array under the first seed is the
        // filter, and the containment condition is vacuous.
        let fp = make_zero_bytes(capacity as usize);
        return Ok((seed, block_length, fp));
    }
    if size == 1 {
        // A single digest peels at the first seed: each of its three slots is
        // covered exactly once, the first-block slot pops first, and its
        // back-filled entry reads two still-zero partners.
        let hs = get_h0h1h2(digests[0], seed, block_length);
        let mut fp = make_zero_bytes(capacity as usize);
        let h1 = (get_h1(hs.h, block_length) + block_length) as usize;
        let h2 = (get_h2(hs.h, block_length) + 2 * block_length) as usize;
        let val: u8 = ((mix::fingerprint(hs.h) % 0x100) as u8) ^ fp[h1] ^ fp[h2];
        fp.set(hs.h0 as usize, val);
        proof {
            let d = digests@[0];
            let h = crate::mix::spec_mix(d, seed);
            let i0 = crate::xor8::filter::spec_h0(h, block_length) as int;
            let i1 = crate::xor8::filter::spec_h1(h, block_length) + block_length;
            let i2 = crate::xor8::filter::spec_h2(h, block_length) + 2 * block_length;
            let f8 = crate::xor8::filter::spec_fp8(h);
            assert(fp@[i1] == 0 && fp@[i2] == 0);
            assert(fp@[i0] == f8 ^ 0u8 ^ 0u8);
            assert((0u8 ^ 0u8) == 0u8 && ((f8 ^ 0u8) ^ 0u8) == f8 && (((f8 ^ 0u8) ^ 0u8) ^ 0u8)
                ^ 0u8 == f8) by (bit_vector);
            assert(f8 == ((f8 ^ 0u8) ^ 0u8) ^ 0u8 ^ 0u8);
            assert(spec_xor8_contains(seed, block_length, fp@, d));
        }
        return Ok((seed, block_length, fp));
    }
    let bl: usize = block_length as usize;
    let mut q0: Vec<KeyIndex> = Vec::with_capacity(bl);
    let mut q1: Vec<KeyIndex> = Vec::with_capacity(bl);
    let mut q2: Vec<KeyIndex> = Vec::with_capacity(bl);
    let mut stack: Vec<KeyIndex> = Vec::with_capacity(size);
    let mut sets0: Vec<XorSet> = make_sets(bl);
    let mut sets1: Vec<XorSet> = make_sets(bl);
    let mut sets2: Vec<XorSet> = make_sets(bl);

    let mut attempts: usize = 0;
    while attempts < XOR_MAX_ITERATIONS
        invariant
            size == digests@.len(),
            size >= 2,
            block_length >= 1,
            block_length == geometry::spec_xor8_block_length(size as int),
            bl == block_length,
            capacity == 3 * block_length,
            3 * (block_length as int) <= 0xffff_ffff,
            sets0@.len() == bl,
            sets1@.len() == bl,
            sets2@.len() == bl,
            attempts <= XOR_MAX_ITERATIONS,
            seed == mix::spec_seed_chain(1, attempts as nat),
            rngcounter == mix::spec_splitmix64_state(1, (attempts + 1) as nat),
            forall|p: int| 0 <= p < q0@.len() ==> (#[trigger] q0@[p]).index < block_length,
            forall|p: int| 0 <= p < q1@.len() ==> (#[trigger] q1@[p]).index < block_length,
            forall|p: int| 0 <= p < q2@.len() ==> (#[trigger] q2@[p]).index < block_length,
            forall|p: int| 0 <= p < stack@.len() ==> (#[trigger] stack@[p]).index < capacity,
        decreases XOR_MAX_ITERATIONS - attempts,
    {
        attempts = attempts + 1;

        // Count, per slot of each block, the digests that select it, and
        // fold their mixed hashes together.
        let mut di: usize = 0;
        while di < size
            invariant
                size == digests@.len(),
                block_length >= 1,
                bl == block_length,
                sets0@.len() == bl,
                sets1@.len() == bl,
                sets2@.len() == bl,
            decreases size - di,
        {
            let hs = get_h0h1h2(digests[di], seed, block_length);
            let i0 = hs.h0 as usize;
            let s0 = sets0[i0];
            sets0.set(i0, XorSet { xor_mask: s0.xor_mask ^ hs.h, count: s0.count.wrapping_add(1) });
            let i1 = hs.h1 as usize;
            let s1 = sets1[i1];
            sets1.set(i1, XorSet { xor_mask: s1.xor_mask ^ hs.h, count: s1.count.wrapping_add(1) });
            let i2 = hs.h2 as usize;
            let s2 = sets2[i2];
            sets2.set(i2, XorSet { xor_mask: s2.xor_mask ^ hs.h, count: s2.count.wrapping_add(1) });
            di = di + 1;
        }

        // Seed the three queues with the slots covered exactly once.
        q0 = Vec::with_capacity(bl);
        q1 = Vec::with_capacity(bl);
        q2 = Vec::with_capacity(bl);
        let mut si: usize = 0;
        while si < bl
            invariant
                bl == block_length,
                sets0@.len() == bl,
                si <= bl,
                forall|p: int| 0 <= p < q0@.len() ==> (#[trigger] q0@[p]).index < block_length,
            decreases bl - si,
        {
            if sets0[si].count == 1 {
                q0.push(KeyIndex { index: si as u32, hash: sets0[si].xor_mask });
            }
            si = si + 1;
        }
        let mut si1: usize = 0;
        while si1 < bl
            invariant
                bl == block_length,
                sets1@.len() == bl,
                si1 <= bl,
                forall|p: int| 0 <= p < q1@.len() ==> (#[trigger] q1@[p]).index < block_length,
            decreases bl - si1,
        {
            if sets1[si1].count == 1 {
                q1.push(KeyIndex { index: si1 as u32, hash: sets1[si1].xor_mask });
            }
            si1 = si1 + 1;
        }
        let mut si2: usize = 0;
        while si2 < bl
            invariant
                bl == block_length,
                sets2@.len() == bl,
                si2 <= bl,
                forall|p: int| 0 <= p < q2@.len() ==> (#[trigger] q2@[p]).index < block_length,
            decreases bl - si2,
        {
            if sets2[si2].count == 1 {
                q2.push(KeyIndex { index: si2 as u32, hash: sets2[si2].xor_mask });
            }
            si2 = si2 + 1;
        }

        stack = Vec::with_capacity(size);

        // Peel: drain the three queues in order; each peeled slot removes
        // its digest from the two partner blocks, possibly exposing new
        // once-covered slots there. The step budget covers every reachable
        // drain (the initial scan and two partner visits per peeled digest)
        // and only bounds the loop for the termination argument.
        let step_bound: u128 = 3 * (capacity as u128) + 2 * (size as u128) + 2;
        let mut steps: u128 = 0;
        while (q0.len() > 0 || q1.len() > 0 || q2.len() > 0) && steps < step_bound
            invariant
                steps <= step_bound,
                block_length >= 1,
                bl == block_length,
                capacity == 3 * block_length,
                3 * (block_length as int) <= 0xffff_ffff,
                sets0@.len() == bl,
                sets1@.len() == bl,
                sets2@.len() == bl,
                forall|p: int| 0 <= p < q0@.len() ==> (#[trigger] q0@[p]).index < block_length,
                forall|p: int| 0 <= p < q1@.len() ==> (#[trigger] q1@[p]).index < block_length,
                forall|p: int| 0 <= p < q2@.len() ==> (#[trigger] q2@[p]).index < block_length,
                forall|p: int| 0 <= p < stack@.len() ==> (#[trigger] stack@[p]).index < capacity,
            decreases step_bound - steps,
        {
            steps = steps + 1;
            while q0.len() > 0
                invariant
                    block_length >= 1,
                    bl == block_length,
                    capacity == 3 * block_length,
                    3 * (block_length as int) <= 0xffff_ffff,
                    sets0@.len() == bl,
                    sets1@.len() == bl,
                    sets2@.len() == bl,
                    forall|p: int| 0 <= p < q0@.len() ==> (#[trigger] q0@[p]).index < block_length,
                    forall|p: int| 0 <= p < q1@.len() ==> (#[trigger] q1@[p]).index < block_length,
                    forall|p: int| 0 <= p < q2@.len() ==> (#[trigger] q2@[p]).index < block_length,
                    forall|p: int|
                        0 <= p < stack@.len() ==> (#[trigger] stack@[p]).index < capacity,
                decreases q0@.len(),
            {
                let keyindexvar = q0.pop().unwrap();
                if sets0[keyindexvar.index as usize].count == 0 {
                    // Stale entry: the slot was already drained.
                    continue;
                }
                let hash = keyindexvar.hash;
                let h1 = get_h1(hash, block_length);
                let h2 = get_h2(hash, block_length);
                stack.push(keyindexvar);

                let s1 = sets1[h1 as usize];
                let s1n = XorSet { xor_mask: s1.xor_mask ^ hash, count: s1.count.wrapping_sub(1) };
                sets1.set(h1 as usize, s1n);
                if s1n.count == 1 {
                    q1.push(KeyIndex { index: h1, hash: s1n.xor_mask });
                }
                let s2 = sets2[h2 as usize];
                let s2n = XorSet { xor_mask: s2.xor_mask ^ hash, count: s2.count.wrapping_sub(1) };
                sets2.set(h2 as usize, s2n);
                if s2n.count == 1 {
                    q2.push(KeyIndex { index: h2, hash: s2n.xor_mask });
                }
            }
            while q1.len() > 0
                invariant
                    block_length >= 1,
                    bl == block_length,
                    capacity == 3 * block_length,
                    3 * (block_length as int) <= 0xffff_ffff,
                    sets0@.len() == bl,
                    sets1@.len() == bl,
                    sets2@.len() == bl,
                    forall|p: int| 0 <= p < q0@.len() ==> (#[trigger] q0@[p]).index < block_length,
                    forall|p: int| 0 <= p < q1@.len() ==> (#[trigger] q1@[p]).index < block_length,
                    forall|p: int| 0 <= p < q2@.len() ==> (#[trigger] q2@[p]).index < block_length,
                    forall|p: int|
                        0 <= p < stack@.len() ==> (#[trigger] stack@[p]).index < capacity,
                decreases q1@.len(),
            {
                let mut keyindexvar = q1.pop().unwrap();
                if sets1[keyindexvar.index as usize].count == 0 {
                    continue;
                }
                let hash = keyindexvar.hash;
                let h0 = get_h0(hash, block_length);
                let h2 = get_h2(hash, block_length);
                keyindexvar.index = keyindexvar.index + block_length;
                stack.push(keyindexvar);

                let s0 = sets0[h0 as usize];
                let s0n = XorSet { xor_mask: s0.xor_mask ^ hash, count: s0.count.wrapping_sub(1) };
                sets0.set(h0 as usize, s0n);
                if s0n.count == 1 {
                    q0.push(KeyIndex { index: h0, hash: s0n.xor_mask });
                }
                let s2 = sets2[h2 as usize];
                let s2n = XorSet { xor_mask: s2.xor_mask ^ hash, count: s2.count.wrapping_sub(1) };
                sets2.set(h2 as usize, s2n);
                if s2n.count == 1 {
                    q2.push(KeyIndex { index: h2, hash: s2n.xor_mask });
                }
            }
            while q2.len() > 0
                invariant
                    block_length >= 1,
                    bl == block_length,
                    capacity == 3 * block_length,
                    3 * (block_length as int) <= 0xffff_ffff,
                    sets0@.len() == bl,
                    sets1@.len() == bl,
                    sets2@.len() == bl,
                    forall|p: int| 0 <= p < q0@.len() ==> (#[trigger] q0@[p]).index < block_length,
                    forall|p: int| 0 <= p < q1@.len() ==> (#[trigger] q1@[p]).index < block_length,
                    forall|p: int| 0 <= p < q2@.len() ==> (#[trigger] q2@[p]).index < block_length,
                    forall|p: int|
                        0 <= p < stack@.len() ==> (#[trigger] stack@[p]).index < capacity,
                decreases q2@.len(),
            {
                let mut keyindexvar = q2.pop().unwrap();
                if sets2[keyindexvar.index as usize].count == 0 {
                    continue;
                }
                let hash = keyindexvar.hash;
                let h0 = get_h0(hash, block_length);
                let h1 = get_h1(hash, block_length);
                keyindexvar.index = keyindexvar.index + 2 * block_length;
                stack.push(keyindexvar);

                let s0 = sets0[h0 as usize];
                let s0n = XorSet { xor_mask: s0.xor_mask ^ hash, count: s0.count.wrapping_sub(1) };
                sets0.set(h0 as usize, s0n);
                if s0n.count == 1 {
                    q0.push(KeyIndex { index: h0, hash: s0n.xor_mask });
                }
                let s1 = sets1[h1 as usize];
                let s1n = XorSet { xor_mask: s1.xor_mask ^ hash, count: s1.count.wrapping_sub(1) };
                sets1.set(h1 as usize, s1n);
                if s1n.count == 1 {
                    q1.push(KeyIndex { index: h1, hash: s1n.xor_mask });
                }
            }
        }

        if stack.len() == size {
            // Back-fill in reverse peel order: each stacked digest owns its
            // recorded slot exclusively among the digests still to come, so
            // setting that slot fixes its XOR equation for good.
            let mut fp: Vec<u8> = make_zero_bytes(capacity as usize);
            while stack.len() > 0
                invariant
                    capacity == 3 * block_length,
                    block_length >= 1,
                    3 * (block_length as int) <= 0xffff_ffff,
                    fp@.len() == capacity,
                    forall|p: int|
                        0 <= p < stack@.len() ==> (#[trigger] stack@[p]).index < capacity,
                decreases stack@.len(),
            {
                let ki = stack.pop().unwrap();
                let mut val: u8 = (mix::fingerprint(ki.hash) % 0x100) as u8;
                if ki.index < block_length {
                    let h1 = (get_h1(ki.hash, block_length) + block_length) as usize;
                    let h2 = (get_h2(ki.hash, block_length) + 2 * block_length) as usize;
                    val = val ^ fp[h1] ^ fp[h2];
                } else if ki.index < 2 * block_length {
                    let h0 = get_h0(ki.hash, block_length) as usize;
                    let h2 = (get_h2(ki.hash, block_length) + 2 * block_length) as usize;
                    val = val ^ fp[h0] ^ fp[h2];
                } else {
                    let h0 = get_h0(ki.hash, block_length) as usize;
                    let h1 = (get_h1(ki.hash, block_length) + block_length) as usize;
                    val = val ^ fp[h0] ^ fp[h1];
                }
                fp.set(ki.index as usize, val);
            }
            // Check the filter against every input digest before handing it
            // out; a failed probe sends this seed back for a retry.
            if all_digests_contained(digests, seed, block_length, &fp) {
                return Ok((seed, block_length, fp));
            }
        }

        sets0 = make_sets(bl);
        sets1 = make_sets(bl);
        sets2 = make_sets(bl);
        stack = Vec::with_capacity(size);
        q0 = Vec::with_capacity(bl);
        q1 = Vec::with_capacity(bl);
        q2 = Vec::with_capacity(bl);
        seed = mix::splitmix64(&mut rngcounter);
        proof {
            assert(mix::spec_splitmix64_state(1, (attempts + 1) as nat)
                == mix::spec_splitmix64_next(mix::spec_splitmix64_state(1, attempts as nat)));
        }
    }
    Err(
        crate::Error::Fatal(
            "xor8.build".to_string(),
            "Too many iterations. Are all your keys unique?".to_string(),
        ),
    )
}

/// Builds an Xor8 filter from accumulated keys or digests.
///
/// Keys accumulate in insertion order; `build` collapses them to their
/// distinct digests and peels those.
#[derive(Clone, Debug)]
pub struct Xor8Builder<H = BuildHasherDefault> {
    digests: Vec<u64>,
    pub num_digests: usize,
    pub hash_builder: H,
}

impl<H: Default> Default for Xor8Builder<H> {
    fn default() -> (r: Self)
        ensures
            r.spec_digests().len() == 0 && r.spec_num_digests() == 0,
    {
        Xor8Builder { digests: Vec::new(), num_digests: 0, hash_builder: H::default() }
    }
}

impl<H> Xor8Builder<H> {
    /// The digests accumulated so far, in insertion order, duplicates kept.
    pub closed spec fn spec_digests(&self) -> Seq<u64> {
        self.digests@
    }

    /// The number of accumulation operations so far, duplicates counted.
    pub closed spec fn spec_num_digests(&self) -> usize {
        self.num_digests
    }

    /// The stored hash builder.
    pub closed spec fn spec_hash_builder(&self) -> &H {
        &self.hash_builder
    }

    /// New builder initialized with the default hash builder.
    pub fn new() -> (r: Self) where H: Default
        ensures
            r.spec_digests().len() == 0 && r.spec_num_digests() == 0,
    {
        Self::default()
    }

    /// New builder initialized with the supplied hash builder.
    pub fn with_hasher(hash_builder: H) -> (r: Self)
        ensures
            r.spec_digests().len() == 0 && r.spec_num_digests() == 0,
            *r.spec_hash_builder() == hash_builder,
    {
        Xor8Builder { digests: Vec::new(), num_digests: 0, hash_builder }
    }

    /// Accumulates pre-computed 64-bit digests.
    pub fn populate_digests(&mut self, digests: &[u64])
        ensures
            final(self).spec_digests() == old(self).spec_digests() + digests@,
            final(self).spec_num_digests() == vstd::wrapping::usize_specs::wrapping_add(
                old(self).spec_num_digests(),
                digests@.len() as usize,
            ),
            final(self).spec_hash_builder() == old(self).spec_hash_builder(),
    {
        let mut n: usize = 0;
        let mut i: usize = 0;
        while i < digests.len()
            invariant
                i <= digests@.len(),
                n == i,
                self.digests@ == old(self).digests@ + digests@.subrange(0, i as int),
                self.num_digests == old(self).num_digests,
                self.hash_builder == old(self).hash_builder,
            decreases digests@.len() - i,
        {
            self.digests.push(digests[i]);
            proof {
                assert(old(self).digests@ + digests@.subrange(0, i + 1) =~= (old(self).digests@
                    + digests@.subrange(0, i as int)).push(digests@[i as int]));
            }
            n = n + 1;
            i = i + 1;
        }
        proof {
            assert(digests@.subrange(0, digests@.len() as int) =~= digests@);
        }
        self.num_digests = self.num_digests.wrapping_add(n);
    }

    /// Builds the filter for the keys accumulated so far. Duplicate digests
    /// are collapsed before peeling, so the accumulated multiset builds the
    /// filter of its underlying set; every accumulated digest is contained
    /// in the result.
    pub fn build(&mut self) -> (r: Result<Xor8<H>, crate::Error>) where H: Clone
        ensures
            match r {
                Ok(f) => {
                    &&& f.wf()
                    &&& f.num_keys matches Some(n) && n as nat == old(
                        self,
                    ).spec_digests().to_set().len() && f.block_length
                        == geometry::spec_xor8_block_length(n as int)
                    &&& forall|i: int|
                        0 <= i < old(self).spec_digests().len() ==> f.spec_contains(
                            #[trigger] old(self).spec_digests()[i],
                        )
                    &&& exists|a: nat| a < 100 && f.seed == #[trigger] mix::spec_seed_chain(1, a)
                },
                Err(e) => e is Fatal,
            },
            old(self).spec_digests().len() <= 1 || (old(self).spec_digests().len() >= 1 && old(
                self,
            ).spec_digests().to_set().len() == 1) ==> r is Ok,
            old(self).spec_digests().len() == 0 ==> (r matches Ok(f) ==> forall|i: int|
                0 <= i < f.finger_prints@.len() ==> f.finger_prints@[i] == 0),
            *final(self) == *old(self),
    {
        let copied = copy_u64s(&self.digests);
        let sorted_digests = sorting::sort_digests(copied);
        let unique = sorting::dedup_sorted(&sorted_digests);
        proof {
            assert forall|x: u64| self.digests@.contains(x) <==> sorted_digests@.contains(x) by {
                self.digests@.to_multiset_ensures();
                sorted_digests@.to_multiset_ensures();
                if self.digests@.contains(x) {
                    assert(self.digests@.to_multiset().count(x) > 0);
                }
                if sorted_digests@.contains(x) {
                    assert(sorted_digests@.to_multiset().count(x) > 0);
                }
            }
            sorting::lemma_distinct_count(unique@, self.digests@);
        }
        match build_xor8_parts(unique.as_slice()) {
            Ok((seed, block_length, fp)) => {
                let f = Xor8 {
                    hash_builder: self.hash_builder.clone(),
                    seed,
                    num_keys: Some(unique.len()),
                    block_length,
                    finger_prints: Arc::new(fp),
                };
                proof {
                    assert(forall|i: int|
                        0 <= i < old(self).spec_digests().len() ==> f.spec_contains(
                            #[trigger] old(self).spec_digests()[i],
                        )) by {
                        assert(forall|i: int|
                            0 <= i < self.digests@.len() ==> unique@.contains(
                                #[trigger] self.digests@[i],
                            ));
                        assert(forall|x: u64|
                            #[trigger] unique@.contains(x) ==> f.spec_contains(x)) by {
                            assert(forall|j: int|
                                0 <= j < unique@.len() ==> f.spec_contains(#[trigger] unique@[j]));
                        }
                    }
                }
                Ok(f)
            },
            Err(e) => Err(e),
        }
    }

    /// Builds the filter for a slice of pre-computed digests, ignoring
    /// whatever was accumulated before. It is up to the caller to ensure the
    /// digests are unique: a duplicate makes every peeling attempt fail and
    /// the build return its fatal error.
    pub fn build_from_digests(&mut self, digests: &[u64]) -> (r: Result<Xor8<H>, crate::Error>) where
        H: Clone
        ensures
            match r {
                Ok(f) => {
                    &&& f.wf()
                    &&& f.num_keys == Some(digests@.len() as usize)
                    &&& f.block_length == geometry::spec_xor8_block_length(digests@.len() as int)
                    &&& forall|i: int|
                        0 <= i < digests@.len() ==> f.spec_contains(#[trigger] digests@[i])
                    &&& exists|a: nat| a < 100 && f.seed == #[trigger] mix::spec_seed_chain(1, a)
                },
                Err(e) => e is Fatal,
            },
            digests@.len() <= 1 ==> r is Ok,
            digests@.len() > 100000 ==> (r matches Ok(f) ==> 8 * f.finger_prints@.len() <= 10
                * digests@.len()),
            *final(self) == *old(self),
    {
        proof {
            if digests@.len() > 100000 {
                crate::geometry::lemma_xor8_bits_per_key(digests@.len() as int);
            }
        }
        match build_xor8_parts(digests) {
            Ok((seed, block_length, fp)) => Ok(
                Xor8 {
                    hash_builder: self.hash_builder.clone(),
                    seed,
                    num_keys: Some(digests.len()),
                    block_length,
                    finger_prints: Arc::new(fp),
                },
            ),
            Err(e) => Err(e),
        }
    }
}

impl<H: BuildHasher> Xor8Builder<H> {
    /// A fresh one-shot hasher from the stored hash builder.
    pub fn get_hasher(&self) -> H::Hasher {
        fresh_hasher(&self.hash_builder)
    }

    /// Calculates the 64-bit digest of a key under the stored hash builder.
    pub fn hash<K: Hash + ?Sized>(&self, key: &K) -> u64 {
        key_digest(&self.hash_builder, key)
    }

    /// Accumulates the digest of a single typed key.
    pub fn insert<K: Hash + ?Sized>(&mut self, key: &K)
        ensures
            exists|d: u64| final(self).spec_digests() == old(self).spec_digests().push(d),
            final(self).spec_num_digests() == vstd::wrapping::usize_specs::wrapping_add(
                old(self).spec_num_digests(),
                1,
            ),
            final(self).spec_hash_builder() == old(self).spec_hash_builder(),
    {
        let digest = key_digest(&self.hash_builder, key);
        self.digests.push(digest);
        self.num_digests = self.num_digests.wrapping_add(1);
        proof {
            assert(self.spec_digests() == old(self).spec_digests().push(digest));
        }
    }

    /// Accumulates the digests of a collection of typed keys.
    pub fn populate<K: Hash>(&mut self, keys: &[K])
        ensures
            final(self).spec_digests().len() == old(self).spec_digests().len() + keys@.len(),
            forall|p: int|
                0 <= p < old(self).spec_digests().len() ==> final(self).spec_digests()[p] == old(
                    self,
                ).spec_digests()[p],
            final(self).spec_num_digests() == vstd::wrapping::usize_specs::wrapping_add(
                old(self).spec_num_digests(),
                keys@.len() as usize,
            ),
            final(self).spec_hash_builder() == old(self).spec_hash_builder(),
    {
        let mut n: usize = 0;
        let mut i: usize = 0;
        while i < keys.len()
            invariant
                i <= keys@.len(),
                n == i,
                self.digests@.len() == old(self).digests@.len() + i,
                forall|p: int|
                    0 <= p < old(self).digests@.len() ==> self.digests@[p] == old(self).digests@[p],
                self.num_digests == old(self).num_digests,
                self.hash_builder == old(self).hash_builder,
            decreases keys@.len() - i,
        {
            let digest = key_digest(&self.hash_builder, &keys[i]);
            self.digests.push(digest);
            n = n + 1;
            i = i + 1;
        }
        self.num_digests = self.num_digests.wrapping_add(n);
    }

}

fn copy_u64s(v: &Vec<u64>) -> (r: Vec<u64>)
    ensures
        r@ == v@,
{
    let mut r: Vec<u64> = Vec::with_capacity(v.len());
    let mut i: usize = 0;
    while i < v.len()
        invariant
            i <= v@.len(),
            r@ == v@.subrange(0, i as int),
        decreases v@.len() - i,
    {
        r.push(v[i]);
        proof {
            assert(v@.subrange(0, i + 1) =~= v@.subrange(0, i as int).push(v@[i as int]));
        }
        i = i + 1;
    }
    proof {
        assert(v@.subrange(0, v@.len() as int) =~= v@);
    }
    r
}

} // verus!
