//! The binary-fuse construction shared by the 8-bit and 16-bit filters.
//!
//! A digest's mixed hash selects three slots in overlapping segments of one
//! flat array. Construction buckets the hashes by their top bits for locality,
//! then counts, per slot, the hashes that cover it — packing into one byte a
//! count and the tag of the covering position — and peels slots covered
//! exactly once, recording hash and position for the back-fill.

use vstd::prelude::*;

use crate::mix;
use crate::mix::spec_mulhi;
use vstd::arithmetic::power2::pow2;

verus! {

/// Maximum number of seeds a binary-fuse build tries before giving up;
/// running past it signals duplicate digests or a pathological input.
pub const XOR_MAX_ITERATIONS: usize = 100;

/// The splitmix64 state every binary-fuse build starts its seed chain from.
pub const FUSE_RNG_START: u64 = 0x726b2b9d438b9d4d;

/// The geometry fields of a binary-fuse filter are consistent: the segment
/// length is a power of two in its ladder range, the segment-count length is
/// the product of count and length, and the array adds two more segments
/// while staying within 32-bit indexing.
pub open spec fn spec_fuse_geom_wf(
    segment_length: u32,
    segment_count: u32,
    segment_count_length: u32,
    array_length: u32,
) -> bool {
    &&& 4 <= segment_length <= 262144
    &&& (exists|k: nat| 2 <= k <= 18 && segment_length == #[trigger] pow2(k))
    &&& segment_count >= 1
    &&& segment_count_length as int == (segment_count as int) * (segment_length as int)
    &&& array_length as int == segment_count_length as int + 2 * (segment_length as int)
}

/// The slot in the fingerprint array that position `index` of a mixed hash
/// selects: the hash is range-reduced into the segment-count window, shifted
/// by `index` segments, and its low bits are folded into the segment offset.
pub open spec fn spec_fuse_hash(index: u32, hash: u64, segment_length: u32, segment_count_length: u32) -> u64 {
    let base = (spec_mulhi(hash, segment_count_length as u64) + (index as int) * (
    segment_length as int)) as u64;
    let shift = if index == 0 {
        36u64
    } else if index == 1 {
        18u64
    } else {
        0u64
    };
    let x = ((hash & 0xf_ffff_ffff) >> shift) & ((segment_length - 1) as u64);
    base ^ x
}

/// Xor-ing a value below an aligned power of two into a slot index keeps the
/// index below the alignment boundary.
proof fn lemma_xor_stays_below(h: u64, x: u64, k: nat, m: u64)
    requires
        k <= 18,
        (m as int) % (pow2(k) as int) == 0,
        h < m,
        (x as nat) < pow2(k),
    ensures
        (h ^ x) < m,
{
    vstd::bits::lemma_u64_pow2_no_overflow(k);
    vstd::bits::lemma_u64_low_bits_mask_is_mod(m, k);
    let s: u64 = pow2(k) as u64;
    let kk: u64 = k as u64;
    vstd::bits::lemma_u64_shl_is_mul(1u64, kk);
    assert(s == (1u64 << kk));
    assert((m & (s - 1) as u64) == 0);
    assert((s & (s - 1) as u64) == 0 && s >= 1) by (bit_vector)
        requires
            s == (1u64 << kk),
            kk <= 18,
    ;
    assert((h ^ x) < m) by (bit_vector)
        requires
            s >= 1,
            (s & (s - 1) as u64) == 0,
            (m & (s - 1) as u64) == 0,
            h < m,
            x < s,
    ;
}

/// One slot of a mixed hash, as the construction and the queries compute it.
pub(crate) fn fuse_hash(index: u32, hash: u64, segment_length: u32, segment_count_length: u32) -> (r:
    u32)
    requires
        index <= 2,
        4 <= segment_length <= 262144,
        exists|k: nat| 2 <= k <= 18 && segment_length == #[trigger] pow2(k),
        segment_count_length >= 1,
        segment_count_length % segment_length == 0,
        segment_count_length as int + 2 * (segment_length as int) <= 0xffff_ffff,
    ensures
        r == spec_fuse_hash(index, hash, segment_length, segment_count_length),
        (r as int) < segment_count_length as int + (index as int) * (segment_length as int),
{
    proof {
        assert((index as int) * (segment_length as int) <= 2 * (segment_length as int))
            by (nonlinear_arith)
            requires
                index <= 2,
                segment_length >= 0,
        ;
    }
    let mh: u64 = mix::mulhi(hash, segment_count_length as u64);
    let base: u64 = mh + (index as u64) * (segment_length as u64);
    let shift: u32 = 36 - 18 * index;
    let hh: u64 = hash & 0xf_ffff_ffff;
    let seg_mask: u64 = (segment_length - 1) as u64;
    let x: u64 = (hh >> (shift as u64)) & seg_mask;
    proof {
        assert(x <= seg_mask) by (bit_vector)
            requires
                x == (hh >> (shift as u64)) & seg_mask,
        ;
    }
    let h: u64 = base ^ x;
    proof {
        let k = choose|k: nat| 2 <= k <= 18 && segment_length == #[trigger] pow2(k);
        let m: u64 = (segment_count_length as u64 + (index as u64) * (segment_length as u64)) as u64;
        assert((m as int) % (segment_length as int) == 0) by (nonlinear_arith)
            requires
                (segment_count_length as int) % (segment_length as int) == 0,
                m as int == segment_count_length as int + (index as int) * (segment_length as int),
                index <= 2,
                segment_length >= 1,
        ;
        lemma_xor_stays_below(base, x, k, m);
    }
    h as u32
}

/// The three slots of any mixed hash lie in three consecutive segments: the
/// slot of position `index` sits in segment `w + index` of the array, where
/// `w` is the segment window the hash is range-reduced into, and every slot
/// stays inside the array.
pub proof fn lemma_fuse_slot_segments(
    hash: u64,
    index: u32,
    segment_length: u32,
    segment_count: u32,
    segment_count_length: u32,
    array_length: u32,
)
    requires
        index <= 2,
        spec_fuse_geom_wf(segment_length, segment_count, segment_count_length, array_length),
    ensures
        (spec_fuse_hash(index, hash, segment_length, segment_count_length) as int) / (
        segment_length as int) == (spec_mulhi(hash, segment_count_length as u64) as int) / (
        segment_length as int) + index,
        spec_fuse_hash(index, hash, segment_length, segment_count_length) < array_length,
{
    let s = segment_length as int;
    let scl = segment_count_length as int;
    let mh = spec_mulhi(hash, segment_count_length as u64);
    assert(scl >= 4 && scl % s == 0) by (nonlinear_arith)
        requires
            scl == (segment_count as int) * s,
            segment_count >= 1,
            s >= 4,
    ;
    // the range reduction lands below the segment-count window
    assert((hash as int) * (scl as int) < 0x1_0000_0000_0000_0000 * scl) by (nonlinear_arith)
        requires
            hash < 0x1_0000_0000_0000_0000u128,
            scl >= 1,
    ;
    assert((mh as int) < scl) by (nonlinear_arith)
        requires
            mh as int == (hash as int) * scl / 0x1_0000_0000_0000_0000,
            (hash as int) * scl < 0x1_0000_0000_0000_0000 * scl,
            (hash as int) * scl >= 0,
    ;
    assert(mh as int + (index as int) * s <= scl + 2 * s - 1) by (nonlinear_arith)
        requires
            (mh as int) < scl,
            index <= 2,
            s >= 4,
    ;
    let base: u64 = (mh as int + (index as int) * s) as u64;
    let k = choose|k: nat| 2 <= k <= 18 && segment_length == #[trigger] pow2(k);
    let kk: u64 = k as u64;
    vstd::bits::lemma_u64_pow2_no_overflow(k);
    vstd::bits::lemma_u64_shl_is_mul(1u64, kk);
    let shift = if index == 0 {
        36u64
    } else {
        if index == 1 {
            18u64
        } else {
            0u64
        }
    };
    let seg_mask: u64 = ((1u64 << kk) - 1) as u64;
    let x = ((hash & 0xf_ffff_ffff) >> shift) & seg_mask;
    assert(seg_mask == (segment_length - 1) as u64);
    assert(x < (1u64 << kk)) by (bit_vector)
        requires
            x == ((hash & 0xf_ffff_ffff) >> shift) & seg_mask,
            seg_mask == ((1u64 << kk) - 1) as u64,
            kk <= 18,
    ;
    // the xor only rewrites the offset inside the slot's segment
    assert((base ^ x) >> kk == base >> kk) by (bit_vector)
        requires
            x < (1u64 << kk),
            kk <= 18,
    ;
    vstd::bits::lemma_u64_shr_is_div(base ^ x, kk);
    vstd::bits::lemma_u64_shr_is_div(base, kk);
    vstd::arithmetic::div_mod::lemma_hoist_over_denominator(mh as int, index as int, s as nat);
    // and keeps the slot below the aligned end of its segment
    assert((scl + (index as int) * s) % s == 0) by (nonlinear_arith)
        requires
            scl % s == 0,
            index <= 2,
            s >= 1,
    ;
    lemma_xor_stays_below(base, x, k, (scl + (index as int) * s) as u64);
    assert(spec_fuse_hash(index, hash, segment_length, segment_count_length) == (base ^ x));
    assert(scl + (index as int) * s <= array_length as int) by (nonlinear_arith)
        requires
            array_length as int == scl + 2 * s,
            index <= 2,
            s >= 1,
    ;
}

/// Result of one successful peeling attempt: the mixed hashes in peel order
/// and, for each, the position (0, 1 or 2) whose slot it owned exclusively.
pub(crate) struct FusePeel {
    pub stack_hash: Vec<u64>,
    pub stack_found: Vec<u8>,
}

fn make_zero_u8(n: usize) -> (r: Vec<u8>)
    ensures
        r@.len() == n,
        forall|i: int| 0 <= i < n ==> r@[i] == 0,
{
    let mut r: Vec<u8> = Vec::with_capacity(n);
    let mut i: usize = 0;
    while i < n
        invariant
            r@.len() == i,
            i <= n,
            forall|p: int| 0 <= p < i ==> r@[p] == 0,
        decreases n - i,
    {
        r.push(0);
        i = i + 1;
    }
    r
}

fn make_zero_u64(n: usize) -> (r: Vec<u64>)
    ensures
        r@.len() == n,
        forall|i: int| 0 <= i < n ==> r@[i] == 0,
{
    let mut r: Vec<u64> = Vec::with_capacity(n);
    let mut i: usize = 0;
    while i < n
        invariant
            r@.len() == i,
            i <= n,
            forall|p: int| 0 <= p < i ==> r@[p] == 0,
        decreases n - i,
    {
        r.push(0);
        i = i + 1;
    }
    r
}

fn make_zero_u32(n: usize) -> (r: Vec<u32>)
    ensures
        r@.len() == n,
        forall|i: int| 0 <= i < n ==> r@[i] == 0,
{
    let mut r: Vec<u32> = Vec::with_capacity(n);
    let mut i: usize = 0;
    while i < n
        invariant
            r@.len() == i,
            i <= n,
            forall|p: int| 0 <= p < i ==> r@[p] == 0,
        decreases n - i,
    {
        r.push(0);
        i = i + 1;
    }
    r
}

/// One peeling attempt under one seed. `None` reports an attempt that could
/// not peel every digest, which the caller answers by reseeding and retrying.
///
/// On success the returned stacks hold one entry per digest: the mixed hash
/// and the position tag, always 0, 1 or 2, of the slot it owned.
pub(crate) fn fuse_peel_once(
    digests: &[u64],
    seed: u64,
    segment_length: u32,
    segment_count: u32,
    segment_count_length: u32,
    array_length: u32,
) -> (r: Option<FusePeel>)
    requires
        spec_fuse_geom_wf(segment_length, segment_count, segment_count_length, array_length),
        digests@.len() < 0xffff_ffff,
    ensures
        r matches Some(peel) ==> {
            &&& peel.stack_hash@.len() == digests@.len()
            &&& peel.stack_found@.len() == digests@.len()
            &&& forall|p: int| 0 <= p < peel.stack_found@.len() ==> peel.stack_found@[p] <= 2
        },
        digests@.len() == 0 ==> r is Some,
        digests@.len() == 1 ==> (r matches Some(peel) && peel.stack_hash@.len() == 1
            && peel.stack_hash@[0] == crate::mix::spec_mix(digests@[0], seed)
            && peel.stack_found@[0] == 2),
{
    let size: usize = digests.len();
    let capacity: usize = array_length as usize;
    if size == 0 {
        // An empty digest set peels trivially.
        return Some(FusePeel { stack_hash: Vec::new(), stack_found: Vec::new() });
    }
    if size == 1 {
        // A single digest peels at once: its three slots sit in consecutive
        // segments, each covered exactly once, and the drain pops the
        // highest slot — position 2 — first.
        let h = crate::mix::mixsplit(digests[0], seed);
        let mut stack_hash: Vec<u64> = Vec::new();
        stack_hash.push(h);
        let mut stack_found: Vec<u8> = Vec::new();
        stack_found.push(2);
        return Some(FusePeel { stack_hash, stack_found });
    }

    let mut reverse_order: Vec<u64> = make_zero_u64(size + 1);
    reverse_order.set(size, 1);
    let mut t2count: Vec<u8> = make_zero_u8(capacity);
    let mut t2hash: Vec<u64> = make_zero_u64(capacity);

    let mut block_bits: u32 = 1;
    while block_bits < 31 && (1u32 << block_bits) < segment_count
        invariant
            1 <= block_bits <= 31,
        decreases 31 - block_bits,
    {
        block_bits = block_bits + 1;
    }
    let block: u32 = 1u32 << block_bits;
    proof {
        assert(1u32 << block_bits >= 1 && (1u32 << block_bits) <= 0x8000_0000u32 && ((1u32
            << block_bits) as u64) == (1u64 << (block_bits as u64))) by (bit_vector)
            requires
                1 <= block_bits <= 31u32,
        ;
        assert((segment_count_length as int) % (segment_length as int) == 0) by (nonlinear_arith)
            requires
                segment_count_length as int == (segment_count as int) * (segment_length as int),
                segment_length >= 1,
        ;
        assert(segment_count_length >= 1) by (nonlinear_arith)
            requires
                segment_count_length as int == (segment_count as int) * (segment_length as int),
                segment_count >= 1,
                segment_length >= 4,
        ;
    }
    let mut start_pos: Vec<u32> = make_zero_u32(block as usize);
    let mut bi: usize = 0;
    while bi < block as usize
        invariant
            start_pos@.len() == block,
            bi <= block,
            block == 1u32 << block_bits,
            (block as u64) == (1u64 << (block_bits as u64)),
            block <= 0x8000_0000,
            1 <= block_bits <= 31,
            size < 0xffff_ffff,
            forall|p: int| 0 <= p < bi ==> (#[trigger] start_pos@[p]) <= size,
            forall|p: int| bi <= p < block ==> (#[trigger] start_pos@[p]) == 0,
        decreases block - bi,
    {
        proof {
            assert((bi as int) * (size as int) <= 0x8000_0000 * 0xffff_ffff) by (nonlinear_arith)
                requires
                    bi <= 0x8000_0000,
                    size <= 0xffff_ffff,
            ;
        }
        let prod: u64 = (bi as u64) * (size as u64);
        let wide: u64 = prod >> block_bits;
        proof {
            vstd::bits::lemma_u64_shr_is_div(prod, block_bits as u64);
            vstd::bits::lemma_u64_pow2_no_overflow(block_bits as nat);
            vstd::bits::lemma_u64_shl_is_mul(1u64, block_bits as u64);
            let d = vstd::arithmetic::power2::pow2(block_bits as nat) as int;
            assert(block as int == d);
            assert(prod as int <= d * (size as int)) by (nonlinear_arith)
                requires
                    prod as int == (bi as int) * (size as int),
                    bi < d,
                    size >= 0,
                    d >= 1,
            ;
            vstd::arithmetic::div_mod::lemma_div_is_ordered(prod as int, d * (size as int), d);
            vstd::arithmetic::div_mod::lemma_div_multiples_vanish(size as int, d);
            assert(wide <= size as u64);
        }
        start_pos.set(bi, wide as u32);
        bi = bi + 1;
    }

    // Bucket the mixed hashes by their top bits, probing forward on
    // collision; the sentinel past the last slot stops every probe run. The
    // step budget covers all reachable probing and serves the termination
    // argument.
    let mask_block: u64 = (block - 1) as u64;
    proof {
        assert(((size as int) + 2) * ((block as int) + 2) <= 0x1_0000_0001 * 0x80_000_002)
            by (nonlinear_arith)
            requires
                size < 0xffff_ffff,
                block <= 0x8000_0000,
        ;
    }
    let probe_budget: u128 = (size as u128 + 2) * (block as u128 + 2);
    let mut probe_steps: u128 = 0;
    let mut pi: usize = 0;
    while pi < size
        invariant
            size == digests@.len(),
            size >= 2,
            size < 0xffff_ffff,
            reverse_order@.len() == size + 1,
            reverse_order@[size as int] == 1,
            start_pos@.len() == block,
            block == 1u32 << block_bits,
            (block as u64) == (1u64 << (block_bits as u64)),
            block <= 0x8000_0000,
            1 <= block_bits <= 31,
            mask_block == (block - 1) as u64,
            pi <= size,
            probe_steps <= probe_budget,
            forall|p: int| 0 <= p < block ==> (#[trigger] start_pos@[p]) <= size,
        decreases size - pi,
    {
        let hash: u64 = mix::mixsplit(digests[pi], seed);
        let mut segment_index: u64 = hash >> ((64 - block_bits) as u64);
        proof {
            assert(hash >> ((64 - block_bits) as u64) < (1u64 << (block_bits as u64)))
                by (bit_vector)
                requires
                    1 <= block_bits <= 31u32,
            ;
        }
        let mut placed: bool = false;
        while !placed && probe_steps < probe_budget
            invariant
                size == digests@.len(),
                size >= 2,
                size < 0xffff_ffff,
                reverse_order@.len() == size + 1,
                reverse_order@[size as int] == 1,
                start_pos@.len() == block,
                block == 1u32 << block_bits,
                (block as u64) == (1u64 << (block_bits as u64)),
                1 <= block_bits <= 31,
                mask_block == (block - 1) as u64,
                segment_index < block,
                probe_steps <= probe_budget,
                forall|p: int| 0 <= p < block ==> (#[trigger] start_pos@[p]) <= size,
            decreases probe_budget - probe_steps,
        {
            probe_steps = probe_steps + 1;
            let pos = start_pos[segment_index as usize] as usize;
            if reverse_order[pos] != 0 {
                let si1: u64 = segment_index + 1;
                let next = si1 & mask_block;
                proof {
                    assert(next < (1u64 << (block_bits as u64))) by (bit_vector)
                        requires
                            next == si1 & mask_block,
                            mask_block == (((1u32 << block_bits) - 1) as u64),
                            ((1u32 << block_bits) as u64) == (1u64 << (block_bits as u64)),
                            segment_index < 0x1_0000_0000_0000u64,
                            1 <= block_bits <= 31u32,
                    ;
                }
                segment_index = next;
            } else {
                reverse_order.set(pos, hash);
                start_pos.set(segment_index as usize, (pos + 1) as u32);
                placed = true;
            }
        }
        if !placed {
            // The probe budget ran out: abandon this seed.
            return None;
        }
        pi = pi + 1;
    }

    // Count the covering hashes per slot: four per cover in the high bits,
    // and the position tags folded into the low two bits.
    let mut error: bool = false;
    let mut ci: usize = 0;
    while ci < size
        invariant
            size < 0xffff_ffff,
            reverse_order@.len() == size + 1,
            t2count@.len() == capacity,
            t2hash@.len() == capacity,
            capacity == array_length,
            spec_fuse_geom_wf(segment_length, segment_count, segment_count_length, array_length),
            segment_count_length >= 1,
            segment_count_length % segment_length == 0,
            ci <= size,
        decreases size - ci,
    {
        let hash: u64 = reverse_order[ci];
        let h0 = fuse_hash(0, hash, segment_length, segment_count_length) as usize;
        t2count.set(h0, t2count[h0].wrapping_add(4));
        t2hash.set(h0, t2hash[h0] ^ hash);
        let h1 = fuse_hash(1, hash, segment_length, segment_count_length) as usize;
        t2count.set(h1, t2count[h1].wrapping_add(4) ^ 1);
        t2hash.set(h1, t2hash[h1] ^ hash);
        let h2 = fuse_hash(2, hash, segment_length, segment_count_length) as usize;
        t2count.set(h2, t2count[h2].wrapping_add(4) ^ 2);
        t2hash.set(h2, t2hash[h2] ^ hash);
        if t2count[h0] < 4 || t2count[h1] < 4 || t2count[h2] < 4 {
            error = true;
        }
        ci = ci + 1;
    }
    if error {
        // A slot's count overflowed: far too many covers, abandon the seed.
        return None;
    }

    // Queue the slots covered exactly once.
    let mut alone: Vec<u32> = Vec::with_capacity(capacity);
    let mut ai: usize = 0;
    while ai < capacity
        invariant
            t2count@.len() == capacity,
            capacity == array_length,
            ai <= capacity,
            forall|p: int| 0 <= p < alone@.len() ==> (#[trigger] alone@[p]) < array_length,
        decreases capacity - ai,
    {
        if (t2count[ai] >> 2) == 1 {
            alone.push(ai as u32);
        }
        ai = ai + 1;
    }

    // Peel: pop a once-covered slot, recover its hash and position tag, and
    // remove the hash from its two partner slots, queueing any partner whose
    // count falls to one. The step budget covers the initial queue and two
    // partner visits per peeled digest.
    let mut stack_hash: Vec<u64> = Vec::with_capacity(size);
    let mut stack_found: Vec<u8> = Vec::with_capacity(size);
    let drain_budget: u64 = (array_length as u64) + 2 * (size as u64) + 4;
    let mut drain_steps: u64 = 0;
    while alone.len() > 0 && drain_steps < drain_budget
        invariant
            size == digests@.len(),
            size >= 2,
            size < 0xffff_ffff,
            t2count@.len() == capacity,
            t2hash@.len() == capacity,
            capacity == array_length,
            spec_fuse_geom_wf(segment_length, segment_count, segment_count_length, array_length),
            segment_count_length >= 1,
            segment_count_length % segment_length == 0,
            drain_steps <= drain_budget,
            stack_hash@.len() == stack_found@.len(),
            forall|p: int| 0 <= p < alone@.len() ==> (#[trigger] alone@[p]) < array_length,
            forall|p: int| 0 <= p < stack_found@.len() ==> (#[trigger] stack_found@[p]) <= 2,
        decreases drain_budget - drain_steps,
    {
        drain_steps = drain_steps + 1;
        let index = alone.pop().unwrap() as usize;
        if (t2count[index] >> 2) == 1 {
            let hash: u64 = t2hash[index];
            let found: u8 = t2count[index] & 3;
            if found > 2 {
                // A tag outside the three positions means the slot state is
                // inconsistent: abandon this seed.
                return None;
            }
            stack_hash.push(hash);
            stack_found.push(found);

            let p1 = mix::fuse_mod3(found + 1);
            let other_index1 = fuse_hash(p1 as u32, hash, segment_length, segment_count_length)
                as usize;
            proof {
                assert((p1 as int) * (segment_length as int) <= 2 * (segment_length as int))
                    by (nonlinear_arith)
                    requires
                        p1 <= 2,
                        segment_length >= 0,
                ;
            }
            if (t2count[other_index1] >> 2) == 2 {
                alone.push(other_index1 as u32);
            }
            t2count.set(other_index1, t2count[other_index1].wrapping_sub(4) ^ mix::fuse_mod3(found + 1));
            t2hash.set(other_index1, t2hash[other_index1] ^ hash);

            let p2 = mix::fuse_mod3(found + 2);
            let other_index2 = fuse_hash(p2 as u32, hash, segment_length, segment_count_length)
                as usize;
            proof {
                assert((p2 as int) * (segment_length as int) <= 2 * (segment_length as int))
                    by (nonlinear_arith)
                    requires
                        p2 <= 2,
                        segment_length >= 0,
                ;
            }
            if (t2count[other_index2] >> 2) == 2 {
                alone.push(other_index2 as u32);
            }
            t2count.set(other_index2, t2count[other_index2].wrapping_sub(4) ^ mix::fuse_mod3(found + 2));
            t2hash.set(other_index2, t2hash[other_index2] ^ hash);
        }
    }

    if stack_hash.len() == size {
        Some(FusePeel { stack_hash, stack_found })
    } else {
        None
    }
}


/// The planned number of inner segments for `size` keys, exactly as
/// `fuse_geometry` computes it wherever the 32-bit sizing arithmetic has
/// headroom — the planned budget plus two segments within the index space,
/// which only key counts in the billions leave.
pub open spec fn spec_fuse_segment_count(size: u32) -> int {
    let seg = crate::geometry::spec_fuse_segment_length(size) as int;
    let cap = crate::geometry::spec_fuse_capacity(size as int);
    if cap == 0 {
        1
    } else {
        let t = (cap + seg - 1) / seg;
        let sc = if t <= 2 {
            1
        } else {
            t - 2
        };
        let maxc = (0xffff_ffff - 2 * seg) / seg;
        if sc > maxc {
            maxc
        } else {
            sc
        }
    }
}

/// The planned fingerprint-array length for `size` keys: the inner segments
/// plus two segments of slack.
pub open spec fn spec_fuse_array_length(size: u32) -> int {
    spec_fuse_segment_count(size) * (crate::geometry::spec_fuse_segment_length(size) as int) + 2 * (
    crate::geometry::spec_fuse_segment_length(size) as int)
}

/// The planned geometry of a binary-fuse filter.
pub(crate) struct FuseGeometry {
    pub segment_length: u32,
    pub segment_length_mask: u32,
    pub segment_count: u32,
    pub segment_count_length: u32,
    pub array_length: u32,
}

/// Plans the geometry for `size` keys: the ladder picks the segment length,
/// the fixed-point size factor the budget, and the segment count follows
/// with two extra segments of slack, never overrunning 32-bit indexing.
pub(crate) fn fuse_geometry(size: u32) -> (g: FuseGeometry)
    ensures
        spec_fuse_geom_wf(g.segment_length, g.segment_count, g.segment_count_length, g.array_length),
        g.segment_length == crate::geometry::spec_fuse_segment_length(size),
        g.segment_length_mask == g.segment_length - 1,
        crate::geometry::spec_fuse_capacity(size as int) + 2 * (
        crate::geometry::spec_fuse_segment_length(size) as int) <= 0xffff_ffff ==> {
            &&& g.segment_count as int == spec_fuse_segment_count(size)
            &&& g.array_length as int == spec_fuse_array_length(size)
        },
        size > 100000 ==> 16 * (g.array_length as int) <= 20 * (size as int),
{
    let segment_length: u32 = crate::geometry::fuse_segment_length(size);
    proof {
        crate::geometry::lemma_fuse_segment_length_pow2(size);
    }
    let segment_length_mask: u32 = segment_length - 1;
    let cap64: u64 = crate::geometry::fuse_capacity(size);
    let capu: u32 = cap64 as u32;
    let n: u32 = (capu.wrapping_add(segment_length).wrapping_sub(1) / segment_length).wrapping_sub(
        2,
    );
    let m: u32 = n.wrapping_add(3).wrapping_sub(1).wrapping_mul(segment_length);
    let sc0: u32 = m.wrapping_add(segment_length).wrapping_sub(1) / segment_length;
    let mut segment_count: u32 = if sc0 <= 2 {
        1
    } else {
        sc0 - 2
    };
    // Keep three segments' worth of slots addressable in 32 bits; real key
    // counts never reach this clamp.
    let max_count: u32 = (0xffff_ffffu32 - 2 * segment_length) / segment_length;
    proof {
        vstd::arithmetic::div_mod::lemma_div_is_ordered(
            segment_length as int,
            0xffff_ffff - 2 * (segment_length as int),
            segment_length as int,
        );
        vstd::arithmetic::div_mod::lemma_div_by_self(segment_length as int);
    }
    if segment_count > max_count {
        segment_count = max_count;
    }
    proof {
        vstd::arithmetic::div_mod::lemma_fundamental_div_mod(
            0xffff_ffff - 2 * (segment_length as int),
            segment_length as int,
        );
        assert((segment_count as int) * (segment_length as int) <= 0xffff_ffff - 2 * (
        segment_length as int)) by (nonlinear_arith)
            requires
                segment_count <= max_count,
                segment_length >= 1,
                (max_count as int) * (segment_length as int) <= 0xffff_ffff - 2 * (
                segment_length as int),
        ;
        assert((max_count as int) * (segment_length as int) <= 0xffff_ffff - 2 * (
        segment_length as int)) by (nonlinear_arith)
            requires
                segment_length >= 1,
                0xffff_ffff - 2 * (segment_length as int) == (segment_length as int) * (
                max_count as int) + (0xffff_ffff - 2 * (segment_length as int)) % (
                segment_length as int),
                (0xffff_ffff - 2 * (segment_length as int)) % (segment_length as int) >= 0,
        ;
        assert((segment_count as int) * (segment_length as int) <= 0xffff_ffff);
    }
    let segment_count_length: u32 = segment_count * segment_length;
    let array_length: u32 = segment_count_length + 2 * segment_length;
    proof {
        if crate::geometry::spec_fuse_capacity(size as int) + 2 * (
        crate::geometry::spec_fuse_segment_length(size) as int) <= 0xffff_ffff {
            lemma_fuse_geometry_exact(
                size,
                segment_length,
                cap64,
                capu,
                n,
                m,
                sc0,
                segment_count,
                max_count,
            );
        }
        if size > 100000 {
            lemma_fuse_geometry_bound(
                size,
                segment_length,
                cap64,
                capu,
                n,
                m,
                sc0,
                segment_count,
                max_count,
                segment_count_length,
                array_length,
            );
        }
    }
    FuseGeometry { segment_length, segment_length_mask, segment_count, segment_count_length, array_length }
}

/// Wherever the 32-bit sizing arithmetic has headroom — the planned budget
/// plus two segments within the index space — the computed segment count is
/// exactly the planned one.
proof fn lemma_fuse_geometry_exact(
    size: u32,
    segment_length: u32,
    cap64: u64,
    capu: u32,
    n: u32,
    m: u32,
    sc0: u32,
    segment_count: u32,
    max_count: u32,
)
    requires
        4 <= segment_length <= 262144,
        segment_length == crate::geometry::spec_fuse_segment_length(size),
        cap64 as int == crate::geometry::spec_fuse_capacity(size as int),
        cap64 <= 0xffff_ffff,
        (cap64 as int) + 2 * (segment_length as int) <= 0xffff_ffff,
        capu == cap64 as u32,
        n == vstd::wrapping::u32_specs::wrapping_sub(
            vstd::wrapping::u32_specs::wrapping_sub(
                vstd::wrapping::u32_specs::wrapping_add(capu, segment_length),
                1,
            ) / segment_length,
            2,
        ),
        m == vstd::wrapping::u32_specs::wrapping_mul(
            vstd::wrapping::u32_specs::wrapping_sub(
                vstd::wrapping::u32_specs::wrapping_add(n, 3),
                1,
            ),
            segment_length,
        ),
        sc0 == vstd::wrapping::u32_specs::wrapping_sub(
            vstd::wrapping::u32_specs::wrapping_add(m, segment_length),
            1,
        ) / segment_length,
        segment_count == (if (if sc0 <= 2 {
            1u32
        } else {
            (sc0 - 2) as u32
        }) > max_count {
            max_count
        } else {
            (if sc0 <= 2 {
                1u32
            } else {
                (sc0 - 2) as u32
            })
        }),
        max_count as int == (0xffff_ffff - 2 * (segment_length as int)) / (segment_length as int),
    ensures
        segment_count as int == spec_fuse_segment_count(size),
{
    let seg = segment_length as int;
    let cap = capu as int;
    assert(cap == cap64 as int);
    // three segments always leave a positive clamp
    vstd::arithmetic::div_mod::lemma_div_is_ordered(seg, 0xffff_ffff - 2 * seg, seg);
    vstd::arithmetic::div_mod::lemma_div_by_self(seg);
    assert(max_count >= 1);
    if capu == 0 {
        vstd::arithmetic::div_mod::lemma_basic_div(seg - 1, seg);
        assert(n == 0xffff_fffeu32);
        assert(m == 0);
        assert(sc0 == 0);
        assert(segment_count == 1);
    } else {
        let x = cap + seg - 1;
        let t = x / seg;
        vstd::arithmetic::div_mod::lemma_fundamental_div_mod(x, seg);
        vstd::arithmetic::div_mod::lemma_div_is_ordered(seg, x, seg);
        assert(t >= 1);
        assert(t * seg <= x) by (nonlinear_arith)
            requires
                x == seg * t + x % seg,
                x % seg >= 0,
        ;
        assert(t <= x);
        if t >= 3 {
            assert(n == t - 2);
            assert(m == t * seg) by (nonlinear_arith)
                requires
                    n == t - 2,
                    m == vstd::wrapping::u32_specs::wrapping_mul(
                        vstd::wrapping::u32_specs::wrapping_sub(
                            vstd::wrapping::u32_specs::wrapping_add(n, 3),
                            1,
                        ),
                        segment_length,
                    ),
                    t * seg <= x,
                    x <= 0xffff_ffff,
                    t >= 3,
                    seg == segment_length as int,
                    3 <= t <= 0xffff_ffff,
            ;
            vstd::arithmetic::div_mod::lemma_fundamental_div_mod_converse_div(
                t * seg + seg - 1,
                seg,
                t,
                seg - 1,
            );
            assert(sc0 == t);
            // the clamp cannot fire: the inner segments stay under the cap
            vstd::arithmetic::div_mod::lemma_div_is_ordered(
                (t - 2) * seg,
                0xffff_ffff - 2 * seg,
                seg,
            );
            vstd::arithmetic::div_mod::lemma_div_multiples_vanish(t - 2, seg);
            assert((t - 2) * seg <= 0xffff_ffff - 2 * seg) by (nonlinear_arith)
                requires
                    t * seg <= x,
                    x == cap + seg - 1,
                    cap + 2 * seg <= 0xffff_ffff,
                    seg >= 4,
            ;
            assert(((t - 2) * seg) / seg == t - 2) by {
                assert((t - 2) * seg == seg * (t - 2));
            }
            assert(t - 2 <= max_count);
            assert(segment_count as int == t - 2);
        } else if t == 2 {
            assert(n == 0);
            assert(m == 2 * segment_length);
            vstd::arithmetic::div_mod::lemma_fundamental_div_mod_converse_div(
                2 * seg + seg - 1,
                seg,
                2,
                seg - 1,
            );
            assert(sc0 == 2);
            assert(segment_count == 1);
        } else {
            assert(t == 1);
            assert(n == 0xffff_ffffu32);
            assert(m == segment_length);
            vstd::arithmetic::div_mod::lemma_fundamental_div_mod_converse_div(
                seg + seg - 1,
                seg,
                1,
                seg - 1,
            );
            assert(sc0 == 1);
            assert(segment_count == 1);
        }
    }
}

/// Past a hundred thousand keys the planned array stays within twenty
/// sixteenths of the key count, which bounds both fuse filters' bits per key.
proof fn lemma_fuse_geometry_bound(
    size: u32,
    segment_length: u32,
    cap64: u64,
    capu: u32,
    n: u32,
    m: u32,
    sc0: u32,
    segment_count: u32,
    max_count: u32,
    segment_count_length: u32,
    array_length: u32,
)
    requires
        size > 100000,
        4 <= segment_length <= 262144,
        segment_length == crate::geometry::spec_fuse_segment_length(size),
        size as int <= cap64 as int <= 0xffff_ffff,
        100000 < size < 1000000 ==> 16 * (cap64 as int) <= 19 * (size as int) + 16,
        size >= 1000000 ==> cap64 as int <= (9 * (size as int) + 4) / 8,
        capu == cap64 as u32,
        n == vstd::wrapping::u32_specs::wrapping_sub(
            vstd::wrapping::u32_specs::wrapping_sub(
                vstd::wrapping::u32_specs::wrapping_add(capu, segment_length),
                1,
            ) / segment_length,
            2,
        ),
        m == vstd::wrapping::u32_specs::wrapping_mul(
            vstd::wrapping::u32_specs::wrapping_sub(
                vstd::wrapping::u32_specs::wrapping_add(n, 3),
                1,
            ),
            segment_length,
        ),
        sc0 == vstd::wrapping::u32_specs::wrapping_sub(
            vstd::wrapping::u32_specs::wrapping_add(m, segment_length),
            1,
        ) / segment_length,
        segment_count == (if (if sc0 <= 2 {
            1u32
        } else {
            (sc0 - 2) as u32
        }) > max_count {
            max_count
        } else {
            (if sc0 <= 2 {
                1u32
            } else {
                (sc0 - 2) as u32
            })
        }),
        max_count as int == (0xffff_ffff - 2 * (segment_length as int)) / (segment_length as int),
        segment_count_length == segment_count * segment_length,
        array_length as int == segment_count_length as int + 2 * (segment_length as int),
    ensures
        16 * (array_length as int) <= 20 * (size as int),
{
    let s = size as int;
    let seg = segment_length as int;
    let cap = capu as int;
    crate::geometry::lemma_fuse_segment_length_fraction(size);
    assert(30 * seg <= s);
    assert(cap == cap64 as int);
    // the planner's budget plus one segment stays within twenty sixteenths
    assert(16 * cap + 16 * seg <= 20 * s + 16) by {
        assert(16 * seg <= s);
        if size < 1000000 {
            assert(16 * cap <= 19 * s + 16);
        } else {
            vstd::arithmetic::div_mod::lemma_fundamental_div_mod(9 * s + 4, 8);
            assert(16 * cap <= 18 * s + 8);
        }
    }
    if cap + 2 * seg <= 0xffff_ffff {
        // No step of the sizing arithmetic wraps on this path.
        let x = cap + seg - 1;
        let t = x / seg;
        vstd::arithmetic::div_mod::lemma_fundamental_div_mod(x, seg);
        vstd::arithmetic::div_mod::lemma_div_multiples_vanish(30, seg);
        vstd::arithmetic::div_mod::lemma_div_is_ordered(30 * seg, x, seg);
        assert(30 * seg <= x);
        assert((30 * seg) / seg == 30) by {
            assert(30 * seg == seg * 30);
        }
        assert(t >= 30);
        assert(t * seg <= x) by (nonlinear_arith)
            requires
                x == seg * t + x % seg,
                x % seg >= 0,
        ;
        assert(n == t - 2);
        assert(m == t * seg) by (nonlinear_arith)
            requires
                n == t - 2,
                m == vstd::wrapping::u32_specs::wrapping_mul(
                    vstd::wrapping::u32_specs::wrapping_sub(
                        vstd::wrapping::u32_specs::wrapping_add(n, 3),
                        1,
                    ),
                    segment_length,
                ),
                t * seg <= x,
                x <= 0xffff_ffff,
                t >= 30,
                seg == segment_length as int,
                2 <= t <= 0xffff_ffff,
        ;
        vstd::arithmetic::div_mod::lemma_fundamental_div_mod_converse_div(
            t * seg + seg - 1,
            seg,
            t,
            seg - 1,
        );
        assert(sc0 == t);
        assert(segment_count as int == t - 2 || segment_count == max_count);
        // the clamp cannot fire here
        vstd::arithmetic::div_mod::lemma_fundamental_div_mod(0xffff_ffff - 2 * seg, seg);
        vstd::arithmetic::div_mod::lemma_div_multiples_vanish(t - 2, seg);
        vstd::arithmetic::div_mod::lemma_div_is_ordered((t - 2) * seg, 0xffff_ffff - 2 * seg, seg);
        assert((t - 2) * seg <= 0xffff_ffff - 2 * seg) by (nonlinear_arith)
            requires
                t * seg <= x,
                x == cap + seg - 1,
                cap + 2 * seg <= 0xffff_ffff,
                seg >= 4,
        ;
        assert(((t - 2) * seg) / seg == t - 2) by {
            assert((t - 2) * seg == seg * (t - 2));
        }
        assert(t - 2 <= max_count);
        assert(segment_count as int == t - 2);
        assert(segment_count_length as int == (t - 2) * seg) by (nonlinear_arith)
            requires
                segment_count_length == segment_count * segment_length,
                segment_count as int == t - 2,
                seg == segment_length as int,
        ;
        assert(array_length as int == (t - 2) * seg + 2 * seg);
        assert(array_length as int <= cap + seg - 1) by (nonlinear_arith)
            requires
                array_length as int == (t - 2) * seg + 2 * seg,
                t * seg <= cap + seg - 1,
        ;
        assert(16 * (array_length as int) <= 16 * cap + 16 * seg - 16);
        assert(16 * (array_length as int) <= 20 * s);
    } else {
        // The capacity is saturated near the 32-bit limit, so the key count
        // is in the billions and any 32-bit array length is within bound.
        assert(size >= 1000000) by {
            if size < 1000000 {
                assert(16 * cap <= 19 * s + 16);
            }
        }
        assert(cap > 0xffff_ffff - 2 * seg);
        assert(16 * cap <= 18 * s + 8);
        assert(s >= 3817282673);
        assert(array_length as int <= 0xffff_ffff);
    }
}

} // verus!
