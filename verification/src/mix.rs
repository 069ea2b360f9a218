//! The 64-bit mixing primitives shared by every filter family.
//!
//! All of them are pure functions on unsigned integers with wrap-on-overflow
//! semantics; each executable function is pinned to a spec function that
//! states its value exactly.

use vstd::prelude::*;

verus! {

use vstd::wrapping::u64_specs;

/// First multiplier of the murmur finalizer.
pub const MURMUR_C1: u64 = 0xff51_afd7_ed55_8ccd;

/// Second multiplier of the murmur finalizer.
pub const MURMUR_C2: u64 = 0xc4ce_b9fe_1a85_ec53;

/// Increment of the splitmix64 state.
pub const SPLITMIX_GAMMA: u64 = 0x9E37_79B9_7F4A_7C15;

/// First splitmix64 mixing constant.
pub const SPLITMIX_C1: u64 = 0xBF58_476D_1CE4_E5B9;

/// Second splitmix64 mixing constant.
pub const SPLITMIX_C2: u64 = 0x94D0_49BB_1331_11EB;

/// The murmur64 finalizer: three xor-shifts interleaved with two wrapping
/// multiplications.
pub open spec fn spec_murmur64(h: u64) -> u64 {
    let x1 = h ^ (h >> 33u64);
    let x2 = u64_specs::wrapping_mul(x1, MURMUR_C1);
    let x3 = x2 ^ (x2 >> 33u64);
    let x4 = u64_specs::wrapping_mul(x3, MURMUR_C2);
    x4 ^ (x4 >> 33u64)
}

/// Mixing of a digest with the filter seed: murmur64 over their wrapping sum.
pub open spec fn spec_mix(key: u64, seed: u64) -> u64 {
    spec_murmur64(u64_specs::wrapping_add(key, seed))
}

/// The state that one splitmix64 step leaves behind.
pub open spec fn spec_splitmix64_next(state: u64) -> u64 {
    u64_specs::wrapping_add(state, SPLITMIX_GAMMA)
}

/// The value that one splitmix64 step yields, as the classical generator
/// computes it: two xor-shifts each followed by a wrapping multiplication.
pub open spec fn spec_splitmix64_out(state: u64) -> u64 {
    let s = spec_splitmix64_next(state);
    let z1 = u64_specs::wrapping_mul(s ^ (s >> 30u64), SPLITMIX_C1);
    let z2 = u64_specs::wrapping_mul(z1 ^ (z1 >> 27u64), SPLITMIX_C2);
    z2 ^ (z2 >> 31u64)
}

/// The state the splitmix64 chain reaches after `k` advances from `start`.
pub open spec fn spec_splitmix64_state(start: u64, k: nat) -> u64
    decreases k,
{
    if k == 0 {
        start
    } else {
        spec_splitmix64_next(spec_splitmix64_state(start, (k - 1) as nat))
    }
}

/// The `k`-th value the splitmix64 chain from `start` yields.
pub open spec fn spec_seed_chain(start: u64, k: nat) -> u64 {
    spec_splitmix64_out(spec_splitmix64_state(start, k))
}

/// Fingerprint of a mixed hash: the hash folded onto its low half.
pub open spec fn spec_fingerprint(hash: u64) -> u64 {
    hash ^ (hash >> 32u64)
}

/// Fast-range reduction of a 32-bit value into `[0, n)`.
pub open spec fn spec_reduce(hash: u32, n: u32) -> u32 {
    (((hash as int) * (n as int)) / 0x1_0000_0000) as u32
}

/// The upper 64 bits of the 128-bit product of two 64-bit values.
pub open spec fn spec_mulhi(a: u64, b: u64) -> u64 {
    (((a as int) * (b as int)) / 0x1_0000_0000_0000_0000) as u64
}

/// Rotation of `h` left by `c` bits, for `0 < c < 64`.
pub open spec fn spec_rotl64(h: u64, c: u64) -> u64 {
    (h << c) | (h >> ((64 - c) as u64))
}

pub(crate) fn murmur64(mut h: u64) -> (r: u64)
    ensures
        r == spec_murmur64(h),
{
    h ^= h >> 33;
    h = h.wrapping_mul(MURMUR_C1);
    h ^= h >> 33;
    h = h.wrapping_mul(MURMUR_C2);
    h ^= h >> 33;
    h
}

/// Returns the next value of the seed chain, advancing the state.
pub(crate) fn splitmix64(seed: &mut u64) -> (r: u64)
    ensures
        *final(seed) == spec_splitmix64_next(*old(seed)),
        r == spec_splitmix64_out(*old(seed)),
{
    *seed = (*seed).wrapping_add(SPLITMIX_GAMMA);
    let mut z = *seed;
    z = (z ^ (z >> 30)).wrapping_mul(SPLITMIX_C1);
    z = (z ^ (z >> 27)).wrapping_mul(SPLITMIX_C2);
    z ^ (z >> 31)
}

pub(crate) fn mixsplit(key: u64, seed: u64) -> (r: u64)
    ensures
        r == spec_mix(key, seed),
{
    murmur64(key.wrapping_add(seed))
}

pub(crate) fn reduce(hash: u32, n: u32) -> (r: u32)
    ensures
        r == spec_reduce(hash, n),
        n > 0 ==> r < n,
{
    proof {
        assert((hash as int) * (n as int) < 0x1_0000_0000_0000_0000) by (nonlinear_arith)
            requires
                hash < 0x1_0000_0000u64,
                n < 0x1_0000_0000u64,
        ;
    }
    let wide: u64 = (hash as u64) * (n as u64);
    let shifted: u64 = wide >> 32;
    proof {
        vstd::bits::lemma_u64_shr_is_div(wide, 32);
        vstd::arithmetic::power2::lemma2_to64();
        assert(n > 0 ==> (hash as int) * (n as int) < 0x1_0000_0000 * (n as int))
            by (nonlinear_arith)
            requires
                hash < 0x1_0000_0000u64,
        ;
        assert(n > 0 ==> (hash as int) * (n as int) / 0x1_0000_0000 < n as int)
            by (nonlinear_arith)
            requires
                n == 0 || (hash as int) * (n as int) < 0x1_0000_0000 * (n as int),
                (hash as int) * (n as int) >= 0,
        ;
    }
    shifted as u32
}

pub(crate) fn fingerprint(hash: u64) -> (r: u64)
    ensures
        r == spec_fingerprint(hash),
{
    hash ^ (hash >> 32)
}

/// The upper 64 bits of the 128-bit product, as the binary-fuse slot
/// functions use it.
pub(crate) fn mulhi(a: u64, b: u64) -> (r: u64)
    ensures
        r == spec_mulhi(a, b),
        b > 0 ==> r < b,
{
    proof {
        assert((a as int) * (b as int) < 0x1_0000_0000_0000_0000_0000_0000_0000_0000)
            by (nonlinear_arith)
            requires
                a < 0x1_0000_0000_0000_0000u128,
                b < 0x1_0000_0000_0000_0000u128,
        ;
    }
    let wide: u128 = (a as u128) * (b as u128);
    let shifted: u128 = wide >> 64;
    proof {
        vstd::bits::lemma_u128_shr_is_div(wide, 64);
        vstd::arithmetic::power2::lemma2_to64();
        vstd::arithmetic::power2::lemma2_to64_rest();
        assert(b > 0 ==> (a as int) * (b as int) < 0x1_0000_0000_0000_0000 * (b as int))
            by (nonlinear_arith)
            requires
                a < 0x1_0000_0000_0000_0000u128,
        ;
        assert(b > 0 ==> (a as int) * (b as int) / 0x1_0000_0000_0000_0000 < b as int)
            by (nonlinear_arith)
            requires
                b == 0 || (a as int) * (b as int) < 0x1_0000_0000_0000_0000 * (b as int),
                (a as int) * (b as int) >= 0,
        ;
    }
    shifted as u64
}

/// Folds a value in `[0, 6)` into a slot position in `[0, 3)`.
pub(crate) fn fuse_mod3(x: u8) -> (r: u8)
    ensures
        r == (if x > 2 { (x - 3) as u8 } else { x }),
{
    if x > 2 {
        x - 3
    } else {
        x
    }
}

/// Rotation left by a constant amount, used by the xor8 slot functions.
pub(crate) fn rotl64(n: u64, c: u64) -> (r: u64)
    requires
        0 < c < 64,
    ensures
        r == spec_rotl64(n, c),
{
    (n << c) | (n >> (64 - c))
}

} // verus!
