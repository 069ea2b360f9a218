//! Sizing of the fingerprint arrays.
//!
//! The xor8 family sizes its three blocks from the key count alone; the
//! binary-fuse family derives a segment length (a power of two) and a segment
//! count from the key count through a logarithmic formula. All sizing here is
//! integer arithmetic: the logarithm is computed in fixed point with 40
//! fractional bits, and the power-of-two choice goes through an explicit
//! threshold ladder, so that the same key count always yields the same
//! geometry.

use vstd::prelude::*;

verus! {

use vstd::arithmetic::power2::pow2;

/// Natural logarithm of 2 in Q40 fixed point.
pub const LN2_Q40: u64 = 762123384786;

/// A quarter of the natural logarithm of 10^6 in Q40 fixed point: the
/// numerator of the binary-fuse size-factor formula.
pub const SIZE_FACTOR_NUM_Q40: u64 = 3797578625536;

/// 0.875 in Q40 fixed point: the base of the binary-fuse size factor.
pub const SIZE_FACTOR_BASE_Q40: u64 = 0xe0_0000_0000;

/// 1.125 in Q40 fixed point: the least binary-fuse size factor.
pub const SIZE_FACTOR_MIN_Q40: u64 = 0x120_0000_0000;

/// The fingerprint array length the xor8 construction plans for `n` keys:
/// `32 + ceil(1.23 * n)`, saturated at the 32-bit limit, rounded down to a
/// multiple of three.
pub open spec fn spec_xor8_capacity(n: int) -> int {
    let c = 32 + (123 * n + 99) / 100;
    let c2 = if c > 0xffff_ffff {
        0xffff_ffff
    } else {
        c
    };
    (c2 / 3) * 3
}

/// A third of the planned xor8 array: the length of each of the three blocks.
pub open spec fn spec_xor8_block_length(n: int) -> int {
    spec_xor8_capacity(n) / 3
}

/// Block length of the xor8 construction for `size` keys.
///
/// The returned block length is always at least 10 (so a built filter is
/// never empty), and three blocks always fit in a `u32`.
pub(crate) fn xor8_block_length(size: usize) -> (r: u32)
    ensures
        r == spec_xor8_block_length(size as int),
        3 * spec_xor8_block_length(size as int) == spec_xor8_capacity(size as int),
        10 <= r,
        3 * (r as int) <= 0xffff_ffff,
{
    let ceil123: u128 = (123 * (size as u128) + 99) / 100;
    let cap_wide: u128 = 32 + ceil123;
    let cap_sat: u64 = if cap_wide > 0xffff_ffff {
        0xffff_ffff
    } else {
        cap_wide as u64
    };
    let block: u64 = cap_sat / 3;
    block as u32
}

/// Every digest count the xor8 construction accepts stays within ten bits
/// per key once the key count passes one hundred thousand.
pub proof fn lemma_xor8_bits_per_key(n: int)
    requires
        n > 100000,
    ensures
        8 * spec_xor8_capacity(n) <= 10 * n,
{
    let c = 32 + (123 * n + 99) / 100;
    assert(100 * ((123 * n + 99) / 100) <= 123 * n + 99) by {
        vstd::arithmetic::div_mod::lemma_fundamental_div_mod(123 * n + 99, 100);
        vstd::arithmetic::div_mod::lemma_mod_bound(123 * n + 99, 100);
    }
    assert(spec_xor8_capacity(n) <= c);
}

/// The binary-fuse segment length for `size` keys: a power of two between 4
/// and 2^18, stepping up at the thresholds of `floor(ln(size)/ln(3.33) + 2.25)`.
///
/// Each rung of the ladder is the least key count whose `ln(size)/ln(3.33)
/// + 2.25` reaches the next integer. At every rung that expression clears
/// its integer by more than a billionth, far above the rounding of a 64-bit
/// logarithm, so the integer thresholds are insensitive to how the
/// logarithm is evaluated.
pub open spec fn spec_fuse_segment_length(size: u32) -> u32 {
    if size == 0 {
        4
    } else if size >= 169237530 {
        262144
    } else if size >= 50822082 {
        131072
    } else if size >= 15261887 {
        65536
    } else if size >= 4583150 {
        32768
    } else if size >= 1376322 {
        16384
    } else if size >= 413310 {
        8192
    } else if size >= 124118 {
        4096
    } else if size >= 37273 {
        2048
    } else if size >= 11193 {
        1024
    } else if size >= 3362 {
        512
    } else if size >= 1010 {
        256
    } else if size >= 304 {
        128
    } else if size >= 92 {
        64
    } else if size >= 28 {
        32
    } else if size >= 9 {
        16
    } else if size >= 3 {
        8
    } else {
        4
    }
}

pub(crate) fn fuse_segment_length(size: u32) -> (r: u32)
    ensures
        r == spec_fuse_segment_length(size),
        4 <= r <= 262144,
{
    if size == 0 {
        4
    } else if size >= 169237530 {
        262144
    } else if size >= 50822082 {
        131072
    } else if size >= 15261887 {
        65536
    } else if size >= 4583150 {
        32768
    } else if size >= 1376322 {
        16384
    } else if size >= 413310 {
        8192
    } else if size >= 124118 {
        4096
    } else if size >= 37273 {
        2048
    } else if size >= 11193 {
        1024
    } else if size >= 3362 {
        512
    } else if size >= 1010 {
        256
    } else if size >= 304 {
        128
    } else if size >= 92 {
        64
    } else if size >= 28 {
        32
    } else if size >= 9 {
        16
    } else if size >= 3 {
        8
    } else {
        4
    }
}

/// The segment length is one of the powers of two between 4 and 2^18.
pub proof fn lemma_fuse_segment_length_pow2(size: u32)
    ensures
        exists|k: nat| 2 <= k <= 18 && spec_fuse_segment_length(size) == pow2(k),
{
    vstd::arithmetic::power2::lemma2_to64();
    if size == 0 || size < 3 {
        assert(spec_fuse_segment_length(size) == pow2(2));
    } else if size >= 169237530 {
        assert(spec_fuse_segment_length(size) == pow2(18));
    } else if size >= 50822082 {
        assert(spec_fuse_segment_length(size) == pow2(17));
    } else if size >= 15261887 {
        assert(spec_fuse_segment_length(size) == pow2(16));
    } else if size >= 4583150 {
        assert(spec_fuse_segment_length(size) == pow2(15));
    } else if size >= 1376322 {
        assert(spec_fuse_segment_length(size) == pow2(14));
    } else if size >= 413310 {
        assert(spec_fuse_segment_length(size) == pow2(13));
    } else if size >= 124118 {
        assert(spec_fuse_segment_length(size) == pow2(12));
    } else if size >= 37273 {
        assert(spec_fuse_segment_length(size) == pow2(11));
    } else if size >= 11193 {
        assert(spec_fuse_segment_length(size) == pow2(10));
    } else if size >= 3362 {
        assert(spec_fuse_segment_length(size) == pow2(9));
    } else if size >= 1010 {
        assert(spec_fuse_segment_length(size) == pow2(8));
    } else if size >= 304 {
        assert(spec_fuse_segment_length(size) == pow2(7));
    } else if size >= 92 {
        assert(spec_fuse_segment_length(size) == pow2(6));
    } else if size >= 28 {
        assert(spec_fuse_segment_length(size) == pow2(5));
    } else if size >= 9 {
        assert(spec_fuse_segment_length(size) == pow2(4));
    } else {
        assert(spec_fuse_segment_length(size) == pow2(3));
    }
}

/// Above a hundred thousand keys the planned segment is always a small
/// fraction of the key count.
pub proof fn lemma_fuse_segment_length_fraction(size: u32)
    requires
        size > 100000,
    ensures
        30 * (spec_fuse_segment_length(size) as int) <= size as int,
{
}

/// The integer part of the base-two logarithm.
pub open spec fn spec_log2_floor(x: int) -> int
    decreases x,
{
    if x < 2 {
        0
    } else {
        1 + spec_log2_floor(x / 2)
    }
}

/// A value between two neighbouring powers of two pins its logarithm's
/// integer part.
pub proof fn lemma_log2_floor_window(x: int, k: nat)
    requires
        pow2(k) <= x < pow2(k + 1),
    ensures
        spec_log2_floor(x) == k,
    decreases k,
{
    vstd::arithmetic::power2::lemma2_to64();
    if k == 0 {
        assert(x == 1);
    } else {
        vstd::arithmetic::power2::lemma_pow2_adds((k - 1) as nat, 1);
        vstd::arithmetic::power2::lemma_pow2_adds(k as nat, 1);
        vstd::arithmetic::power2::lemma_pow2_pos((k - 1) as nat);
        assert(x >= 2);
        assert(x / 2 >= pow2((k - 1) as nat)) by (nonlinear_arith)
            requires
                x >= pow2(k as nat),
                pow2(k as nat) == 2 * pow2((k - 1) as nat),
                pow2((k - 1) as nat) >= 1,
        ;
        assert(x / 2 < pow2(k as nat)) by (nonlinear_arith)
            requires
                x < pow2((k + 1) as nat),
                pow2((k + 1) as nat) == 2 * pow2(k as nat),
                pow2(k as nat) >= 1,
        ;
        lemma_log2_floor_window(x / 2, (k - 1) as nat);
    }
}

/// One step of the shift-and-square iteration: the squared, renormalized
/// mantissa, and whether the square crossed two — the next fraction bit.
pub open spec fn spec_sq_step(y: u64) -> (u64, bool) {
    let z = ((y as int) * (y as int)) / 0x8000_0000_0000_0000;
    if z >= 0x1_0000_0000_0000_0000 {
        ((z / 2) as u64, true)
    } else {
        (z as u64, false)
    }
}

/// The value of the `n` fraction bits the shift-and-square iteration yields
/// from mantissa `y`, most significant bit first.
pub open spec fn spec_log2_frac(y: u64, n: nat) -> int
    decreases n,
{
    if n == 0 {
        0
    } else {
        let step = spec_sq_step(y);
        (if step.1 {
            pow2((n - 1) as nat) as int
        } else {
            0
        }) + spec_log2_frac(step.0, (n - 1) as nat)
    }
}

/// The base-two logarithm of `x` in Q40 fixed point, exactly as `log2_q40`
/// computes it: the integer part in the high bits and forty shift-and-square
/// fraction bits below.
pub open spec fn spec_log2_q40(x: int) -> int {
    let k = spec_log2_floor(x);
    let mantissa = (x * pow2((63 - k) as nat)) as u64;
    k * 0x100_0000_0000 + spec_log2_frac(mantissa, 40)
}

/// The base-two logarithm of `x` in Q40 fixed point, rounded down in its last
/// bit. The integer part (the value shifted right by 40) is exactly
/// `floor(log2(x))`; the 40 fractional bits are computed by the classical
/// shift-and-square iteration.
pub(crate) fn log2_q40(x: u64) -> (r: u64)
    requires
        x >= 1,
    ensures
        r as int == spec_log2_q40(x as int),
        exists|k: nat|
            k <= 63 && #[trigger] pow2(k) <= x as nat && (x as nat) < pow2(k + 1) && (k as int)
                * 0x100_0000_0000 <= r as int && (r as int) < ((k + 1) as int) * 0x100_0000_0000,
{
    proof {
        vstd::arithmetic::power2::lemma2_to64();
    }
    let mut k: u64 = 0;
    while (x >> k) > 1
        invariant
            x >= 1,
            k <= 63,
            x as nat >= pow2(k as nat),
        decreases 64 - k,
    {
        proof {
            vstd::bits::lemma_u64_shr_is_div(x, k);
            vstd::arithmetic::power2::lemma_pow2_adds(k as nat, 1);
            vstd::arithmetic::power2::lemma2_to64();
            vstd::arithmetic::power2::lemma_pow2_pos(k as nat);
            assert(x as nat / pow2(k as nat) >= 2);
            vstd::arithmetic::div_mod::lemma_fundamental_div_mod(x as int, pow2(k as nat) as int);
            assert((x as nat) >= 2 * pow2(k as nat)) by (nonlinear_arith)
                requires
                    x as nat / pow2(k as nat) >= 2,
                    pow2(k as nat) > 0,
                    x as int == pow2(k as nat) * (x as int / pow2(k as nat) as int) + x as int
                        % pow2(k as nat) as int,
                    (x as int) % (pow2(k as nat) as int) >= 0,
            ;
            if k == 63 {
                vstd::arithmetic::power2::lemma2_to64_rest();
                assert(false);
            }
        }
        k = k + 1;
    }
    proof {
        vstd::arithmetic::power2::lemma2_to64();
        vstd::bits::lemma_u64_shr_is_div(x, k);
        vstd::arithmetic::power2::lemma_pow2_adds(k as nat, 1);
        vstd::arithmetic::power2::lemma_pow2_pos(k as nat);
        vstd::arithmetic::div_mod::lemma_fundamental_div_mod(x as int, pow2(k as nat) as int);
        assert((x as nat) < 2 * pow2(k as nat)) by (nonlinear_arith)
            requires
                x as nat / pow2(k as nat) <= 1,
                pow2(k as nat) > 0,
                x as int == pow2(k as nat) * ((x as int) / (pow2(k as nat) as int)) + (x as int) % (
                pow2(k as nat) as int),
                (x as int) % (pow2(k as nat) as int) < pow2(k as nat) as int,
        ;
        lemma_log2_floor_window(x as int, k as nat);
    }
    // Normalize so the leading bit of x sits at bit 63.
    let shift: u64 = 63 - k;
    proof {
        vstd::arithmetic::power2::lemma_pow2_adds(k as nat, shift as nat);
        vstd::arithmetic::power2::lemma_pow2_adds((k + 1) as nat, shift as nat);
        vstd::arithmetic::power2::lemma2_to64_rest();
        vstd::arithmetic::power2::lemma_pow2_pos(shift as nat);
        assert((x as nat) * pow2(shift as nat) >= pow2(63)) by (nonlinear_arith)
            requires
                x as nat >= pow2(k as nat),
                pow2(k as nat) * pow2(shift as nat) == pow2(63),
                pow2(shift as nat) > 0,
        ;
        assert((x as nat) * pow2(shift as nat) < pow2(64)) by (nonlinear_arith)
            requires
                (x as nat) < pow2((k + 1) as nat),
                pow2((k + 1) as nat) * pow2(shift as nat) == pow2(64),
                pow2(shift as nat) > 0,
        ;
        vstd::bits::lemma_u64_shl_is_mul(x, shift);
    }
    let mut y: u64 = x << shift;
    let ghost y0 = y;
    proof {
        assert(y0 as int == (x as int) * (pow2(shift as nat) as int));
        assert(y0 == ((x as int) * pow2((63 - spec_log2_floor(x as int)) as nat)) as u64);
    }
    let mut frac: u64 = 0;
    let mut i: u64 = 0;
    while i < 40
        invariant
            i <= 40,
            frac < pow2(i as nat),
            y >= 0x8000_0000_0000_0000u64,
            spec_log2_frac(y0, 40) == (frac as int) * (pow2((40 - i) as nat) as int)
                + spec_log2_frac(y, (40 - i) as nat),
        decreases 40 - i,
    {
        let ghost y_old = y;
        let ghost frac_old = frac;
        proof {
            assert((y as int) * (y as int) >= 0x4000_0000_0000_0000_0000_0000_0000_0000 && (y as int)
                * (y as int) < 0x1_0000_0000_0000_0000_0000_0000_0000_0000)
                by (nonlinear_arith)
                requires
                    0x8000_0000_0000_0000u64 <= y <= 0xffff_ffff_ffff_ffffu64,
            ;
        }
        let sq: u128 = (y as u128) * (y as u128);
        let z: u128 = sq >> 63;
        proof {
            assert(sq >> 63 >= 0x8000_0000_0000_0000u128 && sq >> 63 < 0x2_0000_0000_0000_0000u128)
                by (bit_vector)
                requires
                    sq >= 0x4000_0000_0000_0000_0000_0000_0000_0000u128,
            ;
            vstd::arithmetic::power2::lemma2_to64();
            vstd::arithmetic::power2::lemma2_to64_rest();
            vstd::arithmetic::power2::lemma_pow2_strictly_increases(i as nat, 40);
            vstd::bits::lemma_u64_shl_is_mul(frac, 1);
            vstd::arithmetic::power2::lemma_pow2_adds(i as nat, 1);
        }
        let doubled: u64 = frac << 1;
        proof {
            assert((doubled | 1) == doubled + 1) by (bit_vector)
                requires
                    doubled == (frac << 1u64),
            ;
        }
        if z >= 0x1_0000_0000_0000_0000u128 {
            frac = doubled | 1;
            y = (z >> 1) as u64;
            proof {
                assert(z >> 1 >= 0x8000_0000_0000_0000u128 && z >> 1 < 0x1_0000_0000_0000_0000u128)
                    by (bit_vector)
                    requires
                        z >= 0x1_0000_0000_0000_0000u128 && z < 0x2_0000_0000_0000_0000u128,
                ;
            }
        } else {
            frac = doubled;
            y = z as u64;
        }
        proof {
            vstd::bits::lemma_u128_shr_is_div(sq, 63);
            vstd::bits::lemma_u128_shr_is_div(z, 1);
            let n = (40 - i) as nat;
            let step = spec_sq_step(y_old);
            assert(z as int == ((y_old as int) * (y_old as int)) / 0x8000_0000_0000_0000);
            let b: int = if step.1 {
                1
            } else {
                0
            };
            assert(step.0 == y);
            assert(frac as int == 2 * (frac_old as int) + b);
            let p = pow2((n - 1) as nat) as int;
            vstd::arithmetic::power2::lemma_pow2_adds((n - 1) as nat, 1);
            assert(spec_log2_frac(y_old, n) == b * p + spec_log2_frac(step.0, (n - 1) as nat));
            assert((frac as int) * p == (frac_old as int) * (2 * p) + b * p) by (nonlinear_arith)
                requires
                    frac as int == 2 * (frac_old as int) + b,
            ;
            assert(spec_log2_frac(y0, 40) == (frac as int) * p + spec_log2_frac(y, (n - 1) as nat));
        }
        i = i + 1;
    }
    proof {
        vstd::arithmetic::power2::lemma2_to64();
        assert(pow2(0) == 1);
        assert(i == 40);
        assert((40 - i) as nat == 0nat);
        assert(spec_log2_frac(y, (40 - i) as nat) == 0);
        assert(spec_log2_frac(y0, 40) == (frac as int) * (pow2((40 - i) as nat) as int)
            + spec_log2_frac(y, (40 - i) as nat));
        assert(pow2((40 - i) as nat) == 1);
        assert((frac as int) * (pow2((40 - i) as nat) as int) == frac as int) by (nonlinear_arith)
            requires
                pow2((40 - i) as nat) == 1,
        ;
        assert(spec_log2_frac(y0, 40) == frac as int);
    }
    let r: u64 = (k << 40) | frac;
    proof {
        vstd::arithmetic::power2::lemma2_to64();
        vstd::arithmetic::power2::lemma2_to64_rest();
        assert(frac < 0x100_0000_0000u64);
        assert(r == (k as int) * 0x100_0000_0000 + frac) by (bit_vector)
            requires
                k <= 63u64,
                frac < 0x100_0000_0000u64,
                r == ((k << 40u64) | frac),
        ;
        assert(r as int == spec_log2_q40(x as int));
        assert(k as nat <= 63 && pow2(k as nat) <= x as nat && (x as nat) < pow2(k as nat + 1) && (
        k as nat as int) * 0x100_0000_0000 <= r as int && (r as int) < ((k as nat + 1) as int)
            * 0x100_0000_0000);
    }
    r
}

/// The natural logarithm of `x` in Q40 fixed point, exactly as `ln_q40`
/// computes it: the fixed-point base-two logarithm scaled by `ln(2)`.
pub open spec fn spec_ln_q40(x: int) -> int {
    (spec_log2_q40(x) * (LN2_Q40 as int)) / 0x100_0000_0000
}

/// The natural logarithm of `x` in Q40 fixed point, within one unit of
/// `floor(log2(x)) * ln(2)` below and `(floor(log2(x)) + 1) * ln(2)` above.
pub(crate) fn ln_q40(x: u64) -> (r: u64)
    requires
        2 <= x,
    ensures
        r as int == spec_ln_q40(x as int),
        LN2_Q40 <= r,
        r as int <= 64 * (LN2_Q40 as int),
        exists|k: nat|
            1 <= k <= 63 && #[trigger] pow2(k) <= x as nat && (x as nat) < pow2(k + 1) && (k as int)
                * (LN2_Q40 as int) <= r as int && r as int <= ((k + 1) as int) * (LN2_Q40 as int),
{
    let lg: u64 = log2_q40(x);
    let ghost k = choose|k: nat|
        k <= 63 && #[trigger] pow2(k) <= x as nat && (x as nat) < pow2(k + 1) && (k as int)
            * 0x100_0000_0000 <= lg as int && (lg as int) < ((k + 1) as int) * 0x100_0000_0000;
    proof {
        vstd::arithmetic::power2::lemma2_to64();
        if k == 0 {
            assert(pow2(1) == 2);
            assert(false);
        }
    }
    let p: u128 = (lg as u128) * (LN2_Q40 as u128);
    let wide: u128 = p >> 40;
    proof {
        vstd::bits::lemma_u128_shr_is_div(p, 40);
        vstd::arithmetic::power2::lemma2_to64();
        vstd::arithmetic::power2::lemma2_to64_rest();
        assert(p as int >= ((k as int) * 0x100_0000_0000) * (LN2_Q40 as int)) by (nonlinear_arith)
            requires
                p as int == (lg as int) * (LN2_Q40 as int),
                lg as int >= (k as int) * 0x100_0000_0000,
                LN2_Q40 > 0,
        ;
        assert(p as int / 0x100_0000_0000 >= (k as int) * (LN2_Q40 as int)) by (nonlinear_arith)
            requires
                p as int >= ((k as int) * 0x100_0000_0000) * (LN2_Q40 as int),
                k >= 1,
        ;
        assert((p as int) <= (((k + 1) as int) * 0x100_0000_0000) * (LN2_Q40 as int) - 1)
            by (nonlinear_arith)
            requires
                p as int == (lg as int) * (LN2_Q40 as int),
                (lg as int) < ((k + 1) as int) * 0x100_0000_0000,
                LN2_Q40 > 0,
        ;
        assert(p as int / 0x100_0000_0000 <= ((k + 1) as int) * (LN2_Q40 as int))
            by (nonlinear_arith)
            requires
                (p as int) <= (((k + 1) as int) * 0x100_0000_0000) * (LN2_Q40 as int) - 1,
                p >= 0,
        ;
        assert(((k + 1) as int) * (LN2_Q40 as int) <= 64 * (LN2_Q40 as int)) by (nonlinear_arith)
            requires
                k <= 63,
        ;
        assert((k as int) * (LN2_Q40 as int) >= LN2_Q40 as int) by (nonlinear_arith)
            requires
                k >= 1,
        ;
    }
    wide as u64
}

/// The fingerprint-array budget the binary-fuse construction plans for
/// `size` keys, exactly as `fuse_capacity` computes it: zero below two keys,
/// the closed form `round(9 size / 8)` from one million keys on, and the Q40
/// size-factor product in between, saturated at the 32-bit limit.
pub open spec fn spec_fuse_capacity(size: int) -> int {
    if size <= 1 {
        0
    } else if size >= 1000000 {
        if (9 * size + 4) / 8 <= 0xffff_ffff {
            (9 * size + 4) / 8
        } else {
            0xffff_ffff
        }
    } else {
        let lnq = spec_ln_q40(size);
        let quot = ((SIZE_FACTOR_NUM_Q40 as int) * 0x100_0000_0000) / lnq;
        let factor0 = (SIZE_FACTOR_BASE_Q40 as int) + quot;
        let factor = if factor0 < SIZE_FACTOR_MIN_Q40 as int {
            SIZE_FACTOR_MIN_Q40 as int
        } else {
            factor0
        };
        (size * factor + 0x80_0000_0000) / 0x100_0000_0000
    }
}

/// The fingerprint-array budget the binary-fuse construction plans for
/// `size` keys: `round(size * max(1.125, 0.875 + 0.25 * ln(10^6)/ln(size)))`,
/// computed in Q40 fixed point and saturated at the 32-bit limit.
///
/// The result is zero for fewer than two keys, at least `size` otherwise, and
/// equal to `round(9 * size / 8)` once the size factor bottoms out at `1.125`
/// (which happens from one million keys on).
pub(crate) fn fuse_capacity(size: u32) -> (r: u64)
    ensures
        r as int == spec_fuse_capacity(size as int),
        size <= 1 ==> r == 0,
        size >= 2 ==> size as int <= r as int <= 0xffff_ffff,
        size >= 1000000 ==> r == (if (9 * (size as int) + 4) / 8 <= 0xffff_ffff {
            (9 * (size as int) + 4) / 8
        } else {
            0xffff_ffff
        }),
        100000 < size < 1000000 ==> 16 * (r as int) <= 19 * (size as int) + 16,
{
    if size <= 1 {
        return 0;
    }
    if size >= 1000000 {
        let r9: u64 = (9 * (size as u64) + 4) / 8;
        if r9 > 0xffff_ffff {
            return 0xffff_ffff;
        }
        return r9;
    }
    let lnq: u64 = ln_q40(size as u64);
    let pnum: u128 = (SIZE_FACTOR_NUM_Q40 as u128) * 0x100_0000_0000;
    let quot_wide: u128 = pnum / (lnq as u128);
    proof {
        vstd::arithmetic::div_mod::lemma_div_is_ordered_by_denominator(
            pnum as int,
            0x80_0000_0000,
            lnq as int,
        );
        vstd::arithmetic::div_mod::lemma_div_multiples_vanish(
            2 * (SIZE_FACTOR_NUM_Q40 as int),
            0x80_0000_0000,
        );
        assert(pnum as int == (2 * (SIZE_FACTOR_NUM_Q40 as int)) * 0x80_0000_0000);
        assert(quot_wide <= 2 * SIZE_FACTOR_NUM_Q40);
        if size > 100000 {
            // Above a hundred thousand keys the logarithm is at least
            // sixteen times ln(2), which caps the size factor under 19/16.
            let k = choose|k: nat|
                1 <= k <= 63 && #[trigger] pow2(k) <= (size as u64) as nat && ((
                size as u64) as nat) < pow2(k + 1) && (k as int) * (LN2_Q40 as int) <= lnq as int
                    <= ((k + 1) as int) * (LN2_Q40 as int);
            vstd::arithmetic::power2::lemma2_to64();
            if k < 16 {
                assert(pow2(k + 1) <= pow2(16)) by {
                    if k + 1 < 16 {
                        vstd::arithmetic::power2::lemma_pow2_strictly_increases(k + 1, 16);
                    }
                }
                assert(false);
            }
            assert((k as int) * (LN2_Q40 as int) >= 16 * (LN2_Q40 as int)) by (nonlinear_arith)
                requires
                    k >= 16,
                    LN2_Q40 > 0,
            ;
            vstd::arithmetic::div_mod::lemma_div_is_ordered_by_denominator(
                pnum as int,
                16 * (LN2_Q40 as int),
                lnq as int,
            );
            assert(pnum as int / (16 * (LN2_Q40 as int)) <= 342421740652) by (nonlinear_arith)
                requires
                    (pnum as int) < 342421740653 * (16 * (LN2_Q40 as int)),
                    LN2_Q40 > 0,
            ;
            assert((pnum as int) < 342421740653 * (16 * (LN2_Q40 as int)));
            assert(quot_wide <= 342421740652);
        }
    }
    let quot: u64 = quot_wide as u64;
    let mut factor: u64 = SIZE_FACTOR_BASE_Q40 + quot;
    if factor < SIZE_FACTOR_MIN_Q40 {
        factor = SIZE_FACTOR_MIN_Q40;
    }
    proof {
        assert((size as int) * (factor as int) + 0x80_0000_0000 < 0x1_0000_0000_0000_0000_0000)
            by (nonlinear_arith)
            requires
                size < 0x1_0000_0000u64,
                factor <= 0x800_0000_0000u64,
        ;
    }
    let num: u128 = (size as u128) * (factor as u128) + 0x80_0000_0000;
    let wide: u128 = num >> 40;
    proof {
        vstd::bits::lemma_u128_shr_is_div(num, 40);
        vstd::arithmetic::power2::lemma2_to64();
        vstd::arithmetic::power2::lemma2_to64_rest();
        // The factor is at least 1.125 and at most six, so the result sits
        // between size and seven times size, well under the 32-bit limit here.
        assert(num as int >= (size as int) * 0x120_0000_0000) by (nonlinear_arith)
            requires
                factor >= SIZE_FACTOR_MIN_Q40,
                size >= 2,
                num as int == (size as int) * (factor as int) + 0x80_0000_0000,
        ;
        assert(num as int / 0x100_0000_0000 >= size as int) by (nonlinear_arith)
            requires
                num as int >= (size as int) * 0x120_0000_0000,
                size >= 2,
        ;
        assert((num as int) <= (size as int) * 0x900_0000_0000) by (nonlinear_arith)
            requires
                factor <= 0x800_0000_0000u64,
                size >= 2,
                num as int == (size as int) * (factor as int) + 0x80_0000_0000,
        ;
        assert(num as int / 0x100_0000_0000 <= 9 * (size as int)) by (nonlinear_arith)
            requires
                (num as int) <= (size as int) * 0x900_0000_0000,
                num >= 0,
        ;
        if size > 100000 {
            assert((num as int) <= (size as int) * 0x12f_b9ed_1c6c + 0x80_0000_0000)
                by (nonlinear_arith)
                requires
                    factor <= 0x12f_b9ed_1c6cu64,
                    num as int == (size as int) * (factor as int) + 0x80_0000_0000,
            ;
            assert(16 * (num as int / 0x100_0000_0000) <= 19 * (size as int) + 16)
                by (nonlinear_arith)
                requires
                    (num as int) <= (size as int) * 0x12f_b9ed_1c6c + 0x80_0000_0000,
                    num >= 0,
                    size >= 2,
            ;
        }
    }
    wide as u64
}

} // verus!
