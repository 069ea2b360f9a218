//! The persisted byte format of the xor8 filter.
//!
//! Big-endian, no padding. A version-2 image holds, in order: the four
//! signature bytes, the seed, the block length, the fingerprint length, the
//! hash-builder length, the fingerprints, and the hash-builder state. A
//! version-1 image, recognized by its own signature, lacks the hash-builder
//! block; it is read but never written.

use vstd::prelude::*;

verus! {

/// Third byte of a version-1 signature.
pub const FORMAT_V1: u8 = 1;

/// Third byte of a version-2 signature.
pub const FORMAT_V2: u8 = 2;

/// Bytes of the fixed-size header: signature, seed, block length,
/// fingerprint length, hash-builder length.
pub const HEADER_LEN: usize = 24;

/// The four signature bytes that open a serialized filter: a caret for xor,
/// the letters TL for filter, and the version.
pub open spec fn spec_signature(version: u8) -> Seq<u8> {
    seq![0x5eu8, 0x54u8, 0x4cu8, version]
}

/// Big-endian bytes of a 64-bit value.
pub open spec fn spec_be64(x: u64) -> Seq<u8> {
    seq![
        ((x >> 56u64) & 0xff) as u8,
        ((x >> 48u64) & 0xff) as u8,
        ((x >> 40u64) & 0xff) as u8,
        ((x >> 32u64) & 0xff) as u8,
        ((x >> 24u64) & 0xff) as u8,
        ((x >> 16u64) & 0xff) as u8,
        ((x >> 8u64) & 0xff) as u8,
        (x & 0xff) as u8,
    ]
}

/// Big-endian bytes of a 32-bit value.
pub open spec fn spec_be32(x: u32) -> Seq<u8> {
    seq![
        ((x >> 24u32) & 0xff) as u8,
        ((x >> 16u32) & 0xff) as u8,
        ((x >> 8u32) & 0xff) as u8,
        (x & 0xff) as u8,
    ]
}

/// The 64-bit value spelled by eight big-endian bytes.
pub open spec fn spec_read_be64(s: Seq<u8>) -> u64
    recommends
        s.len() == 8,
{
    (((s[0] as u64) << 56u64) | ((s[1] as u64) << 48u64) | ((s[2] as u64) << 40u64) | ((
    s[3] as u64) << 32u64) | ((s[4] as u64) << 24u64) | ((s[5] as u64) << 16u64) | ((
    s[6] as u64) << 8u64) | (s[7] as u64)) as u64
}

/// The 32-bit value spelled by four big-endian bytes.
pub open spec fn spec_read_be32(s: Seq<u8>) -> u32
    recommends
        s.len() == 4,
{
    (((s[0] as u32) << 24u32) | ((s[1] as u32) << 16u32) | ((s[2] as u32) << 8u32) | (
    s[3] as u32)) as u32
}

/// Reading back the big-endian bytes of a 64-bit value returns the value.
pub proof fn lemma_be64_round_trip(x: u64)
    ensures
        spec_read_be64(spec_be64(x)) == x,
{
    assert((((((x >> 56u64) & 0xff) as u8 as u64) << 56u64) | ((((x >> 48u64) & 0xff) as u8 as u64)
        << 48u64) | ((((x >> 40u64) & 0xff) as u8 as u64) << 40u64) | ((((x >> 32u64)
        & 0xff) as u8 as u64) << 32u64) | ((((x >> 24u64) & 0xff) as u8 as u64) << 24u64) | ((((x
        >> 16u64) & 0xff) as u8 as u64) << 16u64) | ((((x >> 8u64) & 0xff) as u8 as u64) << 8u64)
        | ((x & 0xff) as u8 as u64)) == x) by (bit_vector);
}

/// Reading back the big-endian bytes of a 32-bit value returns the value.
pub proof fn lemma_be32_round_trip(x: u32)
    ensures
        spec_read_be32(spec_be32(x)) == x,
{
    assert((((((x >> 24u32) & 0xff) as u8 as u32) << 24u32) | ((((x >> 16u32) & 0xff) as u8 as u32)
        << 16u32) | ((((x >> 8u32) & 0xff) as u8 as u32) << 8u32) | ((x & 0xff) as u8 as u32))
        == x) by (bit_vector);
}

pub(crate) fn push_be64(buf: &mut Vec<u8>, x: u64)
    ensures
        final(buf)@ == old(buf)@ + spec_be64(x),
{
    buf.push(((x >> 56) & 0xff) as u8);
    buf.push(((x >> 48) & 0xff) as u8);
    buf.push(((x >> 40) & 0xff) as u8);
    buf.push(((x >> 32) & 0xff) as u8);
    buf.push(((x >> 24) & 0xff) as u8);
    buf.push(((x >> 16) & 0xff) as u8);
    buf.push(((x >> 8) & 0xff) as u8);
    buf.push((x & 0xff) as u8);
    proof {
        assert(buf@ =~= old(buf)@ + spec_be64(x));
    }
}

pub(crate) fn push_be32(buf: &mut Vec<u8>, x: u32)
    ensures
        final(buf)@ == old(buf)@ + spec_be32(x),
{
    buf.push(((x >> 24) & 0xff) as u8);
    buf.push(((x >> 16) & 0xff) as u8);
    buf.push(((x >> 8) & 0xff) as u8);
    buf.push((x & 0xff) as u8);
    proof {
        assert(buf@ =~= old(buf)@ + spec_be32(x));
    }
}

pub(crate) fn read_be64(buf: &Vec<u8>, off: usize) -> (r: u64)
    requires
        off + 8 <= buf@.len(),
    ensures
        r == spec_read_be64(buf@.subrange(off as int, off + 8)),
{
    let n: usize = buf.len();
    let r: u64 = ((buf[off] as u64) << 56) | ((buf[off + 1] as u64) << 48) | ((buf[off + 2] as u64)
        << 40) | ((buf[off + 3] as u64) << 32) | ((buf[off + 4] as u64) << 24) | ((buf[off
        + 5] as u64) << 16) | ((buf[off + 6] as u64) << 8) | (buf[off + 7] as u64);
    proof {
        let s = buf@.subrange(off as int, off + 8);
        assert(s[0] == buf@[off as int] && s[1] == buf@[off + 1] && s[2] == buf@[off + 2] && s[3]
            == buf@[off + 3] && s[4] == buf@[off + 4] && s[5] == buf@[off + 5] && s[6] == buf@[off
            + 6] && s[7] == buf@[off + 7]);
    }
    r
}

pub(crate) fn read_be32(buf: &Vec<u8>, off: usize) -> (r: u32)
    requires
        off + 4 <= buf@.len(),
    ensures
        r == spec_read_be32(buf@.subrange(off as int, off + 4)),
{
    let n: usize = buf.len();
    let r: u32 = ((buf[off] as u32) << 24) | ((buf[off + 1] as u32) << 16) | ((buf[off + 2] as u32)
        << 8) | (buf[off + 3] as u32);
    proof {
        let s = buf@.subrange(off as int, off + 4);
        assert(s[0] == buf@[off as int] && s[1] == buf@[off + 1] && s[2] == buf@[off + 2] && s[3]
            == buf@[off + 3]);
    }
    r
}

/// The version-2 byte image of a filter with the given seed, block length,
/// fingerprints and serialized hash-builder state.
pub open spec fn spec_xor8_encoding(seed: u64, block_length: u32, fp: Seq<u8>, hb: Seq<u8>) -> Seq<
    u8,
> {
    spec_signature(FORMAT_V2) + spec_be64(seed) + spec_be32(block_length) + spec_be32(
        (fp.len() % 0x1_0000_0000) as u32,
    ) + spec_be32((hb.len() % 0x1_0000_0000) as u32) + fp + hb
}

/// What a byte image decodes to: the seed, the block length, the fingerprint
/// bytes, and the hash-builder bytes (`None` for a version-1 image, which
/// carries none). `None` overall when the image is malformed: too short, an
/// unknown signature, or declared lengths that overrun the buffer.
pub open spec fn spec_xor8_decoding(buf: Seq<u8>) -> Option<(u64, u32, Seq<u8>, Option<Seq<u8>>)> {
    if buf.len() < HEADER_LEN {
        Option::None
    } else if buf.subrange(0, 4) == spec_signature(FORMAT_V1) {
        let fp_len = spec_read_be32(buf.subrange(16, 20)) as int;
        if buf.len() - 20 < fp_len {
            Option::None
        } else {
            Option::Some(
                (
                    spec_read_be64(buf.subrange(4, 12)),
                    spec_read_be32(buf.subrange(12, 16)),
                    buf.subrange(20, buf.len() as int),
                    Option::None,
                ),
            )
        }
    } else if buf.subrange(0, 4) != spec_signature(FORMAT_V2) {
        Option::None
    } else {
        let fp_len = spec_read_be32(buf.subrange(16, 20)) as int;
        let hb_len = spec_read_be32(buf.subrange(20, 24)) as int;
        if buf.len() - HEADER_LEN < fp_len + hb_len {
            Option::None
        } else {
            Option::Some(
                (
                    spec_read_be64(buf.subrange(4, 12)),
                    spec_read_be32(buf.subrange(12, 16)),
                    buf.subrange(HEADER_LEN as int, HEADER_LEN + fp_len),
                    Option::Some(buf.subrange(HEADER_LEN + fp_len, HEADER_LEN + fp_len + hb_len)),
                ),
            )
        }
    }
}

/// Builds the version-2 byte image.
pub(crate) fn encode_xor8(seed: u64, block_length: u32, fp: &Vec<u8>, hb: &Vec<u8>) -> (r: Vec<u8>)
    ensures
        r@ == spec_xor8_encoding(seed, block_length, fp@, hb@),
{
    let mut buf: Vec<u8> = Vec::new();
    buf.push(0x5e);
    buf.push(0x54);
    buf.push(0x4c);
    buf.push(FORMAT_V2);
    proof {
        assert(buf@ =~= spec_signature(FORMAT_V2));
    }
    push_be64(&mut buf, seed);
    push_be32(&mut buf, block_length);
    let fpl: u32 = ((fp.len() as u64) % 0x1_0000_0000) as u32;
    let hbl: u32 = ((hb.len() as u64) % 0x1_0000_0000) as u32;
    push_be32(&mut buf, fpl);
    push_be32(&mut buf, hbl);
    let mut i: usize = 0;
    let ghost header = buf@;
    while i < fp.len()
        invariant
            i <= fp@.len(),
            buf@ == header + fp@.subrange(0, i as int),
        decreases fp@.len() - i,
    {
        buf.push(fp[i]);
        proof {
            assert(header + fp@.subrange(0, i + 1) =~= (header + fp@.subrange(0, i as int)).push(
                fp@[i as int],
            ));
        }
        i = i + 1;
    }
    let mut j: usize = 0;
    let ghost with_fp = buf@;
    while j < hb.len()
        invariant
            j <= hb@.len(),
            buf@ == with_fp + hb@.subrange(0, j as int),
        decreases hb@.len() - j,
    {
        buf.push(hb[j]);
        proof {
            assert(with_fp + hb@.subrange(0, j + 1) =~= (with_fp + hb@.subrange(0, j as int)).push(
                hb@[j as int],
            ));
        }
        j = j + 1;
    }
    proof {
        assert(fp@.subrange(0, fp@.len() as int) =~= fp@);
        assert(hb@.subrange(0, hb@.len() as int) =~= hb@);
        assert(buf@ =~= spec_xor8_encoding(seed, block_length, fp@, hb@));
    }
    buf
}

fn copy_range(buf: &Vec<u8>, from: usize, to: usize) -> (r: Vec<u8>)
    requires
        from <= to <= buf@.len(),
    ensures
        r@ == buf@.subrange(from as int, to as int),
{
    let mut r: Vec<u8> = Vec::new();
    let mut i: usize = from;
    while i < to
        invariant
            from <= i <= to <= buf@.len(),
            r@ == buf@.subrange(from as int, i as int),
        decreases to - i,
    {
        r.push(buf[i]);
        proof {
            assert(buf@.subrange(from as int, i + 1) =~= buf@.subrange(from as int, i as int).push(
                buf@[i as int],
            ));
        }
        i = i + 1;
    }
    r
}

/// Decodes a byte image into seed, block length, fingerprints, and, for a
/// version-2 image, the hash-builder bytes. Malformed input is rejected
/// exactly when [`spec_xor8_decoding`] rejects it; the error flag tells a
/// recognizable-but-truncated image (`false`) from an unknown signature
/// (`true`).
pub(crate) fn decode_xor8(buf: &Vec<u8>) -> (r: Result<(u64, u32, Vec<u8>, Option<Vec<u8>>), bool>)
    ensures
        match r {
            Ok((seed, block_length, fp, hb)) => {
                &&& spec_xor8_decoding(buf@) matches Option::Some(d)
                &&& d.0 == seed
                &&& d.1 == block_length
                &&& d.2 == fp@
                &&& match hb {
                    Option::Some(h) => d.3 matches Option::Some(dh) && dh == h@,
                    Option::None => d.3 is None,
                }
            },
            Err(sig_fault) => {
                &&& spec_xor8_decoding(buf@) is None
                &&& sig_fault == (buf@.len() >= HEADER_LEN && buf@.subrange(0, 4) != spec_signature(
                    FORMAT_V1,
                ) && buf@.subrange(0, 4) != spec_signature(FORMAT_V2))
            },
        },
{
    if buf.len() < HEADER_LEN {
        return Err(false);
    }
    let v1 = buf[0] == 0x5e && buf[1] == 0x54 && buf[2] == 0x4c && buf[3] == FORMAT_V1;
    let v2 = buf[0] == 0x5e && buf[1] == 0x54 && buf[2] == 0x4c && buf[3] == FORMAT_V2;
    proof {
        let sig = buf@.subrange(0, 4);
        assert(sig[0] == buf@[0] && sig[1] == buf@[1] && sig[2] == buf@[2] && sig[3] == buf@[3]);
        if v1 {
            assert(sig =~= spec_signature(FORMAT_V1));
        } else {
            assert(sig != spec_signature(FORMAT_V1)) by {
                if sig == spec_signature(FORMAT_V1) {
                    assert(sig[0] == 0x5e && sig[1] == 0x54 && sig[2] == 0x4c && sig[3]
                        == FORMAT_V1);
                }
            }
        }
        if v2 {
            assert(sig =~= spec_signature(FORMAT_V2));
        } else {
            assert(sig != spec_signature(FORMAT_V2)) by {
                if sig == spec_signature(FORMAT_V2) {
                    assert(sig[0] == 0x5e && sig[1] == 0x54 && sig[2] == 0x4c && sig[3]
                        == FORMAT_V2);
                }
            }
        }
    }
    if v1 {
        let fp_len = read_be32(buf, 16) as usize;
        if buf.len() - 20 < fp_len {
            return Err(false);
        }
        let seed = read_be64(buf, 4);
        let block_length = read_be32(buf, 12);
        let fp = copy_range(buf, 20, buf.len());
        return Ok((seed, block_length, fp, None));
    }
    if !v2 {
        return Err(true);
    }
    let fp_len = read_be32(buf, 16) as usize;
    let hb_len = read_be32(buf, 20) as usize;
    if buf.len() - HEADER_LEN < fp_len || buf.len() - HEADER_LEN - fp_len < hb_len {
        return Err(false);
    }
    let seed = read_be64(buf, 4);
    let block_length = read_be32(buf, 12);
    let fp = copy_range(buf, HEADER_LEN, HEADER_LEN + fp_len);
    let hb = copy_range(buf, HEADER_LEN + fp_len, HEADER_LEN + fp_len + hb_len);
    Ok((seed, block_length, fp, Some(hb)))
}

/// Decoding a version-2 image gives back exactly the seed, block length,
/// fingerprints and hash-builder bytes it was built from.
pub proof fn lemma_xor8_codec_round_trip(seed: u64, block_length: u32, fp: Seq<u8>, hb: Seq<u8>)
    requires
        fp.len() <= 0xffff_ffff,
        hb.len() <= 0xffff_ffff,
    ensures
        spec_xor8_decoding(spec_xor8_encoding(seed, block_length, fp, hb)) == Option::Some(
            (seed, block_length, fp, Option::Some(hb)),
        ),
{
    let buf = spec_xor8_encoding(seed, block_length, fp, hb);
    assert(buf.len() == HEADER_LEN + fp.len() + hb.len());
    assert(buf.subrange(0, 4) =~= spec_signature(FORMAT_V2));
    assert(spec_signature(FORMAT_V2) != spec_signature(FORMAT_V1)) by {
        assert(spec_signature(FORMAT_V2)[3] == FORMAT_V2);
        assert(spec_signature(FORMAT_V1)[3] == FORMAT_V1);
    }
    assert(buf.subrange(4, 12) =~= spec_be64(seed));
    assert(buf.subrange(12, 16) =~= spec_be32(block_length));
    assert(buf.subrange(16, 20) =~= spec_be32((fp.len() % 0x1_0000_0000) as u32));
    assert(buf.subrange(20, 24) =~= spec_be32((hb.len() % 0x1_0000_0000) as u32));
    lemma_be64_round_trip(seed);
    lemma_be32_round_trip(block_length);
    lemma_be32_round_trip((fp.len() % 0x1_0000_0000) as u32);
    lemma_be32_round_trip((hb.len() % 0x1_0000_0000) as u32);
    assert(spec_read_be32(buf.subrange(16, 20)) == fp.len());
    assert(spec_read_be32(buf.subrange(20, 24)) == hb.len());
    assert(buf.subrange(HEADER_LEN as int, HEADER_LEN + fp.len()) =~= fp);
    assert(buf.subrange(HEADER_LEN + fp.len(), HEADER_LEN + fp.len() + hb.len()) =~= hb);
}

} // verus!
