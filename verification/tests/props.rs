use rand::rngs::StdRng;
use rand::Rng;
use rand::SeedableRng;
use xorfilter::xor8::Xor8;
use xorfilter::xor8::Xor8Builder;
use xorfilter::BuildHasherDefault;
use xorfilter::Error;
use xorfilter::Fuse16;
use xorfilter::Fuse8;
use std::collections::hash_map::RandomState;

use xorfilter::NoHash;

fn random_digests(seed: u64, n: usize) -> Vec<u64> {
    let mut rng = StdRng::seed_from_u64(seed);
    let mut keys: Vec<u64> = Vec::with_capacity(n);
    for _ in 0..n {
        keys.push(rng.gen());
    }
    keys
}

/// No false negatives: every digest of a successful build answers positively,
/// for each of the three families.
#[test]
fn no_false_negatives_all_families() {
    let digests = random_digests(7, 50_000);

    let mut builder = Xor8Builder::<BuildHasherDefault>::new();
    let xor8 = builder.build_from_digests(&digests).expect("xor8 build failed");
    for d in digests.iter() {
        assert!(xor8.contains_digest(*d));
    }

    let mut fuse8 = Fuse8::<BuildHasherDefault>::new(digests.len() as u32);
    fuse8.build_keys(&digests).expect("fuse8 build failed");
    for d in digests.iter() {
        assert!(fuse8.contains_key(*d));
    }

    let mut fuse16 = Fuse16::<BuildHasherDefault>::new(digests.len() as u32);
    fuse16.build_keys(&digests).expect("fuse16 build failed");
    for d in digests.iter() {
        assert!(fuse16.contains_key(*d));
    }
}

/// Round-trip serialization: the decoded filter equals the encoded one on
/// seed, geometry and fingerprints, and still contains every built key.
#[test]
fn xor8_round_trip_bytes() {
    let keys = random_digests(11, 10_000);
    let mut builder = Xor8Builder::<BuildHasherDefault>::new();
    builder.populate(&keys);
    let filter = builder.build().expect("build failed");

    let bytes = filter.to_bytes();
    assert_eq!(&bytes[0..4], &[0x5e, 0x54, 0x4c, 2]);
    let read = Xor8::<BuildHasherDefault>::from_bytes(bytes).expect("from_bytes failed");
    assert!(read == filter, "filter changed across encode and decode");
    assert_eq!(read.seed, filter.seed);
    assert_eq!(read.block_length, filter.block_length);
    assert_eq!(read.finger_prints, filter.finger_prints);
    for key in keys.iter() {
        assert!(read.contains(key));
    }
}

/// Determinism under the fixed seed chain: two builds from the same digest
/// list produce identical seeds and fingerprint arrays, for all families.
#[test]
fn deterministic_rebuild() {
    let digests = random_digests(23, 20_000);

    let mut b1 = Xor8Builder::<NoHash>::with_hasher(NoHash);
    let mut b2 = Xor8Builder::<NoHash>::with_hasher(NoHash);
    let f1 = b1.build_from_digests(&digests).expect("build failed");
    let f2 = b2.build_from_digests(&digests).expect("build failed");
    assert_eq!(f1.seed, f2.seed);
    assert_eq!(f1.block_length, f2.block_length);
    assert_eq!(f1.finger_prints, f2.finger_prints);
    assert_eq!(f1.to_bytes(), f2.to_bytes());

    let mut g1 = Fuse8::<NoHash>::with_hasher(digests.len() as u32, NoHash);
    let mut g2 = Fuse8::<NoHash>::with_hasher(digests.len() as u32, NoHash);
    g1.build_keys(&digests).expect("build failed");
    g2.build_keys(&digests).expect("build failed");
    assert_eq!(g1.seed, g2.seed);
    assert_eq!(g1.finger_prints, g2.finger_prints);

    let mut h1 = Fuse16::<NoHash>::with_hasher(digests.len() as u32, NoHash);
    let mut h2 = Fuse16::<NoHash>::with_hasher(digests.len() as u32, NoHash);
    h1.build_keys(&digests).expect("build failed");
    h2.build_keys(&digests).expect("build failed");
    assert_eq!(h1.seed, h2.seed);
    assert_eq!(*h1.finger_prints, *h2.finger_prints);
}

/// Immutability: queries leave the serialized state of a built filter
/// byte-for-byte unchanged.
#[test]
fn queries_leave_filter_unchanged() {
    let keys = random_digests(31, 5_000);
    let mut builder = Xor8Builder::<BuildHasherDefault>::new();
    builder.populate(&keys);
    let filter = builder.build().expect("build failed");

    let before = filter.to_bytes();
    for key in keys.iter().take(1000) {
        filter.contains(key);
        filter.contains_digest(*key);
    }
    let mut rng = StdRng::seed_from_u64(77);
    for _ in 0..1000 {
        filter.contains_digest(rng.gen());
    }
    let after = filter.to_bytes();
    assert_eq!(before, after, "queries changed the filter state");
}

/// Empty build: all three families build successfully from nothing, and
/// random probes essentially always miss.
#[test]
fn empty_build_succeeds() {
    let mut builder = Xor8Builder::<BuildHasherDefault>::new();
    let xor8 = builder.build().expect("empty xor8 build failed");
    assert_eq!(xor8.len(), Some(0));

    let mut fuse8 = Fuse8::<BuildHasherDefault>::new(0);
    fuse8.build().expect("empty fuse8 build failed");

    let mut fuse16 = Fuse16::<BuildHasherDefault>::new(0);
    fuse16.build().expect("empty fuse16 build failed");
    assert_eq!(fuse16.len(), Some(0));

    let mut rng = StdRng::seed_from_u64(5);
    let mut hits = 0_u32;
    for _ in 0..1000 {
        let d: u64 = rng.gen();
        if xor8.contains_digest(d) {
            hits += 1;
        }
        if fuse8.contains_key(d) {
            hits += 1;
        }
        if fuse16.contains_key(d) {
            hits += 1;
        }
    }
    // An empty 8-bit filter still matches a random probe about one time in
    // 256; the 16-bit filter about one in 65536.
    assert!(hits < 30, "empty filters matched {} of 3000 probes", hits);
}

/// One key: the key is found and random probes miss at the expected rate.
#[test]
fn single_key_build() {
    let mut builder = Xor8Builder::<BuildHasherDefault>::new();
    builder.insert(&42_u64);
    let xor8 = builder.build().expect("xor8 build failed");
    assert!(xor8.contains(&42_u64));

    let mut fuse8 = Fuse8::<BuildHasherDefault>::new(1);
    fuse8.insert(&42_u64);
    fuse8.build().expect("fuse8 build failed");
    assert!(fuse8.contains(&42_u64));

    let mut fuse16 = Fuse16::<BuildHasherDefault>::new(1);
    fuse16.insert(&42_u64);
    fuse16.build().expect("fuse16 build failed");
    assert!(fuse16.contains(&42_u64));

    let mut rng = StdRng::seed_from_u64(9);
    let mut hits = 0_u32;
    for _ in 0..1000 {
        let k: u64 = rng.gen();
        if k != 42 && xor8.contains(&k) {
            hits += 1;
        }
    }
    assert!(hits < 25, "single-key filter matched {} of 1000 probes", hits);
}

/// Two keys: build succeeds for every family.
#[test]
fn two_key_build() {
    let mut builder = Xor8Builder::<BuildHasherDefault>::new();
    builder.populate_digests(&[1, 2]);
    let xor8 = builder.build().expect("xor8 build failed");
    assert!(xor8.contains_digest(1) && xor8.contains_digest(2));

    let mut fuse8 = Fuse8::<BuildHasherDefault>::new(2);
    fuse8.build_keys(&[1, 2]).expect("fuse8 build failed");
    assert!(fuse8.contains_key(1) && fuse8.contains_key(2));

    let mut fuse16 = Fuse16::<BuildHasherDefault>::new(2);
    fuse16.build_keys(&[1, 2]).expect("fuse16 build failed");
    assert!(fuse16.contains_key(1) && fuse16.contains_key(2));
}

/// Sequential keys: everything inserted is found, and probes outside the key
/// range miss at well under one percent.
#[test]
fn xor8_sequential_keys() {
    let keys: Vec<u64> = (1..=10_000_u64).collect();
    let mut builder = Xor8Builder::<BuildHasherDefault>::new();
    builder.populate(&keys);
    let filter = builder.build().expect("build failed");

    for key in keys.iter() {
        assert!(filter.contains(key), "key {} not present", key);
    }
    let mut misses = 0_u32;
    for key in 10_001..=20_000_u64 {
        if filter.contains(&key) {
            misses += 1;
        }
    }
    let rate = (misses as f64) * 100.0 / 10_000.0;
    println!("sequential probe false positive rate {}%", rate);
    assert!(rate < 1.0, "false positive rate {}% >= 1%", rate);
}

/// A hundred thousand keys in a Fuse16: under 20 bits per key and a
/// false-positive rate far below 0.4 percent over ten million probes.
#[test]
fn fuse16_large_build() {
    let digests = random_digests(41, 100_000);
    let mut filter = Fuse16::<BuildHasherDefault>::new(digests.len() as u32);
    filter.populate_keys(&digests);
    filter.build().expect("fuse16 build failed");

    for d in digests.iter() {
        assert!(filter.contains_key(*d), "digest {} not present", d);
    }

    let bpv = (filter.finger_prints.len() as f64) * 16.0 / (digests.len() as f64);
    println!("fuse16 bits per entry {} bits", bpv);
    assert!(bpv < 20.0, "bpv({}) >= 20.0", bpv);

    let mut rng = StdRng::seed_from_u64(43);
    let (probes, mut matches) = (10_000_000_u32, 0_u32);
    for _ in 0..probes {
        if filter.contains_key(rng.gen()) {
            matches += 1;
        }
    }
    let fpp = (matches as f64) * 100.0 / (probes as f64);
    println!("fuse16 false positive rate {}%", fpp);
    assert!(fpp < 0.40, "fpp({}) >= 0.40", fpp);
}

/// The empirical false-positive rate of the 8-bit filters stays under 0.4
/// percent over ten million probes outside the key set.
#[test]
fn xor8_false_positive_rate() {
    let digests = random_digests(53, 100_000);
    let mut builder = Xor8Builder::<BuildHasherDefault>::new();
    let filter = builder.build_from_digests(&digests).expect("build failed");

    let bpv = (filter.finger_prints.len() as f64) * 8.0 / (digests.len() as f64);
    assert!(bpv < 10.0, "bpv({}) >= 10.0", bpv);

    let mut rng = StdRng::seed_from_u64(59);
    let (probes, mut matches) = (10_000_000_u32, 0_u32);
    for _ in 0..probes {
        if filter.contains_digest(rng.gen()) {
            matches += 1;
        }
    }
    let fpp = (matches as f64) * 100.0 / (probes as f64);
    println!("xor8 false positive rate {}%", fpp);
    assert!(fpp < 0.40, "fpp({}) >= 0.40", fpp);
}

/// Two filters built over the same keys through independently salted random
/// hashers disagree in their internals yet both answer every key.
#[test]
fn random_hashers_differ() {
    let keys: Vec<u64> = (0..10_000_u64).collect();

    let mut b1 = Xor8Builder::<RandomState>::new();
    b1.populate(&keys);
    let f1 = b1.build().expect("build failed");

    let mut b2 = Xor8Builder::<RandomState>::new();
    b2.populate(&keys);
    let f2 = b2.build().expect("build failed");

    assert!(f1 != f2, "independently salted filters should differ");
    for key in keys.iter() {
        assert!(f1.contains(key));
        assert!(f2.contains(key));
    }
}

/// Deserialization rejects a wrong signature and a truncated image.
#[test]
fn from_bytes_rejects_malformed() {
    let keys = random_digests(61, 100);
    let mut builder = Xor8Builder::<BuildHasherDefault>::new();
    builder.populate(&keys);
    let filter = builder.build().expect("build failed");
    let good = filter.to_bytes();

    let mut bad_sig = good.clone();
    bad_sig[0] = b'x';
    match Xor8::<BuildHasherDefault>::from_bytes(bad_sig) {
        Err(Error::InvalidData(_, msg)) => assert_eq!(msg, "File signature incorrect"),
        _ => panic!("wrong signature must be rejected"),
    }

    let short = good[0..10].to_vec();
    match Xor8::<BuildHasherDefault>::from_bytes(short) {
        Err(Error::InvalidData(_, msg)) => assert_eq!(msg, "invalid byte slice"),
        _ => panic!("short buffer must be rejected"),
    }

    let mut truncated = good.clone();
    truncated.truncate(30);
    match Xor8::<BuildHasherDefault>::from_bytes(truncated) {
        Err(Error::InvalidData(_, msg)) => assert_eq!(msg, "invalid byte slice"),
        _ => panic!("overrunning lengths must be rejected"),
    }
}

/// A duplicated digest makes the xor8 peel fail every seed and surface the
/// fatal build error.
#[test]
fn xor8_duplicate_digests_fail() {
    let mut builder = Xor8Builder::<BuildHasherDefault>::new();
    match builder.build_from_digests(&[5, 6, 5]) {
        Err(Error::Fatal(_, msg)) => {
            assert!(msg.contains("Too many iterations"));
        },
        _ => panic!("duplicate digests must fail the build"),
    }
}

/// The dedup paths collapse duplicates: the accumulated count keeps every
/// insert while the built filter indexes the distinct digests.
#[test]
fn duplicate_inserts_collapse() {
    let mut builder = Xor8Builder::<BuildHasherDefault>::new();
    builder.populate_digests(&[9, 9, 9, 10]);
    assert_eq!(builder.num_digests, 4);
    let filter = builder.build().expect("build failed");
    assert_eq!(filter.len(), Some(2));
    assert!(filter.contains_digest(9) && filter.contains_digest(10));

    let mut fuse16 = Fuse16::<BuildHasherDefault>::new(4);
    fuse16.populate_keys(&[9, 9, 9, 10]);
    fuse16.build().expect("build failed");
    assert_eq!(fuse16.len(), Some(2));
    assert!(fuse16.contains_key(9) && fuse16.contains_key(10));
}

/// The version-1 image, which lacks the hash-builder block, is still read.
#[test]
fn from_bytes_reads_v1() {
    let keys = random_digests(67, 1_000);
    let mut builder = Xor8Builder::<BuildHasherDefault>::new();
    let filter = builder.build_from_digests(&keys).expect("build failed");

    // Reshape the version-2 image into its version-1 equivalent: signature
    // version byte 1, no fingerprint- or builder-length words, fingerprints
    // as the whole tail.
    let v2 = filter.to_bytes();
    let fp_len = u32::from_be_bytes([v2[16], v2[17], v2[18], v2[19]]) as usize;
    let mut v1: Vec<u8> = Vec::new();
    v1.extend_from_slice(&[0x5e, 0x54, 0x4c, 1]);
    v1.extend_from_slice(&v2[4..12]);
    v1.extend_from_slice(&v2[12..16]);
    v1.extend_from_slice(&v2[16..20]);
    v1.extend_from_slice(&v2[24..24 + fp_len]);

    let read = Xor8::<BuildHasherDefault>::from_bytes(v1).expect("v1 read failed");
    assert!(read == filter, "v1 image should decode to the same filter");
    for key in keys.iter() {
        assert!(read.contains_digest(*key));
    }
}

/// The old single-type filter and the builder/filter pair build the same
/// array from the same digest list.
#[test]
fn old_and_new_xor8_agree() {
    let digests = random_digests(71, 5_000);

    let mut old_filter = xorfilter::Xor8::<BuildHasherDefault>::new();
    old_filter.populate_keys(&digests);
    old_filter.build().expect("old build failed");

    let mut builder = Xor8Builder::<BuildHasherDefault>::new();
    builder.populate_digests(&digests);
    let new_filter = builder.build().expect("new build failed");

    assert_eq!(old_filter.seed, new_filter.seed);
    assert_eq!(old_filter.block_length, new_filter.block_length);
    assert_eq!(old_filter.finger_prints, *new_filter.finger_prints);
    for d in digests.iter() {
        assert!(old_filter.contains_key(*d));
        assert!(new_filter.contains_digest(*d));
    }
}

/// Bits per key stay within their family bounds at a hundred thousand keys.
#[test]
fn bits_per_key_bounds() {
    let digests = random_digests(79, 100_001);

    let mut builder = Xor8Builder::<BuildHasherDefault>::new();
    let xor8 = builder.build_from_digests(&digests).expect("build failed");
    let xor8_bpv = (xor8.finger_prints.len() as f64) * 8.0 / (digests.len() as f64);
    assert!(xor8_bpv <= 10.0, "xor8 bpv({}) > 10.0", xor8_bpv);

    let mut fuse8 = Fuse8::<BuildHasherDefault>::new(digests.len() as u32);
    fuse8.build_keys(&digests).expect("build failed");
    let fuse8_bpv = (fuse8.finger_prints.len() as f64) * 8.0 / (digests.len() as f64);
    assert!(fuse8_bpv <= 12.0, "fuse8 bpv({}) > 12.0", fuse8_bpv);

    let mut fuse16 = Fuse16::<BuildHasherDefault>::new(digests.len() as u32);
    fuse16.build_keys(&digests).expect("build failed");
    let fuse16_bpv = (fuse16.finger_prints.len() as f64) * 16.0 / (digests.len() as f64);
    assert!(fuse16_bpv <= 20.0, "fuse16 bpv({}) > 20.0", fuse16_bpv);
}

/// The planned sizes take their exact documented values: the xor8 array is
/// `32 + ceil(1.23 n)` rounded down to a multiple of three, and the
/// binary-fuse segment ladder gives 2048-slot segments at a hundred thousand
/// keys, for an array of 58 segments.
#[test]
fn planned_geometry_values() {
    let digests = random_digests(83, 10_000);
    let mut builder = Xor8Builder::<BuildHasherDefault>::new();
    let xor8 = builder.build_from_digests(&digests).expect("build failed");
    assert_eq!(xor8.block_length, 4110);
    assert_eq!(xor8.finger_prints.len(), 12330);

    let fuse16 = Fuse16::<BuildHasherDefault>::new(100_000);
    assert_eq!(fuse16.segment_length, 2048);
    assert_eq!(fuse16.segment_length_mask, 2047);
    assert_eq!(fuse16.segment_count, 56);
    assert_eq!(fuse16.segment_count_length, 114_688);
    assert_eq!(fuse16.finger_prints.len(), 118_784);

    let fuse8 = Fuse8::<BuildHasherDefault>::new(8);
    assert_eq!(fuse8.segment_length, 8);
    assert_eq!(fuse8.finger_prints.len(), 24);
}
