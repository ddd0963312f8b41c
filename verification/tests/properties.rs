//! Property tests: determinism, seed sensitivity, streaming/one-shot
//! equivalence under many chunkings, and idempotent finalize, for both
//! algorithm versions.

use chibihash::v1;
use chibihash::v2;

fn sample_input() -> Vec<u8> {
    // 100 bytes: spans three whole stripes plus a 4-byte tail.
    (0..100u32).map(|i| (i * 37 + 11) as u8).collect()
}

#[test]
fn determinism_v1() {
    let data = sample_input();
    for seed in [0u64, 1, 55555, u64::MAX] {
        assert_eq!(v1::chibi_hash64(&data, seed), v1::chibi_hash64(&data, seed));
        assert_eq!(v1::chibi_hash64(b"", seed), v1::chibi_hash64(b"", seed));
    }
}

#[test]
fn determinism_v2() {
    let data = sample_input();
    for seed in [0u64, 1, 55555, u64::MAX] {
        assert_eq!(v2::chibi_hash64(&data, seed), v2::chibi_hash64(&data, seed));
        assert_eq!(v2::chibi_hash64(b"", seed), v2::chibi_hash64(b"", seed));
    }
}

#[test]
fn seed_sensitivity_on_published_vectors() {
    // The published vectors give the empty input under two seeds; the
    // digests differ, for both versions.
    assert_ne!(v1::chibi_hash64(b"", 0), v1::chibi_hash64(b"", 55555));
    assert_eq!(v1::chibi_hash64(b"", 0), 0x9EA80F3B18E26CFB);
    assert_eq!(v1::chibi_hash64(b"", 55555), 0x2EED9399FC4AC7E5);

    assert_ne!(v2::chibi_hash64(b"", 0), v2::chibi_hash64(b"", 55555));
    assert_eq!(v2::chibi_hash64(b"", 0), 0xD4F69E3ECCF128FC);
    assert_eq!(v2::chibi_hash64(b"", 55555), 0x58AEE94CA9FB5092);
}

#[test]
fn streaming_equivalence_zero_length_chunks_v1() {
    let data = sample_input();
    let expected = v1::chibi_hash64(&data, 7);
    let mut s = v1::StreamingChibiHasher::new(7);
    s.update(b"");
    s.update(&data[..50]);
    s.update(b"");
    s.update(&data[50..]);
    s.update(b"");
    assert_eq!(s.finalize(), expected);
}

#[test]
fn streaming_equivalence_zero_length_chunks_v2() {
    let data = sample_input();
    let expected = v2::chibi_hash64(&data, 7);
    let mut s = v2::StreamingChibiHasher::new(7);
    s.update(b"");
    s.update(&data[..50]);
    s.update(b"");
    s.update(&data[50..]);
    s.update(b"");
    assert_eq!(s.finalize(), expected);
}

#[test]
fn streaming_equivalence_single_byte_chunks_v1() {
    let data = sample_input();
    let expected = v1::chibi_hash64(&data, 42);
    let mut s = v1::StreamingChibiHasher::new(42);
    for b in &data {
        s.update(&[*b]);
    }
    assert_eq!(s.finalize(), expected);
}

#[test]
fn streaming_equivalence_single_byte_chunks_v2() {
    let data = sample_input();
    let expected = v2::chibi_hash64(&data, 42);
    let mut s = v2::StreamingChibiHasher::new(42);
    for b in &data {
        s.update(&[*b]);
    }
    assert_eq!(s.finalize(), expected);
}

#[test]
fn streaming_equivalence_straddling_chunks_v1() {
    let data = sample_input();
    let expected = v1::chibi_hash64(&data, 3);
    // Split points inside a stripe, inside an 8-byte word, and exactly on
    // the stripe boundaries at 32 and 64.
    for split in [1usize, 7, 31, 32, 33, 63, 64, 65, 99, 100] {
        let mut s = v1::StreamingChibiHasher::new(3);
        s.update(&data[..split]);
        s.update(&data[split..]);
        assert_eq!(s.finalize(), expected, "split at {}", split);
    }
    // Three-way split straddling both stripe boundaries.
    let mut s = v1::StreamingChibiHasher::new(3);
    s.update(&data[..30]);
    s.update(&data[30..70]);
    s.update(&data[70..]);
    assert_eq!(s.finalize(), expected);
}

#[test]
fn streaming_equivalence_straddling_chunks_v2() {
    let data = sample_input();
    let expected = v2::chibi_hash64(&data, 3);
    for split in [1usize, 7, 31, 32, 33, 63, 64, 65, 99, 100] {
        let mut s = v2::StreamingChibiHasher::new(3);
        s.update(&data[..split]);
        s.update(&data[split..]);
        assert_eq!(s.finalize(), expected, "split at {}", split);
    }
    let mut s = v2::StreamingChibiHasher::new(3);
    s.update(&data[..30]);
    s.update(&data[30..70]);
    s.update(&data[70..]);
    assert_eq!(s.finalize(), expected);
}

#[test]
fn finalize_idempotent_v1() {
    let data = sample_input();
    let mut s = v1::StreamingChibiHasher::new(9);
    s.update(&data[..45]);
    let d1 = s.finalize();
    let d2 = s.finalize();
    assert_eq!(d1, d2, "finalize must not change the state");
    assert_eq!(d1, v1::chibi_hash64(&data[..45], 9));

    // Finalize interleaved with further updates reflects all bytes so far.
    s.update(&data[45..]);
    let d3 = s.finalize();
    let d4 = s.finalize();
    assert_eq!(d3, d4);
    assert_eq!(d3, v1::chibi_hash64(&data, 9));
}

#[test]
fn finalize_idempotent_v2() {
    let data = sample_input();
    let mut s = v2::StreamingChibiHasher::new(9);
    s.update(&data[..45]);
    let d1 = s.finalize();
    let d2 = s.finalize();
    assert_eq!(d1, d2, "finalize must not change the state");
    assert_eq!(d1, v2::chibi_hash64(&data[..45], 9));

    s.update(&data[45..]);
    let d3 = s.finalize();
    let d4 = s.finalize();
    assert_eq!(d3, d4);
    assert_eq!(d3, v2::chibi_hash64(&data, 9));
}

#[test]
fn hasher_buffer_matches_one_shot() {
    // Writing in pieces and finishing equals hashing the concatenation.
    let mut h = v1::ChibiHasher::new(5);
    h.write(b"abc");
    h.write(b"");
    h.write(b"defgh");
    assert_eq!(h.finish(), v1::chibi_hash64(b"abcdefgh", 5));
    assert_eq!(h.hash(b"abcdefgh"), v1::chibi_hash64(b"abcdefgh", 5));

    let mut h = v2::ChibiHasher::new(5);
    h.write(b"abc");
    h.write(b"");
    h.write(b"defgh");
    assert_eq!(h.finish(), v2::chibi_hash64(b"abcdefgh", 5));
    assert_eq!(h.hash(b"abcdefgh"), v2::chibi_hash64(b"abcdefgh", 5));
}
