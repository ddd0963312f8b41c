//! Tests for the internals of both algorithm versions: word loads, basic
//! hashing, the hasher type, and streaming against known vectors.

use chibihash::v1;
use chibihash::v2;

#[test]
fn mod_test_load_u64_le() {
    let bytes = [1, 2, 3, 4, 5, 6, 7, 8];
    assert_eq!(v1::load_u64_le(&bytes), 0x0807060504030201);
    assert_eq!(v2::load_u64_le(&bytes), 0x0807060504030201);
}

#[test]
fn test_load_u32_le() {
    let bytes = [1, 2, 3, 4];
    assert_eq!(v2::load_u32_le(&bytes), 0x04030201);
}

#[test]
fn mod_test_no_std() {
    let key = b"abcdefgh";
    let hash = v1::chibi_hash64(key, 0);
    assert_eq!(hash, 0x8F922660063E3E75);
    let hash = v2::chibi_hash64(key, 0);
    assert_eq!(hash, 0xA2E39BE0A0689B32);
}

#[test]
fn mod_test_basic_hashing() {
    let data = b"Hello, World!";
    let hash1 = v1::chibi_hash64(data, 0);
    let hash2 = v1::chibi_hash64(data, 0);
    assert_eq!(hash1, hash2, "Same input should produce same hash");

    let hash3 = v1::chibi_hash64(data, 1);
    assert_ne!(
        hash1, hash3,
        "Different seeds should produce different hashes"
    );
}

#[test]
fn mod_test_hasher_trait() {
    let mut hasher1 = v1::ChibiHasher::new(0);
    let mut hasher2 = v1::ChibiHasher::new(0);

    hasher1.write("Hello, World!".as_bytes());
    hasher2.write("Hello, World!".as_bytes());

    assert_eq!(
        hasher1.finish(),
        hasher2.finish(),
        "Same input should produce same hash"
    );

    let mut hasher3 = v1::ChibiHasher::new(1);
    hasher3.write("Hello, World!".as_bytes());
    assert_ne!(
        hasher1.finish(),
        hasher3.finish(),
        "Different seeds should produce different hashes"
    );
}

#[test]
fn mod_test_streaming_matches_direct() {
    let v1_cases: [(&[u8], u64, u64); 8] = [
        (b"", 0, 0x9EA80F3B18E26CFB),
        (b"", 55555, 0x2EED9399FC4AC7E5),
        (b"hi", 0, 0xAF98F3924F5C80D6),
        (b"123", 0, 0x893A5CCA05B0A883),
        (b"abcdefgh", 0, 0x8F922660063E3E75),
        (b"Hello, world!", 0, 0x5AF920D8C0EBFE9F),
        (b"qwertyuiopasdfghjklzxcvbnm123456", 0, 0x2EF296DB634F6551),
        (b"qwertyuiopasdfghjklzxcvbnm123456789", 0, 0x0F56CF3735FFA943),
    ];
    for (input, seed, expected) in v1_cases {
        let direct = v1::chibi_hash64(input, seed);
        assert_eq!(
            direct, expected,
            "Direct hash mismatch for input: {:?}, seed: {}, got: {:016X}, expected: {:016X}",
            input, seed, direct, expected
        );

        let mut streaming = v1::StreamingChibiHasher::new(seed);
        streaming.update(input);
        let streaming_result = streaming.finalize();
        assert_eq!(
            streaming_result, expected,
            "Streaming hash mismatch for input: {:?}, seed: {}, got: {:016X}, expected: {:016X}",
            input, seed, streaming_result, expected
        );
    }

    let mut streaming = v1::StreamingChibiHasher::new(0);
    streaming.update(b"Hello, ");
    streaming.update(b"world!");
    assert_eq!(
        streaming.finalize(),
        0x5AF920D8C0EBFE9F,
        "Split streaming should match known value"
    );

    let v2_cases: [(&[u8], u64, u64); 8] = [
        (b"", 55555, 0x58AEE94CA9FB5092),
        (b"", 0, 0xD4F69E3ECCF128FC),
        (b"hi", 0, 0x92C85CA994367DAC),
        (b"123", 0, 0x788A224711FF6E25),
        (b"abcdefgh", 0, 0xA2E39BE0A0689B32),
        (b"Hello, world!", 0, 0xABF8EB3100B2FEC7),
        (b"qwertyuiopasdfghjklzxcvbnm123456", 0, 0x90FC5DB7F56967FA),
        (b"qwertyuiopasdfghjklzxcvbnm123456789", 0, 0x6DCDCE02882A4975),
    ];
    for (input, seed, expected) in v2_cases {
        let direct = v2::chibi_hash64(input, seed);
        assert_eq!(direct, expected, "Direct hash mismatch");

        let mut streaming = v2::StreamingChibiHasher::new(seed);
        streaming.update(input);
        let streaming_result = streaming.finalize();
        assert_eq!(
            streaming_result, expected,
            "Streaming hash mismatch for input: {:?}, seed: {}, got: {:016X}, expected: {:016X}",
            input, seed, streaming_result, expected
        );
    }

    let (seed, expected) = (0, 0xABF8EB3100B2FEC7);
    let mut streaming = v2::StreamingChibiHasher::new(seed);
    streaming.update(b"Hello, ");
    streaming.update(b"world!");
    assert_eq!(
        streaming.finalize(),
        expected,
        "Split streaming should match expected hash"
    );
}

#[test]
fn test_known_hashes() {
    let test_cases = [
        ("", 55555, 0x58AEE94CA9FB5092),
        ("", 0, 0xD4F69E3ECCF128FC),
        ("hi", 0, 0x92C85CA994367DAC),
        ("123", 0, 0x788A224711FF6E25),
        ("abcdefgh", 0, 0xA2E39BE0A0689B32),
        ("Hello, world!", 0, 0xABF8EB3100B2FEC7),
        ("qwertyuiopasdfghjklzxcvbnm123456", 0, 0x90FC5DB7F56967FA),
        ("qwertyuiopasdfghjklzxcvbnm123456789", 0, 0x6DCDCE02882A4975),
    ];

    for (input, seed, expected) in test_cases {
        assert_eq!(v2::chibi_hash64(input.as_bytes(), seed), expected);
    }
}
