use dupdup::digest::ContentDigest;
use dupdup::hasher::{hash_bytes, HashMode};

#[test]
fn empty_input_has_the_known_md5_digest() {
    let outcome = hash_bytes(b"", HashMode::Full, 16);
    assert_eq!(outcome.digest.to_hex(), "d41d8cd98f00b204e9800998ecf8427e");
    assert_eq!(outcome.bytes_read, 0);
}

#[test]
fn digest_from_bytes_reads_most_significant_byte_first() {
    let mut bytes = [0u8; 16];
    bytes[15] = 1;
    bytes[0] = 0xab;
    let digest = ContentDigest::from_bytes(&bytes);
    assert_eq!(digest.value, (0xabu128 << 120) | 1);
    assert_eq!(digest.to_hex(), "ab000000000000000000000000000001");
}
