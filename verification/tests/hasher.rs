use dupdup::hasher::{hash_bytes, HashMode, StreamingHasher};

fn md5_hex(data: &[u8]) -> String {
    format!("{:x}", md5::compute(data))
}

fn sample(len: usize) -> Vec<u8> {
    (0..len).map(|i| (i * 31 % 256) as u8).collect()
}

#[test]
fn known_digest_of_the_alphabet() {
    let outcome = hash_bytes(b"abcdefghijklmnopqrstuvwxyz", HashMode::Full, 5);
    assert_eq!(outcome.digest.to_hex(), "c3fcd3d76192e4007dfb496cca67e13b");
    assert_eq!(outcome.bytes_read, 26);
}

#[test]
fn full_digest_is_the_same_for_every_buffer_size() {
    let data = sample(10_000);
    let expected = md5_hex(&data);
    for capacity in [1usize, 2, 3, 64, 4096, 9_999, 10_000, 10_001, 16_384] {
        let outcome = hash_bytes(&data, HashMode::Full, capacity);
        assert_eq!(outcome.digest.to_hex(), expected);
        assert_eq!(outcome.bytes_read, 10_000);
    }
}

#[test]
fn partial_digest_is_the_same_for_every_buffer_size() {
    let data = sample(10_000);
    let expected = md5_hex(&data[..4096]);
    for capacity in [1usize, 2, 3, 64, 1000, 4095, 4096, 4097, 5000, 16_384] {
        let outcome = hash_bytes(&data, HashMode::Partial(4096), capacity);
        assert_eq!(outcome.digest.to_hex(), expected);
        assert_eq!(outcome.bytes_read, 4096);
    }
}

#[test]
fn partial_digest_never_reads_past_the_budget() {
    let data = sample(10_000);
    let outcome = hash_bytes(&data, HashMode::Partial(4), 3);
    assert_eq!(outcome.bytes_read, 4);
    assert_eq!(outcome.digest.to_hex(), md5_hex(&data[..4]));
    let short = hash_bytes(&data[..3], HashMode::Partial(4), 16);
    assert_eq!(short.bytes_read, 3);
    assert_eq!(short.digest.to_hex(), md5_hex(&data[..3]));
}

#[test]
fn zero_budget_reads_nothing() {
    let data = sample(100);
    let outcome = hash_bytes(&data, HashMode::Partial(0), 8);
    assert_eq!(outcome.bytes_read, 0);
    assert_eq!(outcome.digest.to_hex(), md5_hex(b""));
}

#[test]
fn content_that_ends_on_a_buffer_boundary_is_read_whole() {
    let data = sample(4096);
    let full = hash_bytes(&data, HashMode::Full, 1024);
    assert_eq!(full.bytes_read, 4096);
    assert_eq!(full.digest.to_hex(), md5_hex(&data));
    let partial = hash_bytes(&data, HashMode::Partial(4096), 4096);
    assert_eq!(partial.digest, full.digest);
}

#[test]
fn hasher_stops_at_a_short_chunk() {
    let mut hasher = StreamingHasher::new(HashMode::Full, 4);
    assert_eq!(hasher.request(), 4);
    assert!(!hasher.feed(b"abcd"));
    assert!(!hasher.feed(b"efgh"));
    assert!(hasher.feed(b"ij"));
    assert_eq!(hasher.bytes_read(), 10);
    assert!(hasher.feed(b"ignored"));
    assert_eq!(hasher.bytes_read(), 10);
    let outcome = hasher.finish();
    assert_eq!(outcome.bytes_read, 10);
    assert_eq!(outcome.digest.to_hex(), md5_hex(b"abcdefghij"));
}

#[test]
fn hasher_stops_when_the_budget_is_met() {
    let mut hasher = StreamingHasher::new(HashMode::Partial(8), 4);
    assert_eq!(hasher.request(), 4);
    assert!(!hasher.feed(b"abcd"));
    assert_eq!(hasher.request(), 4);
    assert!(hasher.feed(b"efgh"));
    assert_eq!(hasher.request(), 0);
    let outcome = hasher.finish();
    assert_eq!(outcome.bytes_read, 8);
    assert_eq!(outcome.digest.to_hex(), md5_hex(b"abcdefgh"));
}

#[test]
fn hasher_folds_in_the_last_short_chunk_and_an_empty_one() {
    let mut hasher = StreamingHasher::new(HashMode::Partial(100), 4);
    assert!(!hasher.feed(b"abcd"));
    assert!(hasher.feed(b""));
    assert_eq!(hasher.finish().digest.to_hex(), md5_hex(b"abcd"));
    let mut short = StreamingHasher::new(HashMode::Partial(100), 4);
    assert!(short.feed(b"abc"));
    assert_eq!(short.finish().digest.to_hex(), md5_hex(b"abc"));
}

#[test]
fn hasher_asks_for_what_is_left_of_the_budget() {
    let mut hasher = StreamingHasher::new(HashMode::Partial(6), 4);
    assert_eq!(hasher.request(), 4);
    assert!(!hasher.feed(b"abcd"));
    assert_eq!(hasher.request(), 2);
    assert!(hasher.feed(b"ef"));
    let outcome = hasher.finish();
    assert_eq!(outcome.bytes_read, 6);
    assert_eq!(outcome.digest.to_hex(), md5_hex(b"abcdef"));
    let mut cut = StreamingHasher::new(HashMode::Partial(6), 4);
    assert!(!cut.feed(b"abcd"));
    assert!(cut.feed(b"e"));
    assert_eq!(cut.finish().digest.to_hex(), md5_hex(b"abcde"));
}
