use launcher::Helpers;

/// The round-trip law on concrete values: write then read yields the
/// payload.
#[test]
fn write_then_read_round_trip() {
    let mut cache = Helpers::default();
    let payload = vec![1u8, 2, 3, 42];
    cache.write_cache("applications", payload.clone(), 1_000);
    assert_eq!(cache.read_cache("applications"), Some(&payload));
}

#[test]
fn read_of_absent_key_is_none() {
    let cache = Helpers::default();
    assert_eq!(cache.read_cache("nothing"), None);
}

#[test]
fn later_write_shadows_earlier() {
    let mut cache = Helpers::default();
    cache.write_cache("k", vec![1], 10);
    cache.write_cache("k", vec![2, 2], 20);
    assert_eq!(cache.read_cache("k"), Some(&vec![2u8, 2]));
}

/// A key never written is expired for every time-to-live; a key is fresh
/// right after it is written, for any positive time-to-live.
#[test]
fn expiry_semantics() {
    let mut cache = Helpers::default();
    assert!(cache.cache_expired("k", 3600, 1_000));
    assert!(cache.cache_expired("k", 0, 1_000));
    cache.write_cache("k", vec![7], 1_000);
    assert!(!cache.cache_expired("k", 1, 1_000));
    assert!(!cache.cache_expired("k", 3600, 1_000));
}

#[test]
fn entries_age_out() {
    let mut cache = Helpers::default();
    cache.write_cache("k", vec![7], 1_000);
    // 100 seconds later a 60-second time-to-live has lapsed...
    assert!(cache.cache_expired("k", 60, 1_100));
    // ...but a fresh write resets the clock.
    cache.write_cache("k", vec![8], 1_100);
    assert!(!cache.cache_expired("k", 60, 1_100));
}

#[test]
fn keys_are_independent() {
    let mut cache = Helpers::default();
    cache.write_cache("a", vec![1], 10);
    cache.write_cache("b", vec![2], 20);
    assert_eq!(cache.read_cache("a"), Some(&vec![1u8]));
    assert_eq!(cache.read_cache("b"), Some(&vec![2u8]));
    assert!(cache.cache_expired("a", 5, 100));
    assert!(!cache.cache_expired("b", 500, 100));
}
