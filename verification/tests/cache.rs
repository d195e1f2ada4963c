use imageproxy::cache::Cache;
use imageproxy::errors::FetchError;
use imageproxy::fingerprint::cache_key_of;

#[test]
fn miss_fetches_and_stores() {
    let mut cache = Cache::new(4);
    let r = cache.get_or_fetch(1, || Ok(vec![10u8, 20]));
    assert_eq!(r.unwrap(), vec![10u8, 20]);
    assert!(cache.contains(1));
    assert_eq!(cache.len(), 1);
}

#[test]
fn hit_returns_stored_bytes() {
    let mut cache = Cache::new(4);
    cache.get_or_fetch(1, || Ok(vec![10u8, 20])).unwrap();
    let r = cache.get_or_fetch(1, || Ok(vec![99u8]));
    assert_eq!(r.unwrap(), vec![10u8, 20]);
    assert_eq!(cache.len(), 1);
}

#[test]
fn cached_key_never_invokes_fetch() {
    let mut cache = Cache::new(2);
    cache.get_or_fetch(7, || Ok(vec![1u8, 2, 3])).unwrap();
    let r = cache.get_or_fetch(7, || -> Result<Vec<u8>, FetchError> {
        panic!("fetch must not be invoked for a cached key")
    });
    assert_eq!(r.unwrap(), vec![1u8, 2, 3]);
}

#[test]
fn failed_fetch_stores_nothing() {
    let mut cache = Cache::new(2);
    let r = cache.get_or_fetch(9, || Err(FetchError::Status(404)));
    assert_eq!(r.unwrap_err(), FetchError::Status(404));
    assert!(!cache.contains(9));
    assert_eq!(cache.len(), 0);
}

#[test]
fn failed_fetch_leaves_size_unchanged() {
    let mut cache = Cache::new(2);
    cache.get_or_fetch(1, || Ok(vec![1u8])).unwrap();
    let before = cache.len();
    let r = cache.get_or_fetch(2, || Err(FetchError::Transport));
    assert_eq!(r.unwrap_err(), FetchError::Transport);
    assert_eq!(cache.len(), before);
    assert!(!cache.contains(2));
}

#[test]
fn size_never_exceeds_capacity() {
    let mut cache = Cache::new(2);
    for key in 0u64..10 {
        cache.get_or_fetch(key, || Ok(vec![key as u8])).unwrap();
        assert!(cache.len() <= 2);
    }
    assert_eq!(cache.len(), 2);
}

#[test]
fn lru_entry_is_evicted_first() {
    let a: u64 = 1;
    let b: u64 = 2;
    let c: u64 = 3;
    let mut cache = Cache::new(2);
    cache.get_or_fetch(a, || Ok(vec![b'a'])).unwrap();
    cache.get_or_fetch(b, || Ok(vec![b'b'])).unwrap();
    cache.get_or_fetch(a, || Ok(vec![b'x'])).unwrap();
    cache.get_or_fetch(c, || Ok(vec![b'c'])).unwrap();
    assert!(!cache.contains(b), "the least recently used entry must be evicted");
    assert!(cache.contains(a));
    assert!(cache.contains(c));
    assert_eq!(cache.len(), 2);
}

#[test]
fn repeated_insert_updates_without_duplicate() {
    let mut cache = Cache::new(2);
    cache.get_or_fetch(5, || Ok(vec![1u8])).unwrap();
    cache.get_or_fetch(5, || Ok(vec![2u8])).unwrap();
    assert_eq!(cache.len(), 1);
    let r = cache.get_or_fetch(5, || -> Result<Vec<u8>, FetchError> {
        panic!("cached key refetched")
    });
    assert_eq!(r.unwrap(), vec![1u8]);
}

#[test]
fn fingerprint_of_empty_string() {
    assert_eq!(cache_key_of(""), 0xcbf2_9ce4_8422_2325);
}

#[test]
fn fingerprint_known_value() {
    assert_eq!(cache_key_of("a"), 0xaf63_dc4c_8601_ec8c);
}

#[test]
fn fingerprint_is_deterministic_and_discriminating() {
    let u = "https://example.com/one.png";
    let v = "https://example.com/two.png";
    assert_eq!(cache_key_of(u), cache_key_of(u));
    assert_ne!(cache_key_of(u), cache_key_of(v));
}
