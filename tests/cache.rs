use taggerrs::cache::{ImageData, MediaCache, CACHE_LIMIT, EVICT_BATCH, MAX_ASSET_BYTES};
use taggerrs::gallery::record_load;

fn key(i: usize) -> String {
    format!("/media/{}.png", i)
}

fn filled(n: usize) -> MediaCache {
    let mut cache = MediaCache::new();
    for i in 0..n {
        assert!(cache.begin_load_if_absent(&key(i)));
        cache.complete(&key(i), vec![1, 2, 3]);
    }
    cache
}

#[test]
fn begin_load_is_granted_once() {
    let mut cache = MediaCache::new();
    let granted: Vec<bool> = (0..8).map(|_| cache.begin_load_if_absent("/media/a.png")).collect();
    assert_eq!(granted.iter().filter(|g| **g).count(), 1);
    assert!(granted[0]);
    let entry = cache.try_get("/media/a.png").unwrap();
    assert!(entry.loading);
    assert!(entry.bytes.is_empty());
}

#[test]
fn completed_load_holds_its_bytes() {
    let mut cache = MediaCache::new();
    assert!(cache.begin_load_if_absent("/media/a.png"));
    cache.complete("/media/a.png", vec![7u8; 500]);
    let entry = cache.try_get("/media/a.png").unwrap();
    assert!(!entry.loading);
    assert_eq!(entry.bytes, vec![7u8; 500]);
    assert!(!cache.begin_load_if_absent("/media/a.png"));
}

#[test]
fn oversized_load_leaves_no_entry() {
    let mut cache = MediaCache::new();
    assert!(cache.begin_load_if_absent("/media/big.png"));
    cache.complete("/media/big.png", vec![0u8; MAX_ASSET_BYTES]);
    assert!(cache.try_get("/media/big.png").is_none());
    assert_eq!(cache.len(), 0);
}

#[test]
fn payload_just_under_limit_is_kept() {
    let mut cache = MediaCache::new();
    assert!(cache.begin_load_if_absent("/media/big.png"));
    cache.complete("/media/big.png", vec![0u8; 10 * 1024 * 1024 - 1]);
    assert_eq!(cache.try_get("/media/big.png").unwrap().bytes.len(), 10 * 1024 * 1024 - 1);
}

#[test]
fn failed_load_can_be_retried() {
    let mut cache = MediaCache::new();
    assert!(cache.begin_load_if_absent("/media/a.png"));
    cache.fail("/media/a.png");
    assert!(cache.try_get("/media/a.png").is_none());
    assert!(cache.begin_load_if_absent("/media/a.png"));
}

#[test]
fn record_load_routes_outcomes() {
    let mut cache = MediaCache::new();
    assert!(cache.begin_load_if_absent("/a.png"));
    record_load(&mut cache, "/a.png", Some(vec![9, 9]));
    assert_eq!(cache.try_get("/a.png").unwrap().bytes, vec![9, 9]);
    assert!(cache.begin_load_if_absent("/b.png"));
    record_load(&mut cache, "/b.png", None);
    assert!(cache.try_get("/b.png").is_none());
}

#[test]
fn two_hundredth_entry_evicts_nothing() {
    let mut cache = filled(199);
    assert!(cache.begin_load_if_absent(&key(199)));
    cache.complete(&key(199), vec![1]);
    assert_eq!(cache.len(), CACHE_LIMIT);
    assert!(cache.try_get(&key(0)).is_some());
}

#[test]
fn entry_past_the_limit_evicts_oldest_batch() {
    let mut cache = filled(200);
    assert!(cache.begin_load_if_absent(&key(200)));
    assert_eq!(cache.len(), CACHE_LIMIT - EVICT_BATCH + 1);
    for i in 0..EVICT_BATCH {
        assert!(cache.try_get(&key(i)).is_none());
    }
    assert!(cache.try_get(&key(EVICT_BATCH)).is_some());
    cache.complete(&key(200), vec![5]);
    assert_eq!(cache.len(), 151);
    assert_eq!(cache.try_get(&key(200)).unwrap().bytes, vec![5]);
}

#[test]
fn cache_never_exceeds_limit() {
    let mut cache = MediaCache::new();
    for i in 0..1000 {
        if cache.begin_load_if_absent(&key(i)) {
            if i % 3 == 0 {
                cache.fail(&key(i));
            } else {
                cache.complete(&key(i), vec![0]);
            }
        }
        assert!(cache.len() <= CACHE_LIMIT);
    }
}

#[test]
fn duplicate_copies_entry() {
    let d = ImageData { bytes: vec![1, 2, 3], loading: false };
    let e = d.duplicate();
    assert_eq!(e.bytes, vec![1, 2, 3]);
    assert!(!e.loading);
}
