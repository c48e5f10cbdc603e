use material_deploy::cache::{
    copy_bytes, copy_packs, is_cache_valid, Cache, CacheEntry, PackInfo, DOWNLOAD_TTL_SECONDS,
    PRESETS_TTL_SECONDS,
};
use material_deploy::clock::Instant;

fn pack(name: &str, uuid: &str) -> PackInfo {
    PackInfo {
        name: name.to_string(),
        uuid: uuid.to_string(),
        stub: format!("https://example.test/{uuid}/stub"),
        tonemapping: format!("https://example.test/{uuid}/tone"),
        bloom: format!("https://example.test/{uuid}/bloom"),
    }
}

#[test]
fn ttl_constants() {
    assert_eq!(PRESETS_TTL_SECONDS, 60 * 60);
    assert_eq!(DOWNLOAD_TTL_SECONDS, 24 * 60 * 60);
}

#[test]
fn empty_cache_serves_nothing() {
    let cache = Cache::new();
    let now = Instant::from_secs(1_000);
    assert!(cache.get_metadata_at(&now).is_none());
    assert!(cache.get_blob_at("https://example.test/a", &now).is_none());
    assert!(cache.metadata_entry().is_none());
    assert_eq!(cache.blob_count(), 0);
}

#[test]
fn metadata_is_served_until_it_expires() {
    let mut cache = Cache::new();
    let stored = Instant::from_secs(1_000);
    cache.put_metadata_at(vec![pack("Default", "u-1"), pack("Vivid", "u-2")], stored, PRESETS_TTL_SECONDS);
    let just_before = Instant { secs: 1_000 + 3_599, nanos: 999_999_999 };
    let list = cache.get_metadata_at(&just_before).expect("still valid");
    assert_eq!(list, vec![pack("Default", "u-1"), pack("Vivid", "u-2")]);
    let at_expiry = Instant::from_secs(1_000 + 3_600);
    assert!(cache.get_metadata_at(&at_expiry).is_none());
    assert!(cache.get_metadata_at(&Instant::from_secs(i64::MAX)).is_none());
}

#[test]
fn entry_expired_one_second_ago_is_absent() {
    let mut cache = Cache::new();
    let now = Instant::from_secs(2_000_000);
    cache.restore_metadata(CacheEntry {
        data: vec![pack("Default", "u-1")],
        timestamp: Instant::from_secs(2_000_000 - 3_601),
        expires_at: Instant::from_secs(2_000_000 - 1),
    });
    assert_eq!(cache.get_metadata_at(&now), None);
    assert_eq!(cache.presets_without_fetch(false, &now), None);
    assert!(cache.metadata_entry().is_some());
}

#[test]
fn expired_entries_are_absent_whatever_they_hold() {
    let now = Instant { secs: 500, nanos: 5 };
    for data in [vec![], vec![0u8], vec![1, 2, 3, 4, 5, 6, 7, 8]] {
        for expires_at in [now, Instant { secs: 500, nanos: 4 }, Instant::from_secs(0), Instant::from_secs(-9)] {
            let mut cache = Cache::new();
            cache.restore_blob(
                "u".to_string(),
                CacheEntry { data: data.clone(), timestamp: Instant::from_secs(-10), expires_at },
            );
            assert_eq!(cache.get_blob_at("u", &now), None);
        }
    }
    let mut cache = Cache::new();
    cache.restore_blob(
        "u".to_string(),
        CacheEntry { data: vec![9], timestamp: now, expires_at: Instant { secs: 500, nanos: 6 } },
    );
    assert_eq!(cache.get_blob_at("u", &now), Some(vec![9]));
}

#[test]
fn blob_ttl_is_a_day() {
    let mut cache = Cache::new();
    let stored = Instant::from_secs(50);
    cache.put_blob_at("https://example.test/a", vec![1, 2, 3], stored, DOWNLOAD_TTL_SECONDS);
    assert_eq!(cache.get_blob_at("https://example.test/a", &Instant::from_secs(50 + 86_399)), Some(vec![1, 2, 3]));
    assert_eq!(cache.get_blob_at("https://example.test/a", &Instant::from_secs(50 + 86_400)), None);
}

#[test]
fn blob_urls_match_exactly() {
    let mut cache = Cache::new();
    let now = Instant::from_secs(0);
    cache.put_blob_at("https://example.test/a", vec![1], now, 10);
    assert_eq!(cache.get_blob_at("https://example.test/A", &now), None);
    assert_eq!(cache.get_blob_at("https://example.test/a/", &now), None);
    assert_eq!(cache.get_blob_at("https://example.test/a", &now), Some(vec![1]));
}

#[test]
fn writing_one_blob_leaves_the_others_and_the_metadata() {
    let mut cache = Cache::new();
    let t0 = Instant::from_secs(100);
    cache.put_metadata_at(vec![pack("Default", "u-1")], t0, 1_000);
    cache.put_blob_at("u1", vec![1], t0, 1_000);
    cache.put_blob_at("u2", vec![2], t0, 50);
    let t1 = Instant::from_secs(120);
    cache.put_blob_at("u1", vec![7, 7], t1, 5);
    assert_eq!(cache.get_blob_at("u2", &Instant::from_secs(149)), Some(vec![2]));
    assert_eq!(cache.get_blob_at("u2", &Instant::from_secs(150)), None);
    assert_eq!(cache.get_blob_at("u1", &Instant::from_secs(124)), Some(vec![7, 7]));
    assert_eq!(cache.get_blob_at("u1", &Instant::from_secs(125)), None);
    assert_eq!(cache.get_metadata_at(&Instant::from_secs(1_099)), Some(vec![pack("Default", "u-1")]));
    assert_eq!(cache.blob_count(), 2);
    let entry = cache.metadata_entry().expect("stored");
    assert_eq!(entry.timestamp, t0);
    assert_eq!(entry.expires_at, Instant::from_secs(1_100));
}

#[test]
fn writing_metadata_leaves_the_blobs() {
    let mut cache = Cache::new();
    let t0 = Instant::from_secs(100);
    cache.put_blob_at("u1", vec![1], t0, 1_000);
    cache.put_metadata_at(vec![], Instant::from_secs(200), 1);
    assert_eq!(cache.get_blob_at("u1", &Instant::from_secs(1_099)), Some(vec![1]));
    let (url, entry) = cache.blob_entry_at(0);
    assert_eq!(url, "u1");
    assert_eq!(entry.data, vec![1]);
    assert_eq!(entry.timestamp, t0);
    assert_eq!(entry.expires_at, Instant::from_secs(1_100));
    assert_eq!(cache.get_metadata_at(&Instant::from_secs(200)), Some(vec![]));
}

#[test]
fn forced_refresh_passes_over_a_valid_list() {
    let mut cache = Cache::new();
    let now = Instant::from_secs(10);
    cache.put_metadata_at(vec![pack("Default", "u-1")], now, PRESETS_TTL_SECONDS);
    assert_eq!(cache.presets_without_fetch(true, &now), None);
    assert_eq!(cache.presets_without_fetch(false, &now), Some(vec![pack("Default", "u-1")]));
}

#[test]
fn info_counts_expired_entries_too() {
    let mut cache = Cache::new();
    let info = cache.info();
    assert!(!info.presets_cached);
    assert_eq!(info.presets_count, 0);
    assert_eq!(info.presets_expires, None);
    assert_eq!(info.downloads_cached, 0);
    cache.put_metadata_at(vec![pack("a", "1"), pack("b", "2"), pack("c", "3")], Instant::from_secs(0), 60);
    cache.put_blob_at("x", vec![], Instant::from_secs(0), 1);
    cache.put_blob_at("y", vec![], Instant::from_secs(0), 1);
    cache.put_blob_at("x", vec![1], Instant::from_secs(5), 1);
    let info = cache.info();
    assert!(info.presets_cached);
    assert_eq!(info.presets_count, 3);
    assert_eq!(info.presets_expires, Some(Instant::from_secs(60)));
    assert_eq!(info.downloads_cached, 2);
}

#[test]
fn clear_drops_everything() {
    let mut cache = Cache::new();
    let now = Instant::from_secs(0);
    cache.put_metadata_at(vec![pack("a", "1")], now, 60);
    cache.put_blob_at("x", vec![1], now, 60);
    cache.clear();
    assert_eq!(cache.get_metadata_at(&now), None);
    assert_eq!(cache.get_blob_at("x", &now), None);
    assert_eq!(cache.blob_count(), 0);
}

#[test]
fn clock_reading_operations_store_and_serve() {
    let mut cache = Cache::new();
    assert!(cache.put_metadata(vec![pack("a", "1")], PRESETS_TTL_SECONDS));
    assert!(cache.put_blob("x", vec![4, 2], DOWNLOAD_TTL_SECONDS));
    assert_eq!(cache.get_metadata(), Some(vec![pack("a", "1")]));
    assert_eq!(cache.get_blob("x"), Some(vec![4, 2]));
    assert_eq!(cache.get_blob("y"), None);
    assert!(cache.put_blob("x", vec![], 0));
    assert_eq!(cache.get_blob("x"), None);
    let entry = cache.metadata_entry().expect("stored");
    assert_eq!(entry.expires_at, entry.timestamp.plus_seconds(3_600));
}

#[test]
fn validity_by_the_system_clock() {
    let past = CacheEntry { data: 1u8, timestamp: Instant::from_secs(0), expires_at: Instant::from_secs(1) };
    assert!(!is_cache_valid(&past));
    let future = CacheEntry { data: 1u8, timestamp: Instant::from_secs(0), expires_at: Instant::from_secs(i64::MAX) };
    assert!(is_cache_valid(&future));
    assert!(future.is_valid_at(&Instant::from_secs(5)));
    assert!(!past.is_valid_at(&Instant::from_secs(1)));
}

#[test]
fn stamped_entry_carries_now_and_expiry() {
    let e = CacheEntry::stamped("data", Instant { secs: 9, nanos: 3 }, 11);
    assert_eq!(e.data, "data");
    assert_eq!(e.timestamp, Instant { secs: 9, nanos: 3 });
    assert_eq!(e.expires_at, Instant { secs: 20, nanos: 3 });
}

#[test]
fn copies_are_equal() {
    let list = vec![pack("a", "1"), pack("b", "2")];
    assert_eq!(copy_packs(&list), list);
    assert_eq!(list[0].clone(), pack("a", "1"));
    assert_eq!(copy_bytes(&vec![1, 2, 3]), vec![1, 2, 3]);
    assert_eq!(copy_bytes(&vec![]), Vec::<u8>::new());
}

#[test]
fn a_cache_that_could_not_be_read_is_empty() {
    let now = Instant::from_secs(0);
    let lost = Cache::recovered(None);
    assert_eq!(lost.blob_count(), 0);
    assert_eq!(lost.get_metadata_at(&now), None);
    let mut read = Cache::new();
    read.put_blob_at("u", vec![1], now, 9);
    let kept = Cache::recovered(Some(read));
    assert_eq!(kept.get_blob_at("u", &now), Some(vec![1]));
}

#[test]
fn the_clock_never_refuses_a_time_to_live() {
    let mut cache = Cache::new();
    assert!(cache.put_blob("x", vec![1], u32::MAX));
    assert!(cache.put_metadata(vec![pack("a", "1")], u32::MAX));
    assert_eq!(cache.get_blob("x"), Some(vec![1]));
    assert_eq!(cache.get_metadata(), Some(vec![pack("a", "1")]));
    let (_, entry) = cache.blob_entry_at(0);
    assert_eq!(entry.expires_at.secs, entry.timestamp.secs + u32::MAX as i64);
}
