use capworker::cache::{cache_from_index, decode_index, ResultCache, WhisperCacheEntry, WhisperCacheIndex};

#[test]
fn identical_requests_share_one_artifact() {
    let mut cache = ResultCache::new(8);
    let mut external_calls = 0;

    // First request: miss, run the expensive operation once, store it.
    let first = cache.lookup("hash-a", "hash-p", 100);
    assert!(first.is_none());
    external_calls += 1;
    cache.insert("hash-a", "hash-p", "/cache/result-1.json", 101);

    // Second identical request: served from the cache, byte-identical path.
    let second = cache.lookup("hash-a", "hash-p", 102);
    let entry = second.expect("the identical request must hit");
    assert_eq!(entry.response_path, "/cache/result-1.json");
    assert_eq!(entry.timestamp, 102);
    assert_eq!(external_calls, 1);
}

#[test]
fn insert_at_capacity_evicts_oldest_timestamp() {
    let mut cache = ResultCache::new(2);
    cache.insert("a", "p", "/a", 10); // oldest
    cache.insert("b", "p", "/b", 20);
    // At capacity: inserting a third entry must evict the oldest (a),
    // never the entry just written.
    cache.insert("c", "p", "/c", 30);
    assert_eq!(cache.len(), 2);
    assert!(cache.lookup("a", "p", 40).is_none());
    assert!(cache.lookup("b", "p", 41).is_some());
    assert!(cache.lookup("c", "p", 42).is_some());
}

#[test]
fn lookup_refresh_protects_recent_entry_from_eviction() {
    let mut cache = ResultCache::new(2);
    cache.insert("a", "p", "/a", 10);
    cache.insert("b", "p", "/b", 20);
    // Touch the older entry: its timestamp is refreshed, so the other
    // one is now the least recently used.
    assert!(cache.lookup("a", "p", 30).is_some());
    cache.insert("c", "p", "/c", 40);
    assert!(cache.lookup("a", "p", 50).is_some());
    assert!(cache.lookup("b", "p", 51).is_none());
}

#[test]
fn reinsert_same_key_replaces_without_growth() {
    let mut cache = ResultCache::new(4);
    cache.insert("k", "p", "/old", 1);
    cache.insert("k", "p", "/new", 2);
    assert_eq!(cache.len(), 1);
    let e = cache.lookup("k", "p", 3).unwrap();
    assert_eq!(e.response_path, "/new");
}

#[test]
fn corrupted_index_starts_empty_not_fatal() {
    for corrupt in [
        "not json at all",
        "{\"entries\":",
        "{\"entries\":{}}",
        "{\"entries\":[{\"audioHash\":1}]}",
        "",
        "[]",
    ] {
        let decoded = decode_index(corrupt);
        assert!(decoded.is_none());
        let cache = cache_from_index(decoded, 16);
        assert_eq!(cache.len(), 0);
        assert_eq!(cache.capacity(), 16);
    }
}

#[test]
fn index_round_trips_through_its_text() {
    let index = WhisperCacheIndex {
        entries: vec![
            WhisperCacheEntry {
                audio_hash: "aa".to_string(),
                params_hash: "pp".to_string(),
                response_path: "/r1".to_string(),
                timestamp: 7,
            },
            WhisperCacheEntry {
                audio_hash: "bb".to_string(),
                params_hash: "qq".to_string(),
                response_path: "/r2".to_string(),
                timestamp: 9,
            },
        ],
    };
    let text = index.encode();
    assert_eq!(
        text,
        r#"{"entries":[{"audioHash":"aa","paramsHash":"pp","responsePath":"/r1","timestamp":7},{"audioHash":"bb","paramsHash":"qq","responsePath":"/r2","timestamp":9}]}"#
    );
    let back = decode_index(&text).expect("a written index reads back");
    assert_eq!(back.entries.len(), 2);
    assert_eq!(back.entries[0].audio_hash, "aa");
    assert_eq!(back.entries[1].response_path, "/r2");
    assert_eq!(back.entries[1].timestamp, 9);
}

#[test]
fn loading_keeps_first_occurrence_of_duplicate_key() {
    let index = WhisperCacheIndex {
        entries: vec![
            WhisperCacheEntry {
                audio_hash: "k".to_string(),
                params_hash: "p".to_string(),
                response_path: "/first".to_string(),
                timestamp: 1,
            },
            WhisperCacheEntry {
                audio_hash: "k".to_string(),
                params_hash: "p".to_string(),
                response_path: "/second".to_string(),
                timestamp: 2,
            },
        ],
    };
    let mut cache = cache_from_index(Some(index), 8);
    assert_eq!(cache.len(), 1);
    let e = cache.lookup("k", "p", 5).unwrap();
    assert_eq!(e.response_path, "/first");
}

#[test]
fn zero_capacity_keeps_only_the_latest_entry() {
    let mut cache = ResultCache::new(0);
    cache.insert("a", "p", "/a", 1);
    cache.insert("b", "p", "/b", 2);
    assert_eq!(cache.len(), 1);
    assert!(cache.lookup("b", "p", 3).is_some());
    assert!(cache.lookup("a", "p", 4).is_none());
}
