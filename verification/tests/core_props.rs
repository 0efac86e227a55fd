//! Scenario tests of the core's stated properties: key-string
//! injectivity, envelope validity, cache round trips, expired reads, and
//! the get-or-fetch composition.

use tradergrader::{
    check_upstream_status, lookup_payload, store_response, CacheConfig, CacheItem, CacheKey,
    EsiHeaderParser, InMemoryCacheBackend,
};

fn now_secs() -> u64 {
    chrono::Utc::now().timestamp() as u64
}

#[test]
fn test_cache_key_generation() {
    // Test different cache key types
    let orders_key = CacheKey::market_orders(10000002, Some(34));
    let history_key = CacheKey::market_history(10000002, 34);
    let summary_key = CacheKey::market_summary(10000002, 34);
    let analysis_key = CacheKey::price_analysis(10000002, 34);

    // Keys should be unique for different data types
    assert_ne!(orders_key.to_string(), history_key.to_string());
    assert_ne!(summary_key.to_string(), analysis_key.to_string());

    // Keys should be consistent for same parameters
    let orders_key2 = CacheKey::market_orders(10000002, Some(34));
    assert_eq!(orders_key.to_string(), orders_key2.to_string());

    // Keys should differ for different parameters
    let orders_key_diff = CacheKey::market_orders(10000003, Some(34));
    assert_ne!(orders_key.to_string(), orders_key_diff.to_string());
}

#[test]
fn test_cache_key_distinct_shapes() {
    // Absent fields are omitted predictably and never collide with
    // present ones, negative scopes included.
    let bare = CacheKey {
        data_type: "orders".to_string(),
        region_id: -5,
        type_id: None,
        params: None,
    };
    assert_eq!(bare.to_string(), "tradergrader:orders:-5");

    let with_type = CacheKey {
        data_type: "orders".to_string(),
        region_id: -5,
        type_id: Some(-5),
        params: None,
    };
    assert_eq!(with_type.to_string(), "tradergrader:orders:-5:-5");

    let with_params = CacheKey {
        data_type: "orders".to_string(),
        region_id: -5,
        type_id: Some(-5),
        params: Some("page=2".to_string()),
    };
    assert_eq!(with_params.to_string(), "tradergrader:orders:-5:-5:page=2");

    assert_ne!(bare.to_string(), with_type.to_string());
    assert_ne!(with_type.to_string(), with_params.to_string());
}

#[test]
fn test_esi_header_parsing() {
    // Test various Cache-Control scenarios
    let ttl = EsiHeaderParser::parse_cache_control(Some("max-age=300"));
    assert_eq!(ttl, 300);

    let ttl = EsiHeaderParser::parse_cache_control(Some("no-cache"));
    assert_eq!(ttl, 0);

    // Test missing header
    let ttl = EsiHeaderParser::parse_cache_control(None);
    assert_eq!(ttl, 300); // Default for missing header

    // Test create_cache_item_from_response which applies TTL bounds
    // internally
    let item = EsiHeaderParser::create_cache_item_from_response(
        b"test_data".to_vec(),
        None,
        "orders",
    );
    // Should use default TTL for missing header
    assert_eq!(item.ttl, 300);
}

#[test]
fn test_envelope_validity_rules() {
    // Valid while constructed less than ttl seconds ago.
    let fresh = CacheItem {
        data: b"x".to_vec(),
        cached_at: now_secs(),
        ttl: 120,
    };
    assert!(fresh.is_valid());
    assert!(fresh.remaining_ttl().is_some());

    // A zero TTL is never valid, even at the moment of creation.
    let never = CacheItem::new(b"x".to_vec(), 0);
    assert!(!never.is_valid());
    assert_eq!(never.remaining_ttl(), None);

    // The boundary is strict: exactly ttl seconds after creation the
    // envelope is no longer valid.
    let edge = CacheItem {
        data: b"x".to_vec(),
        cached_at: 1000,
        ttl: 50,
    };
    assert!(edge.is_valid_at(1049));
    assert!(!edge.is_valid_at(1050));
}

#[test]
fn test_cache_round_trip_payloads() {
    // set followed immediately by get returns an identical payload, for
    // payloads of every shape: empty, binary, and text bytes.
    let mut cache = InMemoryCacheBackend::new(100, None);
    let payloads: Vec<Vec<u8>> = vec![
        Vec::new(),
        vec![0, 1, 2, 255, 254, 0, 17],
        "a serialized value".as_bytes().to_vec(),
    ];
    for (i, payload) in payloads.into_iter().enumerate() {
        let key = CacheKey::market_history(7000000 + i as i32, 34);
        let item = CacheItem::new(payload.clone(), 60);
        cache.set(&key, item).expect("Should store");
        let back = cache.get(&key).expect("Should read").expect("Should hit");
        assert_eq!(back.data, payload);
        assert_eq!(back.ttl, 60);
    }
}

#[test]
fn test_expired_entry_not_retrievable_after_read() {
    let mut cache = InMemoryCacheBackend::new(100, None);
    let key = CacheKey::market_summary(10000002, 34);

    let expired = CacheItem {
        data: b"stale".to_vec(),
        cached_at: now_secs() - 100,
        ttl: 10,
    };
    cache.set(&key, expired).expect("Should store");

    // The first read finds the bytes physically but reports a logical
    // miss and evicts the entry.
    assert!(cache.get(&key).expect("Should read").is_none());
    let stats = cache.stats().expect("Should get stats");
    assert_eq!(stats.hits, 1); // Found the cached bytes, even though expired
    assert_eq!(stats.misses, 0);

    // The entry is gone afterwards: the second read is a physical miss.
    assert!(cache.get(&key).expect("Should read").is_none());
    let stats = cache.stats().expect("Should get stats");
    assert_eq!(stats.hits, 1);
    assert_eq!(stats.misses, 1);
}

#[test]
fn test_cache_expiration_behavior() {
    let mut cache = InMemoryCacheBackend::new(100, None);

    let key = CacheKey::market_history(10000002, 34);

    // Create item that expired in the past
    let expired_item = CacheItem {
        data: b"expired_data".to_vec(),
        cached_at: now_secs() - 60,
        ttl: 30, // Expired 30 seconds ago
    };

    cache.set(&key, expired_item).expect("Should set expired item");

    // Should return None for expired item and remove it
    let retrieved = cache.get(&key).expect("Should handle expiration");
    assert!(retrieved.is_none());

    // Verify stats show hit from finding the data, even though it was
    // expired (the backend first finds the bytes, then the envelope layer
    // checks expiration)
    let stats = cache.stats().expect("Should get stats");
    assert_eq!(stats.hits, 1); // Found the cached bytes, even though expired
    assert_eq!(stats.misses, 0);
}

#[test]
fn test_cache_backend_functionality() {
    let mut cache = InMemoryCacheBackend::new(100, Some(60));

    // Test cache operations
    let key = CacheKey::market_orders(10000002, Some(34));
    let test_data = b"test_item".to_vec();
    let item = CacheItem::new(test_data.clone(), 30);

    // Test set and get
    cache.set(&key, item).expect("Should cache item");
    let retrieved = cache.get(&key).expect("Should retrieve item");

    assert!(retrieved.is_some());
    assert_eq!(retrieved.unwrap().data, test_data);

    // Test cache statistics
    let stats = cache.stats().expect("Should get stats");
    assert_eq!(stats.hits, 1);
    assert_eq!(stats.misses, 0);
    assert_eq!(stats.backend_info, "in-memory");

    // Test health check
    cache.health_check().expect("Health check should pass");
}

#[test]
fn test_get_or_fetch_composition() {
    // End-to-end: a miss, then a successful upstream call, populates the
    // cache so that an immediate second call for the same key returns
    // without invoking the upstream closure again, while a different key
    // does invoke it.
    let mut backend = CacheConfig::in_memory(100, 300)
        .create_backend()
        .expect("Should build backend")
        .expect("Should be present");

    let upstream_calls = std::cell::Cell::new(0u32);
    let fetch = |status: u16| -> (u16, Option<&'static str>, Vec<u8>) {
        upstream_calls.set(upstream_calls.get() + 1);
        (status, Some("max-age=300"), b"fresh body".to_vec())
    };

    let key = CacheKey::market_orders(10000002, Some(34));

    // First call: miss, fetch, store.
    let cached = lookup_payload(&mut backend, &key);
    assert!(cached.is_none());
    let (status, cache_control, body) = fetch(200);
    check_upstream_status(status).expect("Success status passes");
    store_response(&mut backend, &key, body.clone(), cache_control, "orders");

    // Second call for the same key: served from the cache, upstream not
    // invoked again.
    let cached = lookup_payload(&mut backend, &key);
    assert_eq!(cached, Some(body));
    assert_eq!(upstream_calls.get(), 1);

    // A different key misses and fetches.
    let other_key = CacheKey::market_orders(10000003, Some(34));
    assert!(lookup_payload(&mut backend, &other_key).is_none());
    let (status, cache_control, body) = fetch(200);
    check_upstream_status(status).expect("Success status passes");
    store_response(&mut backend, &other_key, body, cache_control, "orders");
    assert_eq!(upstream_calls.get(), 2);
}

#[test]
fn test_failed_upstream_is_not_cached() {
    let mut backend = CacheConfig::in_memory(100, 300)
        .create_backend()
        .expect("Should build backend")
        .expect("Should be present");
    let key = CacheKey::market_orders(10000002, Some(34));

    // A non-success response surfaces a typed error and nothing is
    // stored.
    let error = check_upstream_status(503).expect_err("Failure status errs");
    assert_eq!(
        error.message(),
        "Internal server error: ESI API request failed with status: 503"
    );
    assert!(lookup_payload(&mut backend, &key).is_none());
}

#[test]
fn test_do_not_cache_directive_respected() {
    // A no-cache response is stored with a zero TTL, so the next lookup
    // is still a miss.
    let mut backend = CacheConfig::in_memory(100, 300)
        .create_backend()
        .expect("Should build backend")
        .expect("Should be present");
    let key = CacheKey::market_orders(10000002, Some(34));

    store_response(&mut backend, &key, b"volatile".to_vec(), Some("no-store"), "orders");
    assert!(lookup_payload(&mut backend, &key).is_none());
}

#[test]
fn test_header_number_grammar() {
    // The max-age value follows the integer grammar: an optional leading
    // plus sign is accepted, anything else is not.
    assert_eq!(
        EsiHeaderParser::parse_cache_control_string("max-age=+300"),
        300
    );
    // An overflowing value is unusable; the scan moves on and, finding
    // nothing else, falls back to the conservative default.
    assert_eq!(
        EsiHeaderParser::parse_cache_control_string("max-age=99999999999999999999"),
        60
    );
    // A later usable directive still wins.
    assert_eq!(
        EsiHeaderParser::parse_cache_control_string("max-age=bad, max-age=120"),
        120
    );
    // The first matching directive decides, in order.
    assert_eq!(
        EsiHeaderParser::parse_cache_control_string("max-age=300, no-cache"),
        300
    );
    assert_eq!(
        EsiHeaderParser::parse_cache_control_string("no-cache, max-age=300"),
        0
    );
    // Whitespace around directives is trimmed.
    assert_eq!(
        EsiHeaderParser::parse_cache_control_string("  public ,\t max-age=42  "),
        42
    );
}

#[test]
fn test_hit_ratio_values() {
    let mut cache = InMemoryCacheBackend::new(100, None);
    let key = CacheKey::market_orders(1, None);

    // No reads yet: ratio is zero.
    assert_eq!(cache.stats().unwrap().hit_ratio_percent(), 0);

    // One miss, then one hit: one of two reads hit.
    assert!(cache.get(&key).unwrap().is_none());
    cache
        .set(&key, CacheItem::new(b"v".to_vec(), 60))
        .unwrap();
    assert!(cache.get(&key).unwrap().is_some());
    let stats = cache.stats().unwrap();
    assert_eq!(stats.hits, 1);
    assert_eq!(stats.misses, 1);
    assert_eq!(stats.hit_ratio_percent(), 50);
}

#[test]
fn test_remaining_ttl_values() {
    let item = CacheItem {
        data: b"x".to_vec(),
        cached_at: 1000,
        ttl: 50,
    };
    assert_eq!(item.remaining_ttl_at(1000), Some(50));
    assert_eq!(item.remaining_ttl_at(1049), Some(1));
    assert_eq!(item.remaining_ttl_at(1050), None);
}

#[test]
fn test_never_expire_store_ttl_is_clamped() {
    // A "never expire" store-level TTL is clamped to the store's own cap
    // instead of aborting construction.
    let mut direct = InMemoryCacheBackend::new(10, Some(u64::MAX));
    let key = CacheKey::market_orders(1, None);
    direct
        .set(&key, CacheItem::new(b"v".to_vec(), 60))
        .expect("Should store");
    assert!(direct.get(&key).expect("Should read").is_some());

    let config = CacheConfig::in_memory(1000, u64::MAX);
    let backend = config
        .create_backend()
        .expect("Should build backend despite the huge TTL");
    assert!(backend.is_some());
}

#[test]
fn test_get_at_enforces_validity() {
    // The clock-parameterized read returns an envelope only while it is
    // valid at the given reading, and evicts it once it is not.
    let mut cache = InMemoryCacheBackend::new(100, None);
    let key = CacheKey::market_summary(1, 2);
    let item = CacheItem {
        data: b"payload".to_vec(),
        cached_at: 1000,
        ttl: 50,
    };
    cache.set(&key, item).expect("Should store");

    let hit = cache.get_at(&key, 1049).expect("Should read");
    assert_eq!(hit.expect("Still valid").data, b"payload".to_vec());

    let miss = cache.get_at(&key, 1050).expect("Should read");
    assert!(miss.is_none());

    // The expired entry was evicted by the read.
    let gone = cache.get_at(&key, 1000).expect("Should read");
    assert!(gone.is_none());
}

#[test]
fn test_health_check_counts_and_cleans_up() {
    let mut cache = InMemoryCacheBackend::new(100, None);
    let unrelated = CacheKey::market_orders(9, Some(8));
    cache
        .set(&unrelated, CacheItem::new(b"keep".to_vec(), 600))
        .expect("Should store");

    cache.health_check().expect("Health check should pass");

    // The self-test read counted one hit, cleaned up its probe, and left
    // the unrelated entry alone.
    let stats = cache.stats().expect("Should get stats");
    assert_eq!(stats.hits, 1);
    assert_eq!(stats.misses, 0);
    let probe_key = CacheKey {
        data_type: "health_check".to_string(),
        region_id: 0,
        type_id: None,
        params: None,
    };
    assert!(cache.get(&probe_key).expect("Should read").is_none());
    assert!(cache.get(&unrelated).expect("Should read").is_some());
}

#[test]
fn test_redis_backend_not_implemented() {
    let config = CacheConfig::redis("redis://localhost".to_string(), 100, 300);
    let error = config.create_backend().expect_err("Should be unimplemented");
    assert!(error.message().contains("Redis backend not implemented yet"));
}
