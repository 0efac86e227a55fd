//! Tests of the cache key, the envelope, the TTL policy, and the
//! in-memory backend.

use tradergrader::{
    CacheConfig, CacheItem, CacheKey, EsiHeaderParser, InMemoryCacheBackend,
};

fn now_secs() -> u64 {
    chrono::Utc::now().timestamp() as u64
}

#[test]
fn test_cache_key_creation() {
    let orders_key = CacheKey::market_orders(10000002, Some(34));
    assert_eq!(orders_key.data_type, "orders");
    assert_eq!(orders_key.region_id, 10000002);
    assert_eq!(orders_key.type_id, Some(34));

    let history_key = CacheKey::market_history(10000002, 34);
    assert_eq!(history_key.data_type, "history");
    assert_eq!(history_key.type_id, Some(34));
}

#[test]
fn test_cache_key_equality() {
    // Two keys are equal exactly when all their fields are equal.
    let a = CacheKey::market_orders(10000002, Some(34));
    let b = CacheKey::market_orders(10000002, Some(34));
    assert!(a == b);

    let other_region = CacheKey::market_orders(10000003, Some(34));
    assert!(a != other_region);

    let no_type = CacheKey::market_orders(10000002, None);
    assert!(a != no_type);

    let with_params = CacheKey {
        data_type: "orders".to_string(),
        region_id: 10000002,
        type_id: Some(34),
        params: Some("page=2".to_string()),
    };
    assert!(a != with_params);
}

#[test]
fn test_cache_key_to_string() {
    let key = CacheKey::market_orders(10000002, Some(34));
    assert_eq!(key.to_string(), "tradergrader:orders:10000002:34");

    let key_no_type = CacheKey::market_orders(10000002, None);
    assert_eq!(key_no_type.to_string(), "tradergrader:orders:10000002");
}

#[test]
fn test_cache_item_validity() {
    let item = CacheItem::new(b"test_data".to_vec(), 10);
    assert!(item.is_valid());

    let expired_item = CacheItem {
        data: b"test_data".to_vec(),
        cached_at: now_secs() - 20,
        ttl: 10,
    };
    assert!(!expired_item.is_valid());
}

#[test]
fn test_esi_header_parser_max_age() {
    let ttl = EsiHeaderParser::parse_cache_control_string("public, max-age=300");
    assert_eq!(ttl, 300);

    let ttl = EsiHeaderParser::parse_cache_control_string("max-age=600, public");
    assert_eq!(ttl, 600);
}

#[test]
fn test_esi_header_parser_no_cache() {
    let ttl = EsiHeaderParser::parse_cache_control_string("no-cache");
    assert_eq!(ttl, 0);

    let ttl = EsiHeaderParser::parse_cache_control_string("public, no-store");
    assert_eq!(ttl, 0);
}

#[test]
fn test_esi_header_parser_missing_max_age() {
    let ttl = EsiHeaderParser::parse_cache_control_string("public");
    assert_eq!(ttl, 60); // Conservative default
}

fn header_str(headers: &reqwest::header::HeaderMap) -> Option<&str> {
    headers
        .get(reqwest::header::CACHE_CONTROL)
        .and_then(|v| v.to_str().ok())
}

#[test]
fn test_esi_header_parser_with_headers() {
    let mut headers = reqwest::header::HeaderMap::new();
    headers.insert(
        reqwest::header::CACHE_CONTROL,
        reqwest::header::HeaderValue::from_static("max-age=300"),
    );

    let ttl = EsiHeaderParser::parse_cache_control(header_str(&headers));
    assert_eq!(ttl, 300);
}

#[test]
fn test_esi_header_parser_missing_headers() {
    let headers = reqwest::header::HeaderMap::new();
    let ttl = EsiHeaderParser::parse_cache_control(header_str(&headers));
    assert_eq!(ttl, 300); // Default fallback
}

#[test]
fn test_recommended_ttl_for_data_types() {
    assert_eq!(EsiHeaderParser::recommended_ttl_for_data_type("orders"), 300);
    assert_eq!(
        EsiHeaderParser::recommended_ttl_for_data_type("history"),
        3600
    );
    assert_eq!(
        EsiHeaderParser::recommended_ttl_for_data_type("unknown"),
        300
    );
}

#[test]
fn test_ttl_bounds() {
    // Test normal case
    let bounded = EsiHeaderParser::apply_ttl_bounds(300, 300);
    assert_eq!(bounded, 300);

    // Test too low
    let bounded = EsiHeaderParser::apply_ttl_bounds(10, 300);
    assert_eq!(bounded, 30); // Minimum

    // Test too high - should be capped
    let bounded = EsiHeaderParser::apply_ttl_bounds(25000, 300);
    assert_eq!(bounded, 300); // Use recommended

    // Test within bounds but high
    let bounded = EsiHeaderParser::apply_ttl_bounds(10000, 300);
    assert_eq!(bounded, 10000); // Use header TTL
}

#[test]
fn test_create_cache_item_from_response() {
    let item = EsiHeaderParser::create_cache_item_from_response(
        "test_data".to_string(),
        Some("max-age=300"),
        "orders",
    );

    assert_eq!(item.data, "test_data");
    assert_eq!(item.ttl, 300);
    assert!(item.is_valid());
}

#[test]
fn test_create_cache_item_no_cache() {
    let item = EsiHeaderParser::create_cache_item_from_response(
        "test_data".to_string(),
        Some("no-cache"),
        "orders",
    );

    assert_eq!(item.ttl, 0);
    assert!(!item.is_valid()); // Should be invalid (don't cache)
}

#[test]
fn test_in_memory_cache_backend() {
    let mut cache = InMemoryCacheBackend::new(100, Some(60));

    // Test key and item
    let key = CacheKey::market_orders(10000002, Some(34));
    let test_data = b"test data".to_vec();
    let item = CacheItem::new(test_data.clone(), 30);

    // Test set and get
    cache.set(&key, item).expect("Should set item");

    let retrieved = cache.get(&key).expect("Should retrieve item");
    assert!(retrieved.is_some());
    assert_eq!(retrieved.unwrap().data, test_data);

    // Test stats
    let stats = cache.stats().expect("Should get stats");
    assert_eq!(stats.hits, 1);
    assert_eq!(stats.misses, 0);
    assert!(stats.hit_ratio_percent() > 0);

    // Test remove
    cache.remove(&key).expect("Should remove item");
    let retrieved = cache.get(&key).expect("Should handle missing item");
    assert!(retrieved.is_none());

    // Test miss stats
    let stats = cache.stats().expect("Should get stats");
    assert_eq!(stats.hits, 1);
    assert_eq!(stats.misses, 1);
}

#[test]
fn test_in_memory_cache_expiration() {
    let mut cache = InMemoryCacheBackend::new(100, None);

    let key = CacheKey::market_orders(10000002, Some(34));

    // Create expired item
    let expired_item = CacheItem {
        data: b"expired_data".to_vec(),
        cached_at: now_secs() - 60,
        ttl: 30, // Expired 30 seconds ago
    };

    cache.set(&key, expired_item).expect("Should set expired item");

    // Should return None for expired item
    let retrieved = cache.get(&key).expect("Should handle expired item");
    assert!(retrieved.is_none());
}

#[test]
fn test_in_memory_cache_health_check() {
    let mut cache = InMemoryCacheBackend::new(100, Some(60));

    // Health check should pass
    cache.health_check().expect("Health check should pass");
}

#[test]
fn test_in_memory_cache_clear() {
    let mut cache = InMemoryCacheBackend::new(100, Some(60));

    // Add some items
    let key1 = CacheKey::market_orders(10000002, Some(34));
    let key2 = CacheKey::market_history(10000002, 34);

    let item1 = CacheItem::new(b"data1".to_vec(), 30);
    let item2 = CacheItem::new(b"data2".to_vec(), 30);

    cache.set(&key1, item1).expect("Should set item1");
    cache.set(&key2, item2).expect("Should set item2");

    // Clear all items
    cache.clear().expect("Should clear cache");

    // Items should be gone
    let retrieved1 = cache.get(&key1).expect("Should handle cleared cache");
    let retrieved2 = cache.get(&key2).expect("Should handle cleared cache");

    assert!(retrieved1.is_none());
    assert!(retrieved2.is_none());
}

#[test]
fn test_cache_config_default() {
    let config = CacheConfig::default();
    assert!(config.enabled);
    assert_eq!(config.max_capacity, 1000);
    assert_eq!(config.default_ttl, 3600);
}

#[test]
fn test_cache_config_disabled() {
    let config = CacheConfig::disabled();
    assert!(!config.enabled);
}

#[test]
fn test_cache_config_in_memory() {
    let config = CacheConfig::in_memory(500, 1800);
    assert!(config.enabled);
    assert_eq!(config.max_capacity, 500);
    assert_eq!(config.default_ttl, 1800);
}

#[test]
fn test_cache_config_create_backend() {
    // Test disabled cache
    let disabled_config = CacheConfig::disabled();
    let backend = disabled_config
        .create_backend()
        .expect("Should handle disabled cache");
    assert!(backend.is_none());

    // Test in-memory cache
    let in_memory_config = CacheConfig::in_memory(100, 300);
    let backend = in_memory_config
        .create_backend()
        .expect("Should create in-memory backend");
    assert!(backend.is_some());

    // Test backend functionality
    if let Some(mut cache) = backend {
        cache.health_check().expect("Health check should pass");
    }
}
