//! Result-caching and request-governance core for a rate-limited upstream
//! REST API.
//!
//! The crate provides cache keys with an injective string form, TTL-bounded
//! cache envelopes, an upstream freshness-header policy, an in-memory cache
//! backend with hit/miss accounting, and the retry/backoff decision logic of
//! a steady-rate request limiter. All logic is verified; calls into outside
//! crates (the in-memory store, the wall clock) stand behind small trusted
//! wrappers whose contracts state only what those crates document.

pub mod cache;
pub mod envelope;
pub mod executor;
pub mod error;
pub mod key;
pub mod rate_limit;
pub mod text;
pub mod ttl;
pub mod types;

pub use cache::{CacheBackend, CacheBackendType, CacheConfig, CacheStats, InMemoryCacheBackend};
pub use rate_limit::{EsiRateLimitInfo, EsiRateLimiter, RateLimitConfig, RetryDecision};
pub use envelope::CacheItem;
pub use executor::{check_upstream_status, lookup_payload, store_response};
pub use error::TraderGraderError;
pub use key::CacheKey;
pub use ttl::EsiHeaderParser;
pub use types::MarketType;
