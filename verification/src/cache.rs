//! Cache backend: a bounded in-memory byte store with hit/miss
//! accounting, and the typed envelope operations above it.
//!
//! The store itself is moka's synchronized cache, reached only through
//! trusted wrappers whose contracts state what moka documents: an insert
//! may be followed by eviction (the store is bounded and admission is the
//! store's own affair), retrieval returns a clone of a live entry and may
//! expire entries, and invalidation guarantees absence. Everything above
//! those wrappers — envelope decoding, expiry enforcement, corruption
//! handling, the statistics — is verified.

use crate::envelope::{
    decode_envelope, encode_envelope, now_unix_seconds, spec_encode_envelope, spec_valid_at,
    CacheItem,
};
use vstd::string::StrSliceExecFns;
use crate::error::TraderGraderError;
use crate::key::{spec_key_string, CacheKey};
use vstd::prelude::*;

verus! {

/// Declaration of moka's synchronized cache type, so that values of it
/// can stand in fields and signatures.
#[verifier::external_type_specification]
#[verifier::external_body]
#[verifier::reject_recursive_types(K)]
#[verifier::reject_recursive_types(V)]
#[verifier::reject_recursive_types(S)]
pub struct ExMokaCache<K, V, S>(moka::sync::Cache<K, V, S>);

/// What the byte store currently holds and would hand back: key strings
/// to stored byte values.
pub uninterp spec fn spec_store_contents(c: moka::sync::Cache<String, Vec<u8>>) -> Map<
    Seq<char>,
    Seq<u8>,
>;

/// The entry bound the store was built with, as its policy reports it.
pub uninterp spec fn spec_store_max_capacity(c: moka::sync::Cache<String, Vec<u8>>) -> Option<u64>;

/// The store-level time-to-live in whole seconds the store was built
/// with, as its policy reports it.
pub uninterp spec fn spec_store_ttl_secs(c: moka::sync::Cache<String, Vec<u8>>) -> Option<u64>;

/// Longest store-level TTL the backing store accepts: a thousand 365-day
/// years, its own documented cap.
pub const MAX_STORE_TTL_SECS: u64 = 31536000000;

/// Relies on moka::sync::CacheBuilder: a new cache starts empty, holds at
/// most `max_capacity` entries, and, when `ttl_secs` is given, expires
/// each entry that long after insertion. Building panics on a TTL above
/// the thousand-year cap, which the precondition excludes.
#[verifier::external_body]
fn store_new(max_capacity: u64, ttl_secs: Option<u64>) -> (c: moka::sync::Cache<String, Vec<u8>>)
    requires
        ttl_secs matches Some(secs) ==> secs <= MAX_STORE_TTL_SECS,
    ensures
        spec_store_contents(c).dom() == Set::<Seq<char>>::empty(),
        spec_store_max_capacity(c) == Some(max_capacity),
        spec_store_ttl_secs(c) == ttl_secs,
{
    let builder = moka::sync::Cache::builder().max_capacity(max_capacity);
    match ttl_secs {
        Some(secs) => builder.time_to_live(std::time::Duration::from_secs(secs)).build(),
        None => builder.build(),
    }
}

/// Relies on moka::sync::Cache::get: returns a clone of the live value
/// under the key, if there is one; retrieval may expire entries but adds
/// and changes none.
#[verifier::external_body]
fn store_get(c: &mut moka::sync::Cache<String, Vec<u8>>, key: &str) -> (r: Option<Vec<u8>>)
    ensures
        spec_store_contents(*final(c)).submap_of(spec_store_contents(*old(c))),
        match r {
            Some(v) => spec_store_contents(*old(c)).contains_key(key@) && spec_store_contents(
                *old(c),
            )[key@] == v@ && spec_store_contents(*final(c)).contains_key(key@),
            None => !spec_store_contents(*final(c)).contains_key(key@),
        },
{
    c.get(key)
}

/// Relies on moka::sync::Cache::insert: the key maps to the value if the
/// bounded store admits it; other entries keep their values or are
/// evicted, and none appears or changes.
#[verifier::external_body]
fn store_insert(c: &mut moka::sync::Cache<String, Vec<u8>>, key: String, value: Vec<u8>)
    ensures
        forall|k: Seq<char>|
            #[trigger] spec_store_contents(*final(c)).contains_key(k) ==> if k == key@ {
                spec_store_contents(*final(c))[k] == value@
            } else {
                spec_store_contents(*old(c)).contains_key(k) && spec_store_contents(*final(c))[k]
                    == spec_store_contents(*old(c))[k]
            },
{
    c.insert(key, value);
}

/// Relies on moka::sync::Cache::invalidate: the key's entry is discarded;
/// other entries keep their values or are evicted.
#[verifier::external_body]
fn store_invalidate(c: &mut moka::sync::Cache<String, Vec<u8>>, key: &str)
    ensures
        !spec_store_contents(*final(c)).contains_key(key@),
        spec_store_contents(*final(c)).submap_of(spec_store_contents(*old(c))),
{
    c.invalidate(key);
}

/// Relies on moka::sync::Cache::invalidate_all: retrieval is guaranteed
/// not to return any entry inserted before the call.
#[verifier::external_body]
fn store_invalidate_all(c: &mut moka::sync::Cache<String, Vec<u8>>)
    ensures
        spec_store_contents(*final(c)).dom() == Set::<Seq<char>>::empty(),
{
    c.invalidate_all();
}

/// Relies on moka::sync::Cache::run_pending_tasks: maintenance only
/// discards entries, it adds and changes none.
#[verifier::external_body]
fn store_run_pending_tasks(c: &mut moka::sync::Cache<String, Vec<u8>>)
    ensures
        spec_store_contents(*final(c)).submap_of(spec_store_contents(*old(c))),
{
    c.run_pending_tasks();
}

/// Relies on moka::sync::Cache::entry_count: an estimate of the number of
/// stored entries; moka promises nothing exact, so neither does this.
#[verifier::external_body]
fn store_entry_count(c: &moka::sync::Cache<String, Vec<u8>>) -> u64 {
    c.entry_count()
}

/// A counter bumped by one, stopping at its greatest value.
pub open spec fn spec_sat_inc(n: u64) -> u64 {
    if n == u64::MAX {
        n
    } else {
        (n + 1) as u64
    }
}

/// Cache statistics for monitoring: hit and miss counts, the stored
/// entry count, and a label naming the backend.
#[derive(Debug, Clone)]
pub struct CacheStats {
    /// Reads that found bytes under the key.
    pub hits: u64,
    /// Reads that found nothing under the key.
    pub misses: u64,
    /// Entries currently in the store, as the backend estimates it.
    pub item_count: u64,
    /// Which backend serves these statistics.
    pub backend_info: String,
}

/// The hit ratio as a whole percentage: hits against all reads, zero
/// before the first read.
pub open spec fn spec_hit_ratio_percent(hits: u64, misses: u64) -> int {
    if hits + misses == 0 {
        0
    } else {
        (hits * 100) / (hits + misses)
    }
}

impl CacheStats {
    /// The hit ratio as a whole percentage, zero before the first read.
    pub fn hit_ratio_percent(&self) -> (r: u64)
        ensures
            r == spec_hit_ratio_percent(self.hits, self.misses),
    {
        let hits = self.hits as u128;
        let misses = self.misses as u128;
        if hits + misses == 0 {
            0u64
        } else {
            let ratio = (hits * 100) / (hits + misses);
            proof {
                assert(hits * 100 <= (hits + misses) * 100) by (nonlinear_arith)
                    requires
                        misses >= 0,
                        hits >= 0,
                ;
                assert((hits * 100) / (hits + misses) <= 100) by (nonlinear_arith)
                    requires
                        hits + misses > 0,
                        hits * 100 <= (hits + misses) * 100,
                ;
            }
            ratio as u64
        }
    }
}

impl Default for CacheStats {
    /// Fresh statistics: no reads yet, no entries, backend unknown.
    fn default() -> (r: CacheStats)
        ensures
            r.hits == 0,
            r.misses == 0,
            r.item_count == 0,
            r.backend_info@ == "unknown"@,
    {
        CacheStats {
            hits: 0,
            misses: 0,
            item_count: 0,
            backend_info: String::from_str("unknown"),
        }
    }
}

/// The bounded in-memory cache backend: moka's synchronized store under
/// the verified statistics and envelope layers.
#[derive(Debug)]
pub struct InMemoryCacheBackend {
    cache: moka::sync::Cache<String, Vec<u8>>,
    stats: CacheStats,
}

/// A requested store-level TTL held inside the store's accepted range:
/// anything above the thousand-year cap is clamped to the cap.
pub open spec fn spec_clamped_store_ttl(ttl: Option<u64>) -> Option<u64> {
    match ttl {
        Some(secs) => if secs > MAX_STORE_TTL_SECS {
            Some(MAX_STORE_TTL_SECS)
        } else {
            Some(secs)
        },
        None => None,
    }
}

impl InMemoryCacheBackend {
    /// What the backend currently holds: key strings to stored bytes.
    pub closed spec fn contents(self) -> Map<Seq<char>, Seq<u8>> {
        spec_store_contents(self.cache)
    }

    /// The backend's statistics, as spec values.
    pub closed spec fn spec_stats(self) -> CacheStats {
        self.stats
    }

    /// The entry bound the store was built with.
    pub closed spec fn store_max_capacity(self) -> Option<u64> {
        spec_store_max_capacity(self.cache)
    }

    /// The store-level TTL in seconds the store was built with.
    pub closed spec fn store_ttl_secs(self) -> Option<u64> {
        spec_store_ttl_secs(self.cache)
    }

    /// A new in-memory backend with the given capacity and optional
    /// store-level TTL in seconds. A TTL beyond the store's thousand-year
    /// cap is clamped to the cap, so construction never fails.
    pub fn new(max_capacity: u64, ttl: Option<u64>) -> (r: InMemoryCacheBackend)
        ensures
            r.contents().dom() == Set::<Seq<char>>::empty(),
            r.spec_stats().hits == 0,
            r.spec_stats().misses == 0,
            r.spec_stats().item_count == 0,
            r.spec_stats().backend_info@ == "in-memory"@,
            r.store_max_capacity() == Some(max_capacity),
            r.store_ttl_secs() == spec_clamped_store_ttl(ttl),
    {
        let clamped_ttl: Option<u64> = match ttl {
            Some(secs) => if secs > MAX_STORE_TTL_SECS {
                Some(MAX_STORE_TTL_SECS)
            } else {
                Some(secs)
            },
            None => None,
        };
        InMemoryCacheBackend {
            cache: store_new(max_capacity, clamped_ttl),
            stats: CacheStats {
                hits: 0,
                misses: 0,
                item_count: 0,
                backend_info: String::from_str("in-memory"),
            },
        }
    }

    /// A default in-memory backend: a thousand entries, one hour of
    /// store-level TTL.
    pub fn default() -> (r: InMemoryCacheBackend)
        ensures
            r.contents().dom() == Set::<Seq<char>>::empty(),
            r.spec_stats().hits == 0,
            r.spec_stats().misses == 0,
    {
        Self::new(1000, Some(3600))
    }

    /// Record one read: bump the hit or miss counter and refresh the
    /// entry-count estimate.
    fn update_stats(&mut self, hit: bool)
        ensures
            final (self).cache == old(self).cache,
            final (self).spec_stats().hits == if hit {
                spec_sat_inc(old(self).spec_stats().hits)
            } else {
                old(self).spec_stats().hits
            },
            final (self).spec_stats().misses == if hit {
                old(self).spec_stats().misses
            } else {
                spec_sat_inc(old(self).spec_stats().misses)
            },
            final (self).spec_stats().backend_info == old(self).spec_stats().backend_info,
    {
        if hit {
            if self.stats.hits < u64::MAX {
                self.stats.hits = self.stats.hits + 1;
            }
        } else {
            if self.stats.misses < u64::MAX {
                self.stats.misses = self.stats.misses + 1;
            }
        }
        self.stats.item_count = store_entry_count(&self.cache);
    }

    /// Physical read: the stored bytes under the key string, if any,
    /// counted as a hit or a miss.
    pub fn get_bytes(&mut self, key: &str) -> (r: Result<Option<Vec<u8>>, TraderGraderError>)
        ensures
            final (self).contents().submap_of(old(self).contents()),
            final (self).spec_stats().backend_info == old(self).spec_stats().backend_info,
            match r {
                Ok(Some(v)) => old(self).contents().contains_key(key@) && old(self).contents()[key@]
                    == v@ && final (self).contents().contains_key(key@) && final (self).spec_stats().hits
                    == spec_sat_inc(old(self).spec_stats().hits) && final (self).spec_stats().misses == old(
                    self,
                ).spec_stats().misses,
                Ok(None) => !final (self).contents().contains_key(key@) && final (self).spec_stats().misses
                    == spec_sat_inc(old(self).spec_stats().misses) && final (self).spec_stats().hits == old(
                    self,
                ).spec_stats().hits,
                Err(_) => false,
            },
    {
        let found = store_get(&mut self.cache, key);
        match found {
            Some(bytes) => {
                self.update_stats(true);
                Ok(Some(bytes))
            },
            None => {
                self.update_stats(false);
                Ok(None)
            },
        }
    }

    /// Physical write: store bytes under the key string. The store was
    /// built with its own time-to-live, so the per-entry TTL is enforced
    /// at the envelope layer, not here.
    pub fn set_bytes(&mut self, key: &str, data: Vec<u8>, _ttl: u64) -> (r: Result<
        (),
        TraderGraderError,
    >)
        ensures
            r is Ok,
            final (self).spec_stats() == old(self).spec_stats(),
            forall|k: Seq<char>|
                #[trigger] final (self).contents().contains_key(k) ==> if k == key@ {
                    final (self).contents()[k] == data@
                } else {
                    old(self).contents().contains_key(k) && final (self).contents()[k] == old(
                        self,
                    ).contents()[k]
                },
    {
        store_insert(&mut self.cache, key.to_owned(), data);
        Ok(())
    }

    /// Evict the entry under a key.
    pub fn remove(&mut self, key: &CacheKey) -> (r: Result<(), TraderGraderError>)
        ensures
            r is Ok,
            final (self).spec_stats() == old(self).spec_stats(),
            !final (self).contents().contains_key(spec_key_string(*key)),
            final (self).contents().submap_of(old(self).contents()),
    {
        let key_str = key.to_string();
        store_invalidate(&mut self.cache, key_str.as_str());
        Ok(())
    }

    /// Discard every entry; nothing is left observable when the call
    /// returns.
    pub fn clear(&mut self) -> (r: Result<(), TraderGraderError>)
        ensures
            r is Ok,
            final (self).spec_stats() == old(self).spec_stats(),
            final (self).contents().dom() == Set::<Seq<char>>::empty(),
    {
        store_invalidate_all(&mut self.cache);
        store_run_pending_tasks(&mut self.cache);
        proof {
            assert(final (self).contents().dom() =~= Set::<Seq<char>>::empty());
        }
        Ok(())
    }

    /// A snapshot of the statistics; never fails.
    pub fn stats(&self) -> (r: Result<CacheStats, TraderGraderError>)
        ensures
            match r {
                Ok(s) => s.hits == self.spec_stats().hits && s.misses == self.spec_stats().misses
                    && s.item_count == self.spec_stats().item_count && s.backend_info@
                    == self.spec_stats().backend_info@,
                Err(_) => false,
            },
    {
        Ok(
            CacheStats {
                hits: self.stats.hits,
                misses: self.stats.misses,
                item_count: self.stats.item_count,
                backend_info: self.stats.backend_info.clone(),
            },
        )
    }

    /// Typed read against a given clock reading: fetch the bytes under
    /// the key, decode the envelope, and enforce expiry at `now`. A
    /// corrupt or expired entry is evicted and reported as absent, never
    /// as an error; whenever the result is absent, the entry is gone from
    /// the store; a returned envelope is valid at `now`.
    pub fn get_at(&mut self, key: &CacheKey, now: u64) -> (r: Result<
        Option<CacheItem<Vec<u8>>>,
        TraderGraderError,
    >)
        ensures
            final (self).contents().submap_of(old(self).contents()),
            final (self).spec_stats().backend_info == old(self).spec_stats().backend_info,
            // One physical read is counted: a hit when bytes were found,
            // whether or not they were still logically valid, a miss
            // otherwise.
            (final (self).spec_stats().hits == spec_sat_inc(old(self).spec_stats().hits) && final (
            self).spec_stats().misses == old(self).spec_stats().misses) || (final (
            self).spec_stats().misses == spec_sat_inc(old(self).spec_stats().misses) && final (
            self).spec_stats().hits == old(self).spec_stats().hits),
            match r {
                Ok(Some(item)) => old(self).contents().contains_key(spec_key_string(*key)) && old(
                    self,
                ).contents()[spec_key_string(*key)] == spec_encode_envelope(
                    item.cached_at,
                    item.ttl,
                    item.data@,
                ) && final (self).spec_stats().hits == spec_sat_inc(old(self).spec_stats().hits)
                    && spec_valid_at(item.cached_at, item.ttl, now),
                Ok(None) => !final (self).contents().contains_key(spec_key_string(*key)),
                Err(_) => false,
            },
    {
        let key_str = key.to_string();
        let found = self.get_bytes(key_str.as_str());
        let ghost mid = *self;
        match found {
            Ok(Some(bytes)) => {
                match decode_envelope(bytes.as_slice()) {
                    Some(item) => {
                        if item.is_valid_at(now) {
                            proof {
                                crate::envelope::lemma_decode_implies_encode(
                                    bytes@,
                                    item.cached_at,
                                    item.ttl,
                                    item.data@,
                                );
                            }
                            Ok(Some(item))
                        } else {
                            // Expired: evict the physical entry as a side
                            // effect of the read.
                            let _ = self.remove(key);
                            proof {
                                assert forall|k: Seq<char>| #[trigger] self.contents().contains_key(
                                    k,
                                ) implies old(self).contents().contains_key(k)
                                    && self.contents()[k] == old(self).contents()[k] by {
                                    assert(mid.contents().dom().contains(k) && self.contents()[k]
                                        == mid.contents()[k]);
                                    assert(old(self).contents().dom().contains(k)
                                        && mid.contents()[k] == old(self).contents()[k]);
                                }
                                assert(self.contents().submap_of(old(self).contents()));
                            }
                            Ok(None)
                        }
                    },
                    None => {
                        // Corrupt: evict and report absent.
                        let _ = self.remove(key);
                        proof {
                            assert forall|k: Seq<char>| #[trigger] self.contents().contains_key(
                                k,
                            ) implies old(self).contents().contains_key(k) && self.contents()[k]
                                == old(self).contents()[k] by {
                                assert(mid.contents().dom().contains(k) && self.contents()[k]
                                    == mid.contents()[k]);
                                assert(old(self).contents().dom().contains(k) && mid.contents()[k]
                                    == old(self).contents()[k]);
                            }
                            assert(self.contents().submap_of(old(self).contents()));
                        }
                        Ok(None)
                    },
                }
            },
            Ok(None) => Ok(None),
            Err(e) => Err(e),
        }
    }

    /// Typed read at the current time: what `get_at` does, against the
    /// wall clock.
    pub fn get(&mut self, key: &CacheKey) -> (r: Result<
        Option<CacheItem<Vec<u8>>>,
        TraderGraderError,
    >)
        ensures
            final (self).contents().submap_of(old(self).contents()),
            final (self).spec_stats().backend_info == old(self).spec_stats().backend_info,
            // One physical read is counted: a hit when bytes were found,
            // whether or not they were still logically valid, a miss
            // otherwise.
            (final (self).spec_stats().hits == spec_sat_inc(old(self).spec_stats().hits) && final (
            self).spec_stats().misses == old(self).spec_stats().misses) || (final (
            self).spec_stats().misses == spec_sat_inc(old(self).spec_stats().misses) && final (
            self).spec_stats().hits == old(self).spec_stats().hits),
            match r {
                Ok(Some(item)) => old(self).contents().contains_key(spec_key_string(*key)) && old(
                    self,
                ).contents()[spec_key_string(*key)] == spec_encode_envelope(
                    item.cached_at,
                    item.ttl,
                    item.data@,
                ) && final (self).spec_stats().hits == spec_sat_inc(old(self).spec_stats().hits),
                Ok(None) => !final (self).contents().contains_key(spec_key_string(*key)),
                Err(_) => false,
            },
    {
        let now = now_unix_seconds();
        self.get_at(key, now)
    }

    /// Typed write: encode the envelope and store it under the key. The
    /// envelope codec is total, so the write always succeeds here; a
    /// networked backend may fail instead.
    pub fn set(&mut self, key: &CacheKey, item: CacheItem<Vec<u8>>) -> (r: Result<
        (),
        TraderGraderError,
    >)
        ensures
            r is Ok,
            final (self).spec_stats() == old(self).spec_stats(),
            forall|k: Seq<char>|
                #[trigger] final (self).contents().contains_key(k) ==> if k == spec_key_string(
                    *key,
                ) {
                    final (self).contents()[k] == spec_encode_envelope(
                        item.cached_at,
                        item.ttl,
                        item.data@,
                    )
                } else {
                    old(self).contents().contains_key(k) && final (self).contents()[k] == old(
                        self,
                    ).contents()[k]
                },
    {
        let key_str = key.to_string();
        let encoded = encode_envelope(&item);
        self.set_bytes(key_str.as_str(), encoded, item.ttl)
    }

    /// Round-trip self-test: write a probe entry, read it back, verify
    /// the payload, delete it. Fails with a cache error if the readback
    /// is absent or differs; on success the read found the probe (a hit
    /// is counted) and the probe entry is cleaned up. Entries under other
    /// keys are never touched: each either survives unchanged or falls to
    /// the store's own eviction.
    pub fn health_check(&mut self) -> (r: Result<(), TraderGraderError>)
        ensures
            final (self).spec_stats().backend_info == old(self).spec_stats().backend_info,
            // The self-test performs exactly one physical read.
            (final (self).spec_stats().hits == spec_sat_inc(old(self).spec_stats().hits) && final (
            self).spec_stats().misses == old(self).spec_stats().misses) || (final (
            self).spec_stats().misses == spec_sat_inc(old(self).spec_stats().misses) && final (
            self).spec_stats().hits == old(self).spec_stats().hits),
            r is Ok ==> final (self).spec_stats().hits == spec_sat_inc(old(self).spec_stats().hits)
                && !final (self).contents().contains_key(spec_health_probe_key_string()),
            forall|k: Seq<char>|
                #[trigger] final (self).contents().contains_key(k) && k
                    != spec_health_probe_key_string() ==> old(self).contents().contains_key(k)
                    && final (self).contents()[k] == old(self).contents()[k],
            r matches Err(e) ==> e is CacheError,
    {
        let probe_key = CacheKey {
            data_type: String::from_str("health_check"),
            region_id: 0,
            type_id: None,
            params: None,
        };
        proof {
            lemma_health_probe_key_string(probe_key);
        }
        let payload = probe_payload();
        let probe_item = CacheItem::new(payload, 10);
        let expected = probe_item.data.clone();
        let _ = self.set(&probe_key, probe_item);
        let ghost mid1 = *self;
        let got = self.get(&probe_key);
        let ghost mid2 = *self;
        let outcome: Result<(), TraderGraderError> = match got {
            Ok(Some(retrieved)) => {
                if bytes_eq(&retrieved.data, &expected) {
                    let _ = self.remove(&probe_key);
                    Ok(())
                } else {
                    Err(
                        TraderGraderError::CacheError {
                            message: String::from_str(
                                "Health check failed: retrieved data doesn't match",
                            ),
                        },
                    )
                }
            },
            _ => Err(
                TraderGraderError::CacheError {
                    message: String::from_str("Health check failed: could not retrieve test item"),
                },
            ),
        };
        proof {
            assert(mid2.contents().submap_of(mid1.contents()));
            assert(self.contents().submap_of(mid2.contents()));
            assert forall|k: Seq<char>| #[trigger] self.contents().contains_key(k) && k
                != spec_health_probe_key_string() implies old(self).contents().contains_key(k)
                && self.contents()[k] == old(self).contents()[k] by {
                assert(mid2.contents().dom().contains(k) && self.contents()[k]
                    == mid2.contents()[k]);
                assert(mid2.contents().dom().contains(k));
                assert(mid1.contents().dom().contains(k));
                assert(mid2.contents()[k] == mid1.contents()[k]);
                assert(old(self).contents().dom().contains(k) && mid1.contents()[k] == old(
                    self,
                ).contents()[k]);
            }
        }
        outcome
    }
}

/// The string form of the reserved self-test key.
pub open spec fn spec_health_probe_key_string() -> Seq<char> {
    "tradergrader:health_check:0"@
}

/// The self-test's probe key has the reserved string form.
proof fn lemma_health_probe_key_string(probe: CacheKey)
    requires
        probe.data_type@ == "health_check"@,
        probe.region_id == 0,
        probe.type_id is None,
        probe.params is None,
    ensures
        spec_key_string(probe) == spec_health_probe_key_string(),
{
    reveal_strlit("tradergrader");
    reveal_strlit("health_check");
    reveal_strlit("tradergrader:health_check:0");
    let dt = probe.data_type@;
    let rg = crate::text::spec_dec_int(0);
    let segs = crate::key::spec_key_segments(probe);
    assert(rg =~= seq!['0']);
    assert(segs =~= seq![dt, rg]);
    assert(segs.drop_first() =~= seq![rg]);
    assert(seq![rg].drop_first() =~= Seq::<Seq<char>>::empty());
    assert(crate::key::spec_join_segments(Seq::<Seq<char>>::empty()) =~= Seq::<char>::empty());
    assert(crate::key::spec_join_segments(seq![rg]) =~= seq![':'] + rg);
    assert(crate::key::spec_join_segments(segs) =~= seq![':'] + dt + (seq![':'] + rg));
    assert(spec_key_string(probe) =~= spec_health_probe_key_string());
}

/// The probe payload the self-test stores and expects back.
fn probe_payload() -> Vec<u8> {
    let text = "health_check_data";
    text.as_bytes_vec()
}

/// Whether two byte strings hold the same bytes.
fn bytes_eq(a: &Vec<u8>, b: &Vec<u8>) -> (r: bool)
    ensures
        r == (a@ == b@),
{
    if a.len() != b.len() {
        return false;
    }
    let mut i: usize = 0;
    while i < a.len()
        invariant
            a@.len() == b@.len(),
            i <= a@.len(),
            forall|j: int| 0 <= j < i ==> a@[j] == b@[j],
        decreases a@.len() - i,
    {
        if a[i] != b[i] {
            return false;
        }
        i += 1;
    }
    proof {
        assert(a@ =~= b@);
    }
    true
}

/// Which kind of store a cache configuration asks for.
#[derive(Debug, Clone)]
pub enum CacheBackendType {
    /// The bounded in-memory store.
    InMemory,
    /// An external networked store, a future extension point behind the
    /// same interface.
    Redis { connection_string: String },
}

/// Configuration of a cache backend.
#[derive(Debug, Clone)]
pub struct CacheConfig {
    /// Whether caching is enabled at all.
    pub enabled: bool,
    /// Greatest number of entries the store holds.
    pub max_capacity: u64,
    /// Store-level TTL in seconds for entries without their own.
    pub default_ttl: u64,
    /// Which kind of store to build.
    pub backend_type: CacheBackendType,
}

impl Default for CacheConfig {
    /// The documented default: caching enabled, a thousand entries, one
    /// hour of store-level TTL, in memory.
    fn default() -> (r: CacheConfig)
        ensures
            r.enabled,
            r.max_capacity == 1000,
            r.default_ttl == 3600,
            r.backend_type is InMemory,
    {
        CacheConfig {
            enabled: true,
            max_capacity: 1000,
            default_ttl: 3600,
            backend_type: CacheBackendType::InMemory,
        }
    }
}

impl CacheConfig {
    /// A new configuration with the documented defaults.
    pub fn new() -> (r: CacheConfig)
        ensures
            r.enabled,
            r.max_capacity == 1000,
            r.default_ttl == 3600,
            r.backend_type is InMemory,
    {
        Self::default()
    }

    /// A configuration with caching switched off; every other field keeps
    /// its default.
    pub fn disabled() -> (r: CacheConfig)
        ensures
            !r.enabled,
            r.max_capacity == 1000,
            r.default_ttl == 3600,
            r.backend_type is InMemory,
    {
        CacheConfig { enabled: false, ..Self::default() }
    }

    /// An in-memory configuration with the given capacity and
    /// store-level TTL in seconds.
    pub fn in_memory(max_capacity: u64, default_ttl: u64) -> (r: CacheConfig)
        ensures
            r.enabled,
            r.max_capacity == max_capacity,
            r.default_ttl == default_ttl,
            r.backend_type is InMemory,
    {
        CacheConfig {
            enabled: true,
            max_capacity,
            default_ttl,
            backend_type: CacheBackendType::InMemory,
        }
    }

    /// A networked-store configuration; building such a backend is not
    /// implemented yet.
    pub fn redis(connection_string: String, max_capacity: u64, default_ttl: u64) -> (r: CacheConfig)
        ensures
            r.enabled,
            r.max_capacity == max_capacity,
            r.default_ttl == default_ttl,
            r.backend_type matches CacheBackendType::Redis { connection_string: c } && c@
                == connection_string@,
    {
        CacheConfig {
            enabled: true,
            max_capacity,
            default_ttl,
            backend_type: CacheBackendType::Redis { connection_string },
        }
    }
}

/// The capability handle callers hold: one of the available backend
/// kinds, today the bounded in-memory store.
#[derive(Debug)]
pub enum CacheBackend {
    /// The bounded in-memory store.
    InMemory(InMemoryCacheBackend),
}

impl CacheBackend {
    /// What the backend currently holds: key strings to stored bytes.
    pub open spec fn contents(self) -> Map<Seq<char>, Seq<u8>> {
        match self {
            CacheBackend::InMemory(b) => b.contents(),
        }
    }

    /// The backend's statistics, as spec values.
    pub open spec fn spec_stats(self) -> CacheStats {
        match self {
            CacheBackend::InMemory(b) => b.spec_stats(),
        }
    }

    /// The entry bound the backend's store was built with.
    pub open spec fn store_max_capacity(self) -> Option<u64> {
        match self {
            CacheBackend::InMemory(b) => b.store_max_capacity(),
        }
    }

    /// The store-level TTL in seconds the backend's store was built with.
    pub open spec fn store_ttl_secs(self) -> Option<u64> {
        match self {
            CacheBackend::InMemory(b) => b.store_ttl_secs(),
        }
    }

    /// Physical read; counts a hit or a miss.
    pub fn get_bytes(&mut self, key: &str) -> (r: Result<Option<Vec<u8>>, TraderGraderError>)
        ensures
            final (self).contents().submap_of(old(self).contents()),
            match r {
                Ok(Some(v)) => old(self).contents().contains_key(key@) && old(self).contents()[key@]
                    == v@ && final (self).spec_stats().hits == spec_sat_inc(
                    old(self).spec_stats().hits,
                ),
                Ok(None) => !final (self).contents().contains_key(key@)
                    && final (self).spec_stats().misses == spec_sat_inc(
                    old(self).spec_stats().misses,
                ),
                Err(_) => false,
            },
    {
        match self {
            CacheBackend::InMemory(b) => b.get_bytes(key),
        }
    }

    /// Physical write under the key string.
    pub fn set_bytes(&mut self, key: &str, data: Vec<u8>, ttl: u64) -> (r: Result<
        (),
        TraderGraderError,
    >)
        ensures
            r is Ok,
            forall|k: Seq<char>|
                #[trigger] final (self).contents().contains_key(k) ==> if k == key@ {
                    final (self).contents()[k] == data@
                } else {
                    old(self).contents().contains_key(k) && final (self).contents()[k] == old(
                        self,
                    ).contents()[k]
                },
    {
        match self {
            CacheBackend::InMemory(b) => b.set_bytes(key, data, ttl),
        }
    }

    /// Evict the entry under a key.
    pub fn remove(&mut self, key: &CacheKey) -> (r: Result<(), TraderGraderError>)
        ensures
            r is Ok,
            !final (self).contents().contains_key(spec_key_string(*key)),
            final (self).contents().submap_of(old(self).contents()),
    {
        match self {
            CacheBackend::InMemory(b) => b.remove(key),
        }
    }

    /// Discard every entry.
    pub fn clear(&mut self) -> (r: Result<(), TraderGraderError>)
        ensures
            r is Ok,
            final (self).contents().dom() == Set::<Seq<char>>::empty(),
    {
        match self {
            CacheBackend::InMemory(b) => b.clear(),
        }
    }

    /// A snapshot of the statistics; never fails.
    pub fn stats(&self) -> (r: Result<CacheStats, TraderGraderError>)
        ensures
            match r {
                Ok(s) => s.hits == self.spec_stats().hits && s.misses == self.spec_stats().misses
                    && s.item_count == self.spec_stats().item_count && s.backend_info@
                    == self.spec_stats().backend_info@,
                Err(_) => false,
            },
    {
        match self {
            CacheBackend::InMemory(b) => b.stats(),
        }
    }

    /// Round-trip self-test of the backend: write a probe entry, read it
    /// back, verify it, delete it. On success the read found the probe
    /// and the probe entry is cleaned up; other entries are never
    /// touched.
    pub fn health_check(&mut self) -> (r: Result<(), TraderGraderError>)
        ensures
            final (self).spec_stats().backend_info == old(self).spec_stats().backend_info,
            // The self-test performs exactly one physical read.
            (final (self).spec_stats().hits == spec_sat_inc(old(self).spec_stats().hits) && final (
            self).spec_stats().misses == old(self).spec_stats().misses) || (final (
            self).spec_stats().misses == spec_sat_inc(old(self).spec_stats().misses) && final (
            self).spec_stats().hits == old(self).spec_stats().hits),
            r is Ok ==> final (self).spec_stats().hits == spec_sat_inc(old(self).spec_stats().hits)
                && !final (self).contents().contains_key(spec_health_probe_key_string()),
            forall|k: Seq<char>|
                #[trigger] final (self).contents().contains_key(k) && k
                    != spec_health_probe_key_string() ==> old(self).contents().contains_key(k)
                    && final (self).contents()[k] == old(self).contents()[k],
            r matches Err(e) ==> e is CacheError,
    {
        match self {
            CacheBackend::InMemory(b) => b.health_check(),
        }
    }

    /// Typed read against a given clock reading: decode and enforce
    /// expiry at `now`; corrupt and expired entries are evicted and
    /// reported as absent; a returned envelope is valid at `now`.
    pub fn get_at(&mut self, key: &CacheKey, now: u64) -> (r: Result<
        Option<CacheItem<Vec<u8>>>,
        TraderGraderError,
    >)
        ensures
            final (self).contents().submap_of(old(self).contents()),
            // One physical read is counted: a hit when bytes were found,
            // whether or not they were still logically valid, a miss
            // otherwise.
            (final (self).spec_stats().hits == spec_sat_inc(old(self).spec_stats().hits) && final (
            self).spec_stats().misses == old(self).spec_stats().misses) || (final (
            self).spec_stats().misses == spec_sat_inc(old(self).spec_stats().misses) && final (
            self).spec_stats().hits == old(self).spec_stats().hits),
            match r {
                Ok(Some(item)) => old(self).contents().contains_key(spec_key_string(*key)) && old(
                    self,
                ).contents()[spec_key_string(*key)] == spec_encode_envelope(
                    item.cached_at,
                    item.ttl,
                    item.data@,
                ) && spec_valid_at(item.cached_at, item.ttl, now),
                Ok(None) => !final (self).contents().contains_key(spec_key_string(*key)),
                Err(_) => false,
            },
    {
        match self {
            CacheBackend::InMemory(b) => b.get_at(key, now),
        }
    }

    /// Typed read at the current time: what `get_at` does, against the
    /// wall clock.
    pub fn get(&mut self, key: &CacheKey) -> (r: Result<
        Option<CacheItem<Vec<u8>>>,
        TraderGraderError,
    >)
        ensures
            final (self).contents().submap_of(old(self).contents()),
            // One physical read is counted: a hit when bytes were found,
            // whether or not they were still logically valid, a miss
            // otherwise.
            (final (self).spec_stats().hits == spec_sat_inc(old(self).spec_stats().hits) && final (
            self).spec_stats().misses == old(self).spec_stats().misses) || (final (
            self).spec_stats().misses == spec_sat_inc(old(self).spec_stats().misses) && final (
            self).spec_stats().hits == old(self).spec_stats().hits),
            match r {
                Ok(Some(item)) => old(self).contents().contains_key(spec_key_string(*key)) && old(
                    self,
                ).contents()[spec_key_string(*key)] == spec_encode_envelope(
                    item.cached_at,
                    item.ttl,
                    item.data@,
                ),
                Ok(None) => !final (self).contents().contains_key(spec_key_string(*key)),
                Err(_) => false,
            },
    {
        match self {
            CacheBackend::InMemory(b) => b.get(key),
        }
    }

    /// Typed write: encode the envelope and store it under the key.
    pub fn set(&mut self, key: &CacheKey, item: CacheItem<Vec<u8>>) -> (r: Result<
        (),
        TraderGraderError,
    >)
        ensures
            r is Ok,
            forall|k: Seq<char>|
                #[trigger] final (self).contents().contains_key(k) ==> if k == spec_key_string(
                    *key,
                ) {
                    final (self).contents()[k] == spec_encode_envelope(
                        item.cached_at,
                        item.ttl,
                        item.data@,
                    )
                } else {
                    old(self).contents().contains_key(k) && final (self).contents()[k] == old(
                        self,
                    ).contents()[k]
                },
    {
        match self {
            CacheBackend::InMemory(b) => b.set(key, item),
        }
    }
}

impl CacheConfig {
    /// Build the backend this configuration asks for: none when caching
    /// is disabled, a fresh in-memory store otherwise. The networked
    /// backend is not implemented yet and is reported as a cache error.
    pub fn create_backend(&self) -> (r: Result<Option<CacheBackend>, TraderGraderError>)
        ensures
            !self.enabled ==> r matches Ok(None),
            self.enabled && self.backend_type is InMemory ==> (r matches Ok(Some(b))
                && b.contents().dom() == Set::<Seq<char>>::empty() && b.spec_stats().hits == 0
                && b.spec_stats().misses == 0 && b.store_max_capacity() == Some(self.max_capacity)
                && b.store_ttl_secs() == spec_clamped_store_ttl(Some(self.default_ttl))),
            self.enabled && self.backend_type is Redis ==> (r matches Err(e) && e is CacheError),
    {
        if !self.enabled {
            return Ok(None);
        }
        match &self.backend_type {
            CacheBackendType::InMemory => {
                let backend = InMemoryCacheBackend::new(self.max_capacity, Some(self.default_ttl));
                Ok(Some(CacheBackend::InMemory(backend)))
            },
            CacheBackendType::Redis { .. } => Err(
                TraderGraderError::CacheError {
                    message: String::from_str("Redis backend not implemented yet"),
                },
            ),
        }
    }
}

} // verus!
