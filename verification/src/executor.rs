//! The get-or-fetch composition: the cache-side steps of serving a
//! request from the backend or storing a fresh upstream response.
//!
//! The upstream call itself, and the waits between retries, run with the
//! surrounding async code; it hands the response's status, freshness
//! header and body bytes to these functions and to the rate limiter's
//! decisions.

use crate::cache::CacheBackend;
use crate::envelope::{lemma_envelope_round_trip, spec_decode_envelope, spec_encode_envelope};
use crate::error::TraderGraderError;
use crate::key::{spec_key_string, CacheKey};
use crate::text::{spec_dec, u64_to_string};
use crate::ttl::EsiHeaderParser;
use vstd::prelude::*;

verus! {

/// Serve a request from the cache if a valid envelope is stored under the
/// key: the logical hit of the get-or-fetch operation. Absent, expired
/// and corrupt entries all come back as `None`, and in each of those
/// cases the entry is gone from the store afterwards.
pub fn lookup_payload(backend: &mut CacheBackend, key: &CacheKey) -> (r: Option<Vec<u8>>)
    ensures
        match r {
            Some(payload) => old(backend).contents().contains_key(spec_key_string(*key)) && (
            spec_decode_envelope(old(backend).contents()[spec_key_string(*key)]) matches Some(
                fields,
            ) && fields.2 == payload@),
            None => !final (backend).contents().contains_key(spec_key_string(*key)),
        },
{
    match backend.get(key) {
        Ok(Some(item)) => {
            let data = item.data;
            proof {
                lemma_envelope_round_trip(item.cached_at, item.ttl, data@);
            }
            Some(data)
        },
        Ok(None) => None,
        Err(_) => None,
    }
}

/// Store a successful upstream response under the key: wrap the body in
/// an envelope whose TTL follows the response's freshness header and the
/// category recommendation, and write it. A write failure is swallowed:
/// caching is an optimization, and the caller already holds its data.
pub fn store_response(
    backend: &mut CacheBackend,
    key: &CacheKey,
    body: Vec<u8>,
    cache_control: Option<&str>,
    data_type: &str,
)
    ensures
        forall|k: Seq<char>|
            #[trigger] final (backend).contents().contains_key(k) ==> if k == spec_key_string(
                *key,
            ) {
                exists|cached_at: u64|
                    final (backend).contents()[k] == spec_encode_envelope(
                        cached_at,
                        EsiHeaderParser::spec_response_ttl(
                            crate::rate_limit::spec_opt_view(cache_control),
                            data_type@,
                        ),
                        body@,
                    )
            } else {
                old(backend).contents().contains_key(k) && final (backend).contents()[k] == old(
                    backend,
                ).contents()[k]
            },
{
    let item = EsiHeaderParser::create_cache_item_from_response(body, cache_control, data_type);
    let _ = backend.set(key, item);
}

/// The error surfaced when the upstream's final response, after any
/// retries, is not a success.
pub open spec fn spec_upstream_error_message(status: u16) -> Seq<char> {
    "ESI API request failed with status: "@ + spec_dec(status as nat)
}

/// Step three of get-or-fetch: a success status passes, anything else
/// becomes the typed upstream error, never cached.
pub fn check_upstream_status(status: u16) -> (r: Result<(), TraderGraderError>)
    ensures
        (200 <= status < 300) <==> r is Ok,
        r matches Err(e) ==> e matches TraderGraderError::InternalError(m) && m@
            == spec_upstream_error_message(status),
{
    if 200 <= status && status < 300 {
        Ok(())
    } else {
        let code = u64_to_string(status as u64);
        let message = String::from_str("ESI API request failed with status: ").concat(
            code.as_str(),
        );
        Err(TraderGraderError::InternalError(message))
    }
}

} // verus!
