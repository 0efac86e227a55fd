//! Cache envelopes: a payload wrapped with its creation time and TTL, and
//! the byte format under which envelopes are stored in a backend.
//!
//! An envelope is valid while less than `ttl` seconds have passed since it
//! was created; `ttl == 0` marks an envelope that is never valid (the
//! stored form of a "do not cache" directive). The byte format is a
//! version tag, the two timestamps in little-endian order, and the raw
//! payload; decoding rejects anything shorter or differently tagged.

use vstd::bytes::{
    lemma_auto_spec_u64_to_from_le_bytes, spec_u64_from_le_bytes, spec_u64_to_le_bytes,
    u64_from_le_bytes, u64_to_le_bytes,
};
use vstd::prelude::*;
use vstd::slice::slice_subrange;

verus! {

/// Version tag that opens every stored envelope.
pub const ENVELOPE_VERSION: u8 = 1;

/// Cached payload together with its creation time and TTL.
///
/// `cached_at` is a Unix timestamp in whole seconds; `ttl` is a span in
/// whole seconds.
#[derive(Debug, Clone)]
pub struct CacheItem<T> {
    /// The cached payload.
    pub data: T,
    /// Unix time, in seconds, at which the item was created.
    pub cached_at: u64,
    /// How long the item stays valid, in seconds.
    pub ttl: u64,
}

/// Whether an envelope created at `cached_at` with the given `ttl` is
/// still valid at time `now`.
pub open spec fn spec_valid_at(cached_at: u64, ttl: u64, now: u64) -> bool {
    (now as int) < cached_at + ttl
}

/// An envelope with a TTL of zero is never valid once the clock has
/// reached its creation time — and it is created at the then-current
/// time, so from creation on it is never valid.
pub proof fn lemma_zero_ttl_never_valid(cached_at: u64, now: u64)
    requires
        now >= cached_at,
    ensures
        !spec_valid_at(cached_at, 0, now),
{
}

/// Relies on chrono::Utc::now for the wall clock; the time is whatever
/// the clock reads, so nothing is promised of the result. chrono aborts
/// only if the system clock reads before the Unix epoch — an
/// environmental condition no precondition can exclude.
#[verifier::external_body]
pub(crate) fn now_unix_seconds() -> u64 {
    chrono::Utc::now().timestamp() as u64
}

impl<T> CacheItem<T> {
    /// Wrap a payload with the current time and the given TTL in seconds.
    pub fn new(data: T, ttl: u64) -> (r: CacheItem<T>)
        ensures
            r.ttl == ttl,
            r.data == data,
    {
        CacheItem { data, cached_at: now_unix_seconds(), ttl }
    }

    /// Whether the item is valid at the given time: strictly less than
    /// `ttl` seconds have passed since it was created.
    pub fn is_valid_at(&self, now: u64) -> (r: bool)
        ensures
            r == spec_valid_at(self.cached_at, self.ttl, now),
    {
        match self.cached_at.checked_add(self.ttl) {
            Some(expires_at) => now < expires_at,
            None => true,
        }
    }

    /// Whether the item is valid now. The clock decides; `is_valid_at`
    /// states the exact rule for a known time.
    pub fn is_valid(&self) -> bool {
        let now = now_unix_seconds();
        self.is_valid_at(now)
    }

    /// Seconds of validity left at the given time, `None` once expired.
    pub fn remaining_ttl_at(&self, now: u64) -> (r: Option<u64>)
        ensures
            r matches Some(left) ==> spec_valid_at(self.cached_at, self.ttl, now) && left == (
            if self.cached_at + self.ttl <= u64::MAX {
                self.cached_at + self.ttl - now
            } else {
                u64::MAX - now
            }),
            r is None ==> !spec_valid_at(self.cached_at, self.ttl, now),
    {
        if self.is_valid_at(now) {
            match self.cached_at.checked_add(self.ttl) {
                Some(expires_at) => Some(expires_at - now),
                None => {
                    // cached_at + ttl exceeds u64::MAX, so more than
                    // u64::MAX - now seconds are left; report the span
                    // that still fits.
                    Some(u64::MAX - now)
                },
            }
        } else {
            None
        }
    }

    /// Seconds of validity left now, `None` once expired.
    pub fn remaining_ttl(&self) -> Option<u64> {
        let now = now_unix_seconds();
        self.remaining_ttl_at(now)
    }
}

/// The stored byte form of an envelope: version tag, creation time and
/// TTL in little-endian order, then the payload bytes.
pub open spec fn spec_encode_envelope(cached_at: u64, ttl: u64, payload: Seq<u8>) -> Seq<u8> {
    seq![ENVELOPE_VERSION] + spec_u64_to_le_bytes(cached_at) + spec_u64_to_le_bytes(ttl) + payload
}

/// What decoding a stored byte string yields: the envelope fields if the
/// bytes carry the version tag and are long enough, nothing otherwise.
pub open spec fn spec_decode_envelope(b: Seq<u8>) -> Option<(u64, u64, Seq<u8>)> {
    if b.len() >= 17 && b[0] == ENVELOPE_VERSION {
        Some(
            (
                spec_u64_from_le_bytes(b.subrange(1, 9)),
                spec_u64_from_le_bytes(b.subrange(9, 17)),
                b.skip(17),
            ),
        )
    } else {
        None
    }
}

/// Decoding undoes encoding exactly: every envelope survives the trip to
/// bytes and back unchanged.
pub proof fn lemma_envelope_round_trip(cached_at: u64, ttl: u64, payload: Seq<u8>)
    ensures
        spec_decode_envelope(spec_encode_envelope(cached_at, ttl, payload)) == Some(
            (cached_at, ttl, payload),
        ),
{
    lemma_auto_spec_u64_to_from_le_bytes();
    let b = spec_encode_envelope(cached_at, ttl, payload);
    assert(b.subrange(1, 9) =~= spec_u64_to_le_bytes(cached_at));
    assert(b.subrange(9, 17) =~= spec_u64_to_le_bytes(ttl));
    assert(b.skip(17) =~= payload);
}

/// The byte format is injective: equal stored bytes come from equal
/// envelopes, so a payload read back from storage is the payload that was
/// written.
pub proof fn lemma_envelope_encoding_injective(
    c1: u64,
    t1: u64,
    p1: Seq<u8>,
    c2: u64,
    t2: u64,
    p2: Seq<u8>,
)
    requires
        spec_encode_envelope(c1, t1, p1) == spec_encode_envelope(c2, t2, p2),
    ensures
        c1 == c2,
        t1 == t2,
        p1 == p2,
{
    lemma_envelope_round_trip(c1, t1, p1);
    lemma_envelope_round_trip(c2, t2, p2);
}

/// Decoding is the inverse direction too: bytes that decode to envelope
/// fields are exactly that envelope's encoding.
pub proof fn lemma_decode_implies_encode(b: Seq<u8>, cached_at: u64, ttl: u64, payload: Seq<u8>)
    requires
        spec_decode_envelope(b) == Some((cached_at, ttl, payload)),
    ensures
        spec_encode_envelope(cached_at, ttl, payload) == b,
{
    lemma_auto_spec_u64_to_from_le_bytes();
    assert(b.subrange(1, 9).len() == 8);
    assert(b.subrange(9, 17).len() == 8);
    assert(spec_u64_to_le_bytes(cached_at) == b.subrange(1, 9));
    assert(spec_u64_to_le_bytes(ttl) == b.subrange(9, 17));
    assert(spec_encode_envelope(cached_at, ttl, payload) =~= b);
}

/// Encode an envelope for storage.
pub fn encode_envelope(item: &CacheItem<Vec<u8>>) -> (r: Vec<u8>)
    ensures
        r@ == spec_encode_envelope(item.cached_at, item.ttl, item.data@),
{
    let mut out: Vec<u8> = Vec::new();
    out.push(ENVELOPE_VERSION);
    let mut created_bytes = u64_to_le_bytes(item.cached_at);
    out.append(&mut created_bytes);
    let mut ttl_bytes = u64_to_le_bytes(item.ttl);
    out.append(&mut ttl_bytes);
    let mut i: usize = 0;
    let n = item.data.len();
    while i < n
        invariant
            n == item.data@.len(),
            i <= n,
            out@ =~= seq![ENVELOPE_VERSION] + spec_u64_to_le_bytes(item.cached_at)
                + spec_u64_to_le_bytes(item.ttl) + item.data@.take(i as int),
        decreases n - i,
    {
        out.push(item.data[i]);
        i += 1;
    }
    proof {
        assert(item.data@.take(n as int) =~= item.data@);
        assert(out@ =~= spec_encode_envelope(item.cached_at, item.ttl, item.data@));
    }
    out
}

/// Decode a stored byte string back into an envelope. Bytes that do not
/// carry the version tag, or are too short to hold the two timestamps,
/// decode to nothing: the entry is corrupt.
pub fn decode_envelope(bytes: &[u8]) -> (r: Option<CacheItem<Vec<u8>>>)
    ensures
        match r {
            Some(item) => spec_decode_envelope(bytes@) == Some(
                (item.cached_at, item.ttl, item.data@),
            ),
            None => spec_decode_envelope(bytes@) is None,
        },
{
    if bytes.len() < 17 {
        return None;
    }
    if *vstd::slice::slice_index_get(bytes, 0) != ENVELOPE_VERSION {
        return None;
    }
    let cached_at = u64_from_le_bytes(slice_subrange(bytes, 1, 9));
    let ttl = u64_from_le_bytes(slice_subrange(bytes, 9, 17));
    let mut data: Vec<u8> = Vec::new();
    let n = bytes.len();
    let mut i: usize = 17;
    while i < n
        invariant
            17 <= i <= n,
            n == bytes@.len(),
            data@ =~= bytes@.subrange(17, i as int),
        decreases n - i,
    {
        data.push(*vstd::slice::slice_index_get(bytes, i));
        i += 1;
    }
    proof {
        assert(data@ =~= bytes@.skip(17));
    }
    Some(CacheItem { data, cached_at, ttl })
}

} // verus!
