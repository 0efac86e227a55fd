//! TTL policy: turning an upstream freshness header and a per-category
//! recommendation into the bounded TTL a cache envelope carries.
//!
//! All durations are whole seconds. A TTL of zero means "do not cache".

use crate::envelope::CacheItem;
use crate::text::{
    is_space_char, lemma_trim_end_take, lemma_trim_start_skip, parse_u64_str, spec_is_space,
    spec_parse_u64, spec_trim, spec_trim_start, str_eq,
};
use vstd::prelude::*;

verus! {

/// Fallback TTL, in seconds, when the response carries no freshness
/// header at all.
pub const MISSING_HEADER_TTL_SECS: u64 = 300;

/// Conservative TTL, in seconds, when a freshness header is present but
/// holds neither a caching directive nor a usable max-age.
pub const UNRECOGNIZED_HEADER_TTL_SECS: u64 = 60;

/// Least TTL, in seconds, an envelope is given when caching at all.
pub const MIN_TTL_SECS: u64 = 30;

/// Greatest TTL, in seconds, an envelope is ever given.
pub const MAX_TTL_SECS: u64 = 21600;

/// Index of the first comma in a string, or its length if it holds none.
pub open spec fn spec_first_comma(s: Seq<char>) -> int
    decreases s.len(),
{
    if s.len() == 0 {
        0
    } else if s[0] == ',' {
        0
    } else {
        1 + spec_first_comma(s.skip(1))
    }
}

pub proof fn lemma_first_comma_props(s: Seq<char>)
    ensures
        0 <= spec_first_comma(s) <= s.len(),
        forall|j: int| 0 <= j < spec_first_comma(s) ==> s[j] != ',',
        spec_first_comma(s) < s.len() ==> s[spec_first_comma(s)] == ',',
    decreases s.len(),
{
    if s.len() > 0 && s[0] != ',' {
        lemma_first_comma_props(s.skip(1));
        assert forall|j: int| 0 <= j < spec_first_comma(s) implies s[j] != ',' by {
            if j > 0 {
                assert(s.skip(1)[j - 1] == s[j]);
            }
        }
        if spec_first_comma(s) < s.len() {
            assert(s.skip(1)[spec_first_comma(s.skip(1))] == s[spec_first_comma(s)]);
        }
    }
}

pub proof fn lemma_first_comma_unique(s: Seq<char>, k: int)
    requires
        0 <= k <= s.len(),
        forall|j: int| 0 <= j < k ==> s[j] != ',',
        k < s.len() ==> s[k] == ',',
    ensures
        k == spec_first_comma(s),
    decreases s.len(),
{
    if s.len() == 0 || s[0] == ',' {
    } else {
        lemma_first_comma_unique(s.skip(1), k - 1);
    }
}

/// What a single trimmed header directive yields: zero for the
/// do-not-cache directives, the parsed number of seconds for a usable
/// max-age, nothing for anything else.
pub open spec fn spec_directive_ttl(d: Seq<char>) -> Option<u64> {
    let t = spec_trim(d);
    if t == "no-cache"@ || t == "no-store"@ {
        Some(0)
    } else if t.len() >= 8 && t.take(8) == "max-age="@ && spec_parse_u64(t.skip(8)) is Some {
        spec_parse_u64(t.skip(8))
    } else {
        None
    }
}

/// The TTL a comma-separated directive string yields: the first directive
/// that is do-not-cache or a usable max-age decides; if none does, the
/// conservative default stands.
pub open spec fn spec_header_string_ttl(s: Seq<char>) -> u64
    decreases s.len(),
    via spec_header_string_ttl_decreases
{
    let k = spec_first_comma(s);
    match spec_directive_ttl(s.take(k)) {
        Some(v) => v,
        None => if k >= s.len() {
            UNRECOGNIZED_HEADER_TTL_SECS
        } else {
            spec_header_string_ttl(s.skip(k + 1))
        },
    }
}

#[via_fn]
proof fn spec_header_string_ttl_decreases(s: Seq<char>) {
    lemma_first_comma_props(s);
}

/// The TTL an optional freshness header yields: the directive scan when
/// one is present, the missing-header fallback when none is.
pub open spec fn spec_header_ttl(h: Option<Seq<char>>) -> u64 {
    match h {
        Some(s) => spec_header_string_ttl(s),
        None => MISSING_HEADER_TTL_SECS,
    }
}

/// Parser for upstream freshness headers and the per-category TTL table.
pub struct EsiHeaderParser;

impl EsiHeaderParser {
    /// Trim a string as `str::trim` does, returning the trimmed view.
    fn trim_str<'a>(s: &'a str) -> (r: &'a str)
        ensures
            r@ == spec_trim(s@),
    {
        let len = s.unicode_len();
        let mut a: usize = 0;
        while a < len && is_space_char(s.get_char(a))
            invariant
                0 <= a <= len,
                len == s@.len(),
                forall|j: int| 0 <= j < a ==> spec_is_space(#[trigger] s@[j]),
            decreases len - a,
        {
            a += 1;
        }
        let mut b: usize = len;
        while b > a && is_space_char(s.get_char(b - 1))
            invariant
                a <= b <= len,
                len == s@.len(),
                forall|j: int| 0 <= j < a ==> spec_is_space(#[trigger] s@[j]),
                a < len ==> !spec_is_space(s@[a as int]),
                forall|j: int| b <= j < len ==> spec_is_space(#[trigger] s@[j]),
            decreases b,
        {
            b -= 1;
        }
        proof {
            lemma_trim_start_skip(s@, a as int);
            let tail = s@.skip(a as int);
            if b == a {
                // everything from a on is whitespace, so the trimmed
                // tail is empty
                lemma_trim_end_take(tail, 0);
            } else {
                lemma_trim_end_take(tail, b - a);
            }
            assert(tail.take(b - a) =~= s@.subrange(a as int, b as int));
        }
        s.substring_char(a, b)
    }

    /// What one directive of a freshness header yields, per
    /// `spec_directive_ttl`.
    fn directive_ttl(d: &str) -> (r: Option<u64>)
        ensures
            r == spec_directive_ttl(d@),
    {
        let t = Self::trim_str(d);
        if str_eq(t, "no-cache") || str_eq(t, "no-store") {
            return Some(0);
        }
        let tlen = t.unicode_len();
        if tlen >= 8 {
            let head = t.substring_char(0, 8);
            if str_eq(head, "max-age=") {
                let value = t.substring_char(8, tlen);
                proof {
                    assert(value@ =~= spec_trim(d@).skip(8));
                }
                return parse_u64_str(value);
            }
        }
        None
    }

    /// Parse a freshness directive string and return the TTL in seconds
    /// that it asks for.
    ///
    /// `no-cache` and `no-store` yield zero; the first usable
    /// `max-age=<seconds>` yields that many seconds; a header with
    /// neither yields a conservative default.
    pub fn parse_cache_control_string(cache_control: &str) -> (r: u64)
        ensures
            r == spec_header_string_ttl(cache_control@),
        decreases cache_control@.len(),
    {
        let s = cache_control;
        let len = s.unicode_len();
        let mut k: usize = 0;
        while k < len && s.get_char(k) != ','
            invariant
                0 <= k <= len,
                len == s@.len(),
                forall|j: int| 0 <= j < k ==> s@[j] != ',',
            decreases len - k,
        {
            k += 1;
        }
        proof {
            lemma_first_comma_unique(s@, k as int);
        }
        let d = s.substring_char(0, k);
        proof {
            assert(d@ =~= s@.take(k as int));
        }
        match Self::directive_ttl(d) {
            Some(v) => v,
            None => {
                if k == len {
                    UNRECOGNIZED_HEADER_TTL_SECS
                } else {
                    let rest = s.substring_char(k + 1, len);
                    proof {
                        assert(rest@ =~= s@.skip(k as int + 1));
                    }
                    Self::parse_cache_control_string(rest)
                }
            },
        }
    }

    /// TTL in seconds asked for by an optional freshness header: the
    /// directive scan when a header is present, the missing-header
    /// fallback when none is.
    pub fn parse_cache_control(cache_control: Option<&str>) -> (r: u64)
        ensures
            r == spec_header_ttl(match cache_control {
                Some(s) => Some(s@),
                None => None,
            }),
    {
        match cache_control {
            Some(s) => Self::parse_cache_control_string(s),
            None => MISSING_HEADER_TTL_SECS,
        }
    }

    /// Fallback TTL in seconds when no freshness header is present.
    pub fn default_ttl_for_missing_header() -> (r: u64)
        ensures
            r == MISSING_HEADER_TTL_SECS,
    {
        MISSING_HEADER_TTL_SECS
    }

    /// Recommended TTL per data category, from how often each kind of
    /// upstream data actually changes.
    pub open spec fn spec_recommended_ttl(data_type: Seq<char>) -> u64 {
        if data_type == "orders"@ {
            300
        } else if data_type == "history"@ {
            3600
        } else if data_type == "summary"@ {
            180
        } else if data_type == "analysis"@ {
            1800
        } else {
            300
        }
    }

    /// Recommended TTL in seconds for a data category.
    pub fn recommended_ttl_for_data_type(data_type: &str) -> (r: u64)
        ensures
            r == Self::spec_recommended_ttl(data_type@),
    {
        if str_eq(data_type, "orders") {
            300
        } else if str_eq(data_type, "history") {
            3600
        } else if str_eq(data_type, "summary") {
            180
        } else if str_eq(data_type, "analysis") {
            1800
        } else {
            300
        }
    }

    /// The clamp `apply_ttl_bounds` performs: below the floor, the floor;
    /// above the ceiling, the recommendation capped at the ceiling; in
    /// between, the candidate unchanged.
    pub open spec fn spec_apply_ttl_bounds(header_ttl: u64, recommended_ttl: u64) -> u64 {
        if header_ttl < MIN_TTL_SECS {
            MIN_TTL_SECS
        } else if header_ttl > MAX_TTL_SECS {
            if recommended_ttl < MAX_TTL_SECS {
                recommended_ttl
            } else {
                MAX_TTL_SECS
            }
        } else {
            header_ttl
        }
    }

    /// Clamp a header-supplied TTL into the accepted band, preferring the
    /// category recommendation over an untrustworthy large header value.
    pub fn apply_ttl_bounds(header_ttl: u64, recommended_ttl: u64) -> (r: u64)
        ensures
            r == Self::spec_apply_ttl_bounds(header_ttl, recommended_ttl),
    {
        if header_ttl < MIN_TTL_SECS {
            MIN_TTL_SECS
        } else if header_ttl > MAX_TTL_SECS {
            if recommended_ttl < MAX_TTL_SECS {
                recommended_ttl
            } else {
                MAX_TTL_SECS
            }
        } else {
            header_ttl
        }
    }

    /// The TTL an envelope built from a response gets: zero when the
    /// header forbids caching, the bounded header TTL otherwise.
    pub open spec fn spec_response_ttl(header: Option<Seq<char>>, data_type: Seq<char>) -> u64 {
        let header_ttl = spec_header_ttl(header);
        if header_ttl == 0 {
            0
        } else {
            Self::spec_apply_ttl_bounds(header_ttl, Self::spec_recommended_ttl(data_type))
        }
    }

    /// Wrap a response payload in an envelope whose TTL follows the
    /// response's freshness header and the category recommendation. A
    /// do-not-cache directive yields a TTL of zero, an envelope that is
    /// never valid.
    pub fn create_cache_item_from_response<T>(
        data: T,
        cache_control: Option<&str>,
        data_type: &str,
    ) -> (r: CacheItem<T>)
        ensures
            r.data == data,
            r.ttl == Self::spec_response_ttl(
                match cache_control {
                    Some(s) => Some(s@),
                    None => None,
                },
                data_type@,
            ),
    {
        let header_ttl = Self::parse_cache_control(cache_control);
        if header_ttl == 0 {
            return CacheItem::new(data, 0);
        }
        let recommended_ttl = Self::recommended_ttl_for_data_type(data_type);
        let final_ttl = Self::apply_ttl_bounds(header_ttl, recommended_ttl);
        CacheItem::new(data, final_ttl)
    }
}

/// The clamp never exceeds the ceiling, and never goes below the floor as
/// long as the category recommendation itself does not.
pub proof fn lemma_ttl_bounds_in_band(header_ttl: u64, recommended_ttl: u64)
    ensures
        EsiHeaderParser::spec_apply_ttl_bounds(header_ttl, recommended_ttl) <= MAX_TTL_SECS,
        recommended_ttl >= MIN_TTL_SECS ==> EsiHeaderParser::spec_apply_ttl_bounds(
            header_ttl,
            recommended_ttl,
        ) >= MIN_TTL_SECS,
{
}

} // verus!
