//! Cache keys: the logical identity of a request, and its stable,
//! delimiter-joined string form used as the physical storage key.
//!
//! The string form is injective over the field tuple as long as the
//! caller-supplied fields are unambiguous: the data type and the extra
//! parameters hold no colon, and extra parameters only appear together
//! with a type id. The factory constructors always build unambiguous keys.

use crate::text::{i32_to_string, lemma_dec_int_chars, lemma_dec_int_injective, spec_dec_int};
use vstd::prelude::*;

verus! {

/// Cache key for the different kinds of cached data.
#[derive(Debug, Clone, Hash)]
pub struct CacheKey {
    /// The kind of data being cached (orders, history, summary, analysis).
    pub data_type: String,
    /// Region the request is scoped to.
    pub region_id: i32,
    /// Optional item type the request is narrowed to.
    pub type_id: Option<i32>,
    /// Additional parameters for complex cache keys.
    pub params: Option<String>,
}

/// Whether a string holds no colon, the delimiter of the key's string
/// form.
pub open spec fn spec_colon_free(s: Seq<char>) -> bool {
    forall|i: int| 0 <= i < s.len() ==> s[i] != ':'
}

/// The delimiter-joined form of a list of segments: each segment enters
/// behind one colon.
pub open spec fn spec_join_segments(segs: Seq<Seq<char>>) -> Seq<char>
    decreases segs.len(),
{
    if segs.len() == 0 {
        Seq::<char>::empty()
    } else {
        seq![':'] + segs[0] + spec_join_segments(segs.drop_first())
    }
}

/// A join of at least one segment starts with the delimiter.
proof fn lemma_join_starts_with_colon(segs: Seq<Seq<char>>)
    requires
        segs.len() > 0,
    ensures
        spec_join_segments(segs).len() >= 1,
        spec_join_segments(segs)[0] == ':',
{
}

/// Joining is injective over colon-free segments: equal joins come from
/// equal segment lists.
proof fn lemma_join_injective(s1: Seq<Seq<char>>, s2: Seq<Seq<char>>)
    requires
        forall|i: int| 0 <= i < s1.len() ==> spec_colon_free(#[trigger] s1[i]),
        forall|i: int| 0 <= i < s2.len() ==> spec_colon_free(#[trigger] s2[i]),
        spec_join_segments(s1) == spec_join_segments(s2),
    ensures
        s1 == s2,
    decreases s1.len(),
{
    if s1.len() == 0 && s2.len() == 0 {
        assert(s1 =~= s2);
    } else if s1.len() == 0 {
        lemma_join_starts_with_colon(s2);
        assert(spec_join_segments(s1).len() == 0);
    } else if s2.len() == 0 {
        lemma_join_starts_with_colon(s1);
        assert(spec_join_segments(s2).len() == 0);
    } else {
        let a = s1[0];
        let b = s2[0];
        let j = spec_join_segments(s1);
        let r1 = spec_join_segments(s1.drop_first());
        let r2 = spec_join_segments(s2.drop_first());
        // The head segment is the run of characters up to the next
        // delimiter, so equal joins force equal head segments.
        assert(a =~= b) by {
            lemma_head_segment_determined(s1, s2);
        }
        assert(r1 =~= r2) by {
            assert(r1 =~= j.skip(1 + a.len() as int));
            assert(spec_join_segments(s2).skip(1 + b.len() as int) =~= r2);
        }
        lemma_join_injective(s1.drop_first(), s2.drop_first());
        assert forall|i: int| 0 <= i < s1.len() implies s1[i] == s2[i] by {
            if i > 0 {
                assert(s1.drop_first()[i - 1] == s1[i]);
                assert(s2.drop_first()[i - 1] == s2[i]);
            }
        }
        assert(s1 =~= s2);
    }
}

/// Appending a segment appends one delimiter and the segment to the join.
proof fn lemma_join_push(segs: Seq<Seq<char>>, s: Seq<char>)
    ensures
        spec_join_segments(segs.push(s)) =~= spec_join_segments(segs) + seq![':'] + s,
    decreases segs.len(),
{
    if segs.len() == 0 {
        assert(segs.push(s).drop_first() =~= Seq::<Seq<char>>::empty());
        assert(segs.push(s)[0] == s);
        assert(spec_join_segments(segs.push(s)) == seq![':'] + s + spec_join_segments(
            Seq::<Seq<char>>::empty(),
        ));
        assert(spec_join_segments(segs.push(s)) =~= spec_join_segments(segs) + seq![':'] + s);
    } else {
        assert(segs.push(s)[0] == segs[0]);
        assert(segs.push(s).drop_first() =~= segs.drop_first().push(s));
        lemma_join_push(segs.drop_first(), s);
        assert(spec_join_segments(segs.push(s)) == seq![':'] + segs[0] + spec_join_segments(
            segs.drop_first().push(s),
        ));
        assert(spec_join_segments(segs.drop_first().push(s)) =~= spec_join_segments(
            segs.drop_first(),
        ) + seq![':'] + s);
        assert(spec_join_segments(segs.push(s)) =~= (seq![':'] + segs[0] + spec_join_segments(
            segs.drop_first(),
        )) + seq![':'] + s);
        assert(spec_join_segments(segs) == seq![':'] + segs[0] + spec_join_segments(
            segs.drop_first(),
        ));
        assert(spec_join_segments(segs.push(s)) =~= spec_join_segments(segs) + seq![':'] + s);
    }
}

/// In a join of colon-free segments, the head segment ends exactly where
/// the next delimiter or the end of the string stands, so two equal joins
/// have equal head segments.
proof fn lemma_head_segment_determined(s1: Seq<Seq<char>>, s2: Seq<Seq<char>>)
    requires
        s1.len() > 0,
        s2.len() > 0,
        forall|i: int| 0 <= i < s1.len() ==> spec_colon_free(#[trigger] s1[i]),
        forall|i: int| 0 <= i < s2.len() ==> spec_colon_free(#[trigger] s2[i]),
        spec_join_segments(s1) == spec_join_segments(s2),
    ensures
        s1[0].len() == s2[0].len(),
        s1[0] =~= s2[0],
{
    let a = s1[0];
    let b = s2[0];
    let j = spec_join_segments(s1);
    let r1 = spec_join_segments(s1.drop_first());
    let r2 = spec_join_segments(s2.drop_first());
    if a.len() < b.len() {
        // Position 1 + a.len() of the join is past the head of s1: it is
        // either out of range or a delimiter, yet inside b it is a
        // colon-free character.
        assert(j[1 + a.len() as int] == b[a.len() as int]);
        if s1.len() == 1 {
            assert(j.len() == 1 + a.len());
            assert(j.len() >= 1 + b.len());
        } else {
            lemma_join_starts_with_colon(s1.drop_first());
            assert(j[1 + a.len() as int] == r1[0]);
        }
    } else if b.len() < a.len() {
        assert(j[1 + b.len() as int] == a[b.len() as int]);
        if s2.len() == 1 {
            assert(j.len() == 1 + b.len());
            assert(j.len() >= 1 + a.len());
        } else {
            lemma_join_starts_with_colon(s2.drop_first());
            assert(j[1 + b.len() as int] == r2[0]);
        }
    }
    assert forall|i: int| 0 <= i < a.len() implies a[i] == b[i] by {
        assert(j[1 + i] == a[i]);
        assert(j[1 + i] == b[i]);
    }
}

/// The segments of a key's string form, in order: data type, region,
/// then the optional type id and the optional extra parameters.
pub open spec fn spec_key_segments(k: CacheKey) -> Seq<Seq<char>> {
    let base = seq![k.data_type@, spec_dec_int(k.region_id as int)];
    let with_type = match k.type_id {
        Some(t) => base.push(spec_dec_int(t as int)),
        None => base,
    };
    match k.params {
        Some(p) => with_type.push(p@),
        None => with_type,
    }
}

/// The string form of a key: the fixed prefix, then each segment behind
/// one colon.
pub open spec fn spec_key_string(k: CacheKey) -> Seq<char> {
    "tradergrader"@ + spec_join_segments(spec_key_segments(k))
}

/// Whether a key's fields keep its string form unambiguous: no colon in
/// the data type or the extra parameters, and extra parameters only
/// beside a type id.
pub open spec fn spec_key_unambiguous(k: CacheKey) -> bool {
    &&& spec_colon_free(k.data_type@)
    &&& match k.params {
        Some(p) => spec_colon_free(p@) && k.type_id is Some,
        None => true,
    }
}

/// Whether two keys hold the same fields.
pub open spec fn spec_key_fields_eq(k1: CacheKey, k2: CacheKey) -> bool {
    &&& k1.data_type@ == k2.data_type@
    &&& k1.region_id == k2.region_id
    &&& k1.type_id == k2.type_id
    &&& match (k1.params, k2.params) {
        (Some(p1), Some(p2)) => p1@ == p2@,
        (None, None) => true,
        _ => false,
    }
}

/// The string form is injective over unambiguous keys: equal strings come
/// from equal field tuples. Together with `to_string` being a pure
/// function of the fields, distinct unambiguous tuples produce distinct
/// strings.
pub proof fn lemma_key_string_injective(k1: CacheKey, k2: CacheKey)
    requires
        spec_key_unambiguous(k1),
        spec_key_unambiguous(k2),
        spec_key_string(k1) == spec_key_string(k2),
    ensures
        spec_key_fields_eq(k1, k2),
{
    let segs1 = spec_key_segments(k1);
    let segs2 = spec_key_segments(k2);
    assert(spec_join_segments(segs1) =~= spec_key_string(k1).skip("tradergrader"@.len() as int));
    assert(spec_join_segments(segs2) =~= spec_key_string(k2).skip("tradergrader"@.len() as int));
    assert forall|i: int| 0 <= i < segs1.len() implies spec_colon_free(#[trigger] segs1[i]) by {
        lemma_key_segments_colon_free(k1, i);
    }
    assert forall|i: int| 0 <= i < segs2.len() implies spec_colon_free(#[trigger] segs2[i]) by {
        lemma_key_segments_colon_free(k2, i);
    }
    lemma_join_injective(segs1, segs2);
    // Same segment count means the same shape: two segments for a bare
    // key, three with a type id, four with type id and parameters (a key
    // with parameters but no type id is ambiguous and excluded).
    assert(segs1[0] == segs2[0]);
    assert(segs1[1] == segs2[1]);
    lemma_dec_int_injective(k1.region_id as int, k2.region_id as int);
    let len1 = if k1.type_id is Some {
        if k1.params is Some {
            4int
        } else {
            3int
        }
    } else {
        2int
    };
    let len2 = if k2.type_id is Some {
        if k2.params is Some {
            4int
        } else {
            3int
        }
    } else {
        2int
    };
    assert(segs1.len() == len1);
    assert(segs2.len() == len2);
    match (k1.type_id, k2.type_id) {
        (Some(t1), Some(t2)) => {
            assert(segs1[2] == segs2[2]);
            lemma_dec_int_injective(t1 as int, t2 as int);
        },
        (None, None) => {
        },
        _ => {
            assert(false);
        },
    }
    match (k1.params, k2.params) {
        (Some(p1), Some(p2)) => {
            assert(segs1[3] == segs2[3]);
        },
        (None, None) => {
        },
        _ => {
            assert(false);
        },
    }
}

/// Each segment of an unambiguous key is colon-free.
proof fn lemma_key_segments_colon_free(k: CacheKey, i: int)
    requires
        spec_key_unambiguous(k),
        0 <= i < spec_key_segments(k).len(),
    ensures
        spec_colon_free(spec_key_segments(k)[i]),
{
    lemma_dec_int_chars(k.region_id as int);
    match k.type_id {
        Some(t) => lemma_dec_int_chars(t as int),
        None => {
        },
    }
}

impl PartialEq for CacheKey {
    /// Two keys are equal exactly when all their fields are equal.
    fn eq(&self, other: &CacheKey) -> (r: bool) {
        let same_data_type = self.data_type == other.data_type;
        let same_region = self.region_id == other.region_id;
        let same_type = match (self.type_id, other.type_id) {
            (Some(a), Some(b)) => a == b,
            (None, None) => true,
            _ => false,
        };
        let same_params = match (&self.params, &other.params) {
            (Some(a), Some(b)) => *a == *b,
            (None, None) => true,
            _ => false,
        };
        same_data_type && same_region && same_type && same_params
    }
}

impl vstd::std_specs::cmp::PartialEqSpecImpl for CacheKey {
    open spec fn obeys_eq_spec() -> bool {
        true
    }

    open spec fn eq_spec(&self, other: &CacheKey) -> bool {
        spec_key_fields_eq(*self, *other)
    }
}

impl CacheKey {
    /// Key for current market orders in a region, optionally narrowed to
    /// one item type.
    pub fn market_orders(region_id: i32, type_id: Option<i32>) -> (r: CacheKey)
        ensures
            r.data_type@ == "orders"@,
            r.region_id == region_id,
            r.type_id == type_id,
            r.params is None,
            spec_key_unambiguous(r),
    {
        let r = CacheKey {
            data_type: String::from_str("orders"),
            region_id,
            type_id,
            params: None,
        };
        proof {
            reveal_strlit("orders");
        }
        r
    }

    /// Key for the market history of one item type in a region.
    pub fn market_history(region_id: i32, type_id: i32) -> (r: CacheKey)
        ensures
            r.data_type@ == "history"@,
            r.region_id == region_id,
            r.type_id == Some(type_id),
            r.params is None,
            spec_key_unambiguous(r),
    {
        let r = CacheKey {
            data_type: String::from_str("history"),
            region_id,
            type_id: Some(type_id),
            params: None,
        };
        proof {
            reveal_strlit("history");
        }
        r
    }

    /// Key for the derived market summary of one item type in a region.
    pub fn market_summary(region_id: i32, type_id: i32) -> (r: CacheKey)
        ensures
            r.data_type@ == "summary"@,
            r.region_id == region_id,
            r.type_id == Some(type_id),
            r.params is None,
            spec_key_unambiguous(r),
    {
        let r = CacheKey {
            data_type: String::from_str("summary"),
            region_id,
            type_id: Some(type_id),
            params: None,
        };
        proof {
            reveal_strlit("summary");
        }
        r
    }

    /// Key for the derived price analysis of one item type in a region.
    pub fn price_analysis(region_id: i32, type_id: i32) -> (r: CacheKey)
        ensures
            r.data_type@ == "analysis"@,
            r.region_id == region_id,
            r.type_id == Some(type_id),
            r.params is None,
            spec_key_unambiguous(r),
    {
        let r = CacheKey {
            data_type: String::from_str("analysis"),
            region_id,
            type_id: Some(type_id),
            params: None,
        };
        proof {
            reveal_strlit("analysis");
        }
        r
    }

    /// The stable string form of the key: the fixed prefix, then the
    /// fields in order, each behind one colon, absent fields omitted.
    pub fn to_string(&self) -> (r: String)
        ensures
            r@ == spec_key_string(*self),
    {
        let ghost dt = self.data_type@;
        let ghost rg = spec_dec_int(self.region_id as int);
        let ghost base = seq![dt, rg];
        let mut out = String::from_str("tradergrader");
        out.append(":");
        out.append(self.data_type.as_str());
        out.append(":");
        let region = i32_to_string(self.region_id);
        out.append(region.as_str());
        proof {
            reveal_strlit(":");
            let e = Seq::<Seq<char>>::empty();
            lemma_join_push(e, dt);
            lemma_join_push(e.push(dt), rg);
            assert(e.push(dt).push(rg) =~= base);
            assert(out@ =~= "tradergrader"@ + spec_join_segments(base));
        }
        match self.type_id {
            Some(t) => {
                out.append(":");
                let type_str = i32_to_string(t);
                out.append(type_str.as_str());
                proof {
                    lemma_join_push(base, spec_dec_int(t as int));
                    assert(out@ =~= "tradergrader"@ + spec_join_segments(
                        base.push(spec_dec_int(t as int)),
                    ));
                }
            },
            None => {
            },
        }
        let ghost with_type = match self.type_id {
            Some(t) => base.push(spec_dec_int(t as int)),
            None => base,
        };
        match &self.params {
            Some(p) => {
                out.append(":");
                out.append(p.as_str());
                proof {
                    lemma_join_push(with_type, p@);
                    assert(out@ =~= "tradergrader"@ + spec_join_segments(with_type.push(p@)));
                }
            },
            None => {
            },
        }
        proof {
            assert(out@ =~= spec_key_string(*self));
        }
        out
    }
}

} // verus!
