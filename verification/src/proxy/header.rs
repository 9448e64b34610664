//! Request-side header handling: the auth value and shard selector a
//! request carries, the entity tags of a conditional request, and the
//! ETag headers stamped onto responses.

use vstd::prelude::*;

use crate::header::request_shard::HeaderRequestBloomRequestShard;
use crate::http::{header_lookup, lower_of, name_eq, spec_header_lookup, HeaderEntry};
use crate::text::{
    all_dec_digits, dec_val, split_trimmed, split_trimmed_of, trim_of, trim_substring, str_eq,
};

verus! {

pub struct ProxyHeader;

/// What a request's absent auth header counts as.
pub const REQUEST_AUTHORIZATION_DEFAULT: &'static str = "";

/// The auth value of a request: its Authorization header, or the
/// default when absent.
pub open spec fn spec_auth_of(hs: Seq<HeaderEntry>) -> Seq<char> {
    match spec_header_lookup(hs, "Authorization"@) {
        Some(v) => v,
        None => ""@,
    }
}

/// The shard a request selects: its shard header when that parses as
/// a small number, the configured default otherwise.
pub open spec fn spec_shard_of(hs: Seq<HeaderEntry>, shard_default: u8) -> u8 {
    match spec_header_lookup(hs, "Bloom-Request-Shard"@) {
        Some(v) => {
            if v.len() > 0 && all_dec_digits(v) && dec_val(v) <= u8::MAX {
                dec_val(v) as u8
            } else {
                shard_default
            }
        },
        None => shard_default,
    }
}

/// A header list with every header of one name dropped, compared
/// case-insensitively.
pub open spec fn spec_without_name(s: Seq<HeaderEntry>, name: Seq<char>) -> Seq<HeaderEntry>
    decreases s.len(),
{
    if s.len() == 0 {
        Seq::empty()
    } else if lower_of(s[0].name@) == lower_of(name) {
        spec_without_name(s.drop_first(), name)
    } else {
        seq![s[0]] + spec_without_name(s.drop_first(), name)
    }
}

/// What a header list looks like once a response's entity tag is set:
/// any previous Vary and ETag headers give way to a Vary on ETag and
/// the new entity tag.
pub open spec fn spec_with_etag(s: Seq<HeaderEntry>, etag: Seq<char>) -> Seq<(Seq<char>, Seq<char>)> {
    crate::http::headers_view(spec_without_name(spec_without_name(s, "Vary"@), "ETag"@)) + seq![
        ("Vary"@, "ETag"@),
        ("ETag"@, etag),
    ]
}

/// `spec_without_name`, stated on (name, value) pairs.
pub open spec fn pairs_without_name(s: Seq<(Seq<char>, Seq<char>)>, name: Seq<char>) -> Seq<
    (Seq<char>, Seq<char>),
>
    decreases s.len(),
{
    if s.len() == 0 {
        Seq::empty()
    } else if lower_of(s[0].0) == lower_of(name) {
        pairs_without_name(s.drop_first(), name)
    } else {
        seq![s[0]] + pairs_without_name(s.drop_first(), name)
    }
}

/// `spec_with_etag`, stated on (name, value) pairs.
pub open spec fn spec_with_etag_pairs(
    s: Seq<(Seq<char>, Seq<char>)>,
    etag: Seq<char>,
) -> Seq<(Seq<char>, Seq<char>)> {
    pairs_without_name(pairs_without_name(s, "Vary"@), "ETag"@) + seq![
        ("Vary"@, "ETag"@),
        ("ETag"@, etag),
    ]
}

/// Dropping a header name commutes with taking the view of the list.
pub proof fn lemma_without_name_view(s: Seq<HeaderEntry>, name: Seq<char>)
    ensures
        crate::http::headers_view(spec_without_name(s, name)) == pairs_without_name(
            crate::http::headers_view(s),
            name,
        ),
    decreases s.len(),
{
    let hv = crate::http::headers_view(s);
    if s.len() == 0 {
        assert(crate::http::headers_view(Seq::<HeaderEntry>::empty())
            =~= Seq::<(Seq<char>, Seq<char>)>::empty());
        assert(hv =~= Seq::<(Seq<char>, Seq<char>)>::empty());
    } else {
        lemma_without_name_view(s.drop_first(), name);
        assert(hv[0] == (s[0].name@, s[0].value@));
        assert(hv.drop_first() =~= crate::http::headers_view(s.drop_first()));
        if lower_of(s[0].name@) == lower_of(name) {
            assert(crate::http::headers_view(spec_without_name(s, name)) =~= pairs_without_name(
                hv,
                name,
            ));
        } else {
            assert(crate::http::headers_view(seq![s[0]] + spec_without_name(s.drop_first(), name))
                =~= seq![hv[0]] + crate::http::headers_view(
                spec_without_name(s.drop_first(), name),
            ));
            assert(crate::http::headers_view(spec_without_name(s, name)) =~= pairs_without_name(
                hv,
                name,
            ));
        }
    }
}

/// Dropping a name from a pair list that never carries it changes
/// nothing.
pub proof fn lemma_pairs_without_name_absent(s: Seq<(Seq<char>, Seq<char>)>, name: Seq<char>)
    requires
        forall|i: int| 0 <= i < s.len() ==> lower_of(#[trigger] s[i].0) != lower_of(name),
    ensures
        pairs_without_name(s, name) == s,
    decreases s.len(),
{
    if s.len() > 0 {
        assert(forall|i: int| 0 <= i < s.len() - 1 ==> s.drop_first()[i] == s[i + 1]);
        lemma_pairs_without_name_absent(s.drop_first(), name);
        assert(seq![s[0]] + s.drop_first() =~= s);
    }
}

impl ProxyHeader {
    /// Reads the auth value and the shard selector off a request's
    /// headers, handing the headers back untouched.
    pub fn parse_from_request(headers: Vec<HeaderEntry>, shard_default: u8) -> (r: (
        Vec<HeaderEntry>,
        String,
        u8,
    ))
        ensures
            r.0@ == headers@,
            r.1@ == spec_auth_of(headers@),
            r.2 == spec_shard_of(headers@, shard_default),
    {
        let auth = match header_lookup(&headers, "Authorization") {
            Some(v) => v.clone(),
            None => String::from_str(REQUEST_AUTHORIZATION_DEFAULT),
        };
        let shard = match header_lookup(&headers, "Bloom-Request-Shard") {
            Some(v) => match HeaderRequestBloomRequestShard::parse_header(v.as_str()) {
                Some(h) => h.0,
                None => shard_default,
            },
            None => shard_default,
        };
        (headers, auth, shard)
    }

    fn remove_name(headers: &mut Vec<HeaderEntry>, name: &str)
        ensures
            final(headers)@ == spec_without_name(old(headers)@, name@),
    {
        let mut kept: Vec<HeaderEntry> = Vec::new();
        proof {
            assert(kept@ + Seq::<HeaderEntry>::empty() =~= kept@);
        }
        while headers.len() > 0
            invariant
                spec_without_name(old(headers)@, name@) == kept@ + spec_without_name(
                    headers@,
                    name@,
                ),
            decreases headers@.len(),
        {
            let ghost pre = headers@;
            let h = headers.remove(0);
            proof {
                assert(headers@ =~= pre.drop_first());
                assert(pre[0] == h);
            }
            if !name_eq(h.name.as_str(), name) {
                let ghost kpre = kept@;
                kept.push(h);
                proof {
                    assert(kpre + (seq![h] + spec_without_name(headers@, name@)) =~= kept@
                        + spec_without_name(headers@, name@));
                }
            }
        }
        proof {
            assert(spec_without_name(headers@, name@) =~= Seq::<HeaderEntry>::empty());
            assert(kept@ + Seq::<HeaderEntry>::empty() =~= kept@);
        }
        *headers = kept;
    }

    /// Stamps a response with its entity tag: replaces any Vary and
    /// ETag headers with a Vary on ETag and the given tag.
    pub fn set_etag(headers: &mut Vec<HeaderEntry>, etag: String)
        ensures
            crate::http::headers_view(final(headers)@) == spec_with_etag(old(headers)@, etag@),
    {
        Self::remove_name(headers, "Vary");
        Self::remove_name(headers, "ETag");
        let ghost mid = headers@;
        headers.push(HeaderEntry { name: String::from_str("Vary"), value: String::from_str("ETag") });
        headers.push(HeaderEntry { name: String::from_str("ETag"), value: etag });
        proof {
            assert(crate::http::headers_view(headers@) =~= crate::http::headers_view(mid) + seq![
                ("Vary"@, "ETag"@),
                ("ETag"@, etag@),
            ]);
        }
    }

    /// Stamps a response with its outcome marker: replaces any
    /// previous Bloom-Status header, compared case-insensitively, so
    /// that a terminal response carries exactly one marker — also
    /// when the backend or a cached blob carried one of its own.
    pub fn set_bloom_status(headers: &mut Vec<HeaderEntry>, value: String)
        ensures
            crate::http::headers_view(final(headers)@) == pairs_without_name(
                crate::http::headers_view(old(headers)@),
                "Bloom-Status"@,
            ) + seq![("Bloom-Status"@, value@)],
    {
        Self::remove_name(headers, "Bloom-Status");
        let ghost mid = headers@;
        headers.push(HeaderEntry { name: String::from_str("Bloom-Status"), value });
        proof {
            lemma_without_name_view(old(headers)@, "Bloom-Status"@);
            assert(crate::http::headers_view(headers@) =~= crate::http::headers_view(mid) + seq![
                ("Bloom-Status"@, value@),
            ]);
        }
    }
}

/// One entity tag of a conditional request: its opaque value, and
/// whether it was marked weak.
#[derive(Clone, Debug)]
pub struct EntityTag {
    pub weak: bool,
    pub tag: String,
}

/// A parsed If-None-Match header: the wildcard, or the listed tags.
#[derive(Clone, Debug)]
pub enum IfNoneMatchValue {
    Any,
    Items(Vec<EntityTag>),
}

/// One comma-segment parsed as an entity tag: `"value"`, or
/// `W/"value"` for a weak one.
pub open spec fn spec_parse_etag_seg(t: Seq<char>) -> Option<(bool, Seq<char>)> {
    if t.len() >= 2 && t[0] == '"' && t.last() == '"' {
        Some((false, t.subrange(1, t.len() - 1)))
    } else if t.len() >= 4 && t[0] == 'W' && t[1] == '/' && t[2] == '"' && t.last() == '"' {
        Some((true, t.subrange(3, t.len() - 1)))
    } else {
        None
    }
}

/// Whether every comma-segment of a header value parses as an entity
/// tag.
pub open spec fn spec_all_etags(segs: Seq<Seq<char>>) -> bool {
    forall|i: int| 0 <= i < segs.len() ==> spec_parse_etag_seg(#[trigger] segs[i]) is Some
}

/// The entity tag a segment parses to; meaningful only when it parses.
pub open spec fn spec_etag_seg(t: Seq<char>) -> (bool, Seq<char>) {
    match spec_parse_etag_seg(t) {
        Some(p) => p,
        None => (false, Seq::empty()),
    }
}

/// Whether a conditional request matches a stored fingerprint, by
/// weak comparison: the wildcard matches anything; otherwise the
/// first listed entity tag must carry the fingerprint, its weakness
/// ignored.
pub open spec fn spec_inm_matches(inm: Option<IfNoneMatchValue>, fp: Seq<char>) -> bool {
    match inm {
        None => false,
        Some(IfNoneMatchValue::Any) => true,
        Some(IfNoneMatchValue::Items(v)) => v@.len() > 0 && v@[0].tag@ == fp,
    }
}

fn parse_etag_seg(t: &str) -> (r: Option<EntityTag>)
    ensures
        r is Some <==> spec_parse_etag_seg(t@) is Some,
        r matches Some(e) ==> spec_parse_etag_seg(t@) == Some((e.weak, e.tag@)),
{
    let n = t.unicode_len();
    if n >= 2 && t.get_char(0) == '"' && t.get_char(n - 1) == '"' {
        Some(EntityTag { weak: false, tag: String::from_str(t.substring_char(1, n - 1)) })
    } else if n >= 4 && t.get_char(0) == 'W' && t.get_char(1) == '/' && t.get_char(2) == '"'
        && t.get_char(n - 1) == '"' {
        Some(EntityTag { weak: true, tag: String::from_str(t.substring_char(3, n - 1)) })
    } else {
        None
    }
}

impl IfNoneMatchValue {
    /// Parses an If-None-Match header value: the wildcard, or a
    /// comma-separated list of entity tags. A value that is neither is
    /// rejected, and the caller treats the header as absent.
    pub fn parse(value: &str) -> (r: Option<IfNoneMatchValue>)
        ensures
            trim_of(value@) == "*"@ ==> r == Some(IfNoneMatchValue::Any),
            trim_of(value@) != "*"@ ==> {
                &&& (r is Some <==> spec_all_etags(split_trimmed_of(value@)))
                &&& match r {
                    Some(IfNoneMatchValue::Items(v)) => v@.map_values(
                        |e: EntityTag| (e.weak, e.tag@),
                    ) == split_trimmed_of(value@).map_values(|t: Seq<char>| spec_etag_seg(t)),
                    Some(IfNoneMatchValue::Any) => false,
                    None => true,
                }
            },
    {
        let n = value.unicode_len();
        let whole = trim_substring(value, 0, n);
        proof {
            assert(value@.subrange(0, n as int) =~= value@);
        }
        if str_eq(whole.as_str(), "*") {
            return Some(IfNoneMatchValue::Any);
        }
        proof {
            assert(whole@ == trim_of(value@));
            assert(trim_of(value@) != "*"@);
        }
        let segs = split_trimmed(value);
        let ghost seg_views = segs@.map_values(|b: String| b@);
        let mut items: Vec<EntityTag> = Vec::new();
        let sn = segs.len();
        let mut i: usize = 0;
        while i < sn
            invariant
                trim_of(value@) != "*"@,
                sn == segs@.len(),
                i <= sn,
                seg_views == segs@.map_values(|b: String| b@),
                seg_views == split_trimmed_of(value@),
                items@.len() == i,
                forall|j: int| 0 <= j < i ==> spec_parse_etag_seg(#[trigger] seg_views[j]) is Some,
                items@.map_values(|e: EntityTag| (e.weak, e.tag@)) == seg_views.take(
                    i as int,
                ).map_values(|t: Seq<char>| spec_etag_seg(t)),
            decreases sn - i,
        {
            match parse_etag_seg(segs[i].as_str()) {
                Some(e) => {
                    let ghost pre = items@.map_values(|e: EntityTag| (e.weak, e.tag@));
                    proof {
                        assert(segs@[i as int]@ == seg_views[i as int]);
                    }
                    items.push(e);
                    proof {
                        assert(items@.map_values(|e: EntityTag| (e.weak, e.tag@)) =~= pre.push(
                            (e.weak, e.tag@),
                        ));
                        assert(seg_views.take(i + 1) =~= seg_views.take(i as int).push(
                            seg_views[i as int],
                        ));
                        assert(seg_views.take(i + 1).map_values(|t: Seq<char>| spec_etag_seg(t))
                            =~= seg_views.take(i as int).map_values(
                            |t: Seq<char>| spec_etag_seg(t),
                        ).push(spec_etag_seg(seg_views[i as int])));
                    }
                },
                None => {
                    proof {
                        assert(segs@[i as int]@ == seg_views[i as int]);
                        assert(!spec_all_etags(seg_views));
                    }
                    return None;
                },
            }
            i += 1;
        }
        proof {
            assert(seg_views.take(sn as int) =~= seg_views);
        }
        Some(IfNoneMatchValue::Items(items))
    }
}

} // verus!
