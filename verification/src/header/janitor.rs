//! Header hygiene: contextual headers (connection management, dates)
//! and this system's own internal headers are stripped from a response
//! before it is stored, so they are never replayed to a future client
//! from cache.

use vstd::prelude::*;

use crate::http::{lower_of, name_eq, HeaderEntry};

verus! {

pub struct HeaderJanitor;

/// Whether a header is contextual: it describes the connection that
/// carried the response, not the response itself.
pub open spec fn spec_is_contextual(n: Seq<char>) -> bool {
    ||| lower_of(n) == lower_of("Connection"@)
    ||| lower_of(n) == lower_of("Date"@)
    ||| lower_of(n) == lower_of("Upgrade"@)
}

/// Whether a header is one of this system's own response directives.
pub open spec fn spec_is_interal(n: Seq<char>) -> bool {
    ||| lower_of(n) == lower_of("Bloom-Response-Buckets"@)
    ||| lower_of(n) == lower_of("Bloom-Response-Ignore"@)
    ||| lower_of(n) == lower_of("Bloom-Response-TTL"@)
}

/// Whether a header survives cleaning.
pub open spec fn spec_keep(h: HeaderEntry) -> bool {
    !spec_is_contextual(h.name@) && !spec_is_interal(h.name@)
}

/// A header list with contextual and internal headers dropped, order
/// otherwise kept.
pub open spec fn cleaned_of(s: Seq<HeaderEntry>) -> Seq<HeaderEntry>
    decreases s.len(),
{
    if s.len() == 0 {
        Seq::empty()
    } else if spec_keep(s[0]) {
        seq![s[0]] + cleaned_of(s.drop_first())
    } else {
        cleaned_of(s.drop_first())
    }
}

impl HeaderJanitor {
    /// Whether a header name, compared case-insensitively, is
    /// contextual.
    pub fn is_contextual(header_name: &str) -> (r: bool)
        ensures
            r == spec_is_contextual(header_name@),
    {
        name_eq(header_name, "Connection") || name_eq(header_name, "Date") || name_eq(
            header_name,
            "Upgrade",
        )
    }

    /// Whether a header name, compared case-insensitively, is one of
    /// this system's own response directives.
    pub fn is_interal(header_name: &str) -> (r: bool)
        ensures
            r == spec_is_interal(header_name@),
    {
        name_eq(header_name, "Bloom-Response-Buckets") || name_eq(
            header_name,
            "Bloom-Response-Ignore",
        ) || name_eq(header_name, "Bloom-Response-TTL")
    }

    /// Drops every contextual and internal header from the list.
    pub fn clean(headers: &mut Vec<HeaderEntry>)
        ensures
            final(headers)@ == cleaned_of(old(headers)@),
    {
        let mut kept: Vec<HeaderEntry> = Vec::new();
        proof {
            assert(kept@ + Seq::<HeaderEntry>::empty() =~= kept@);
        }
        while headers.len() > 0
            invariant
                cleaned_of(old(headers)@) == kept@ + cleaned_of(headers@),
            decreases headers@.len(),
        {
            let ghost pre = headers@;
            let h = headers.remove(0);
            proof {
                assert(headers@ =~= pre.drop_first());
                assert(pre[0] == h);
            }
            let keep = !(Self::is_contextual(h.name.as_str()) || Self::is_interal(
                h.name.as_str(),
            ));
            if keep {
                let ghost kpre = kept@;
                kept.push(h);
                proof {
                    assert(kpre + (seq![h] + cleaned_of(headers@)) =~= kept@ + cleaned_of(
                        headers@,
                    ));
                }
            }
        }
        proof {
            assert(cleaned_of(headers@) =~= Seq::<HeaderEntry>::empty());
            assert(kept@ + Seq::<HeaderEntry>::empty() =~= kept@);
        }
        *headers = kept;
    }
}

} // verus!
