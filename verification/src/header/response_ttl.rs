//! The response header through which a backend sets the TTL of a
//! cacheable response. A TTL of zero disables caching for it.

use vstd::prelude::*;

use crate::text::{all_dec_digits, dec_of, dec_val, parse_u64, u64_to_dec};

verus! {

/// The TTL, in seconds, a backend asked for.
#[derive(Clone, Copy, Debug, PartialEq, Eq, Structural)]
pub struct HeaderResponseBloomResponseTTL(pub u64);

impl HeaderResponseBloomResponseTTL {
    /// The header's name.
    pub fn header_name() -> (r: &'static str)
        ensures
            r@ == "Bloom-Response-TTL"@,
    {
        "Bloom-Response-TTL"
    }

    /// Parses a header value: a decimal number of seconds; anything
    /// else is rejected, and the caller falls back to the configured
    /// default TTL.
    pub fn parse_header(raw: &str) -> (r: Option<HeaderResponseBloomResponseTTL>)
        ensures
            r is Some <==> raw@.len() > 0 && all_dec_digits(raw@) && dec_val(raw@) <= u64::MAX,
            r matches Some(h) ==> h.0 == dec_val(raw@),
    {
        match parse_u64(raw) {
            Some(v) => Some(HeaderResponseBloomResponseTTL(v)),
            None => None,
        }
    }

    /// Renders the header value.
    pub fn fmt_header(&self) -> (r: String)
        ensures
            r@ == dec_of(self.0 as nat),
    {
        u64_to_dec(self.0)
    }
}

} // verus!
