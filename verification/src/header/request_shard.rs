//! The request header carrying the numeric shard selector.

use vstd::prelude::*;

use crate::text::{all_dec_digits, dec_of, dec_val, parse_u8, u64_to_dec};

verus! {

/// The shard selector of a request.
#[derive(Clone, Copy, Debug, PartialEq, Eq, Structural)]
pub struct HeaderRequestBloomRequestShard(pub u8);

impl HeaderRequestBloomRequestShard {
    /// The header's name.
    pub fn header_name() -> (r: &'static str)
        ensures
            r@ == "Bloom-Request-Shard"@,
    {
        "Bloom-Request-Shard"
    }

    /// Parses a header value: a decimal shard number that fits in
    /// eight bits; anything else is rejected, and the caller falls
    /// back to the configured default shard.
    pub fn parse_header(raw: &str) -> (r: Option<HeaderRequestBloomRequestShard>)
        ensures
            r is Some <==> raw@.len() > 0 && all_dec_digits(raw@) && dec_val(raw@) <= u8::MAX,
            r matches Some(h) ==> h.0 == dec_val(raw@),
    {
        match parse_u8(raw) {
            Some(v) => Some(HeaderRequestBloomRequestShard(v)),
            None => None,
        }
    }

    /// Renders the header value.
    pub fn fmt_header(&self) -> (r: String)
        ensures
            r@ == dec_of(self.0 as nat),
    {
        u64_to_dec(self.0 as u64)
    }
}

} // verus!
