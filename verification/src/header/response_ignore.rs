//! The response header through which a backend opts a response out of
//! caching altogether.

use vstd::prelude::*;

use crate::text::str_eq;

verus! {

/// The opt-out marker; it carries no data of its own.
#[derive(Clone, Copy, Debug, PartialEq, Eq, Structural)]
pub struct HeaderResponseBloomResponseIgnore();

impl HeaderResponseBloomResponseIgnore {
    /// The header's name.
    pub fn name() -> (r: &'static str)
        ensures
            r@ == "Bloom-Response-Ignore"@,
    {
        "Bloom-Response-Ignore"
    }

    /// Parses a header value: only the exact value `1` sets the flag.
    pub fn decode(value: &str) -> (r: Option<HeaderResponseBloomResponseIgnore>)
        ensures
            r is Some <==> value@ == "1"@,
    {
        if str_eq(value, "1") {
            Some(HeaderResponseBloomResponseIgnore())
        } else {
            None
        }
    }

    /// Renders the header value.
    pub fn encode(&self) -> (r: String)
        ensures
            r@ == "1"@,
    {
        String::from_str("1")
    }
}

} // verus!
