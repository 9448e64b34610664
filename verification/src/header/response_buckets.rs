//! The response header through which a backend lists the buckets a
//! cacheable response belongs to: a comma-separated list of names,
//! each trimmed, empty segments dropped.

use vstd::prelude::*;

use crate::text::{split_trimmed, split_trimmed_of};

verus! {

/// The bucket list of a response.
#[derive(Clone, Debug)]
pub struct HeaderResponseBloomResponseBuckets(pub Vec<String>);

impl HeaderResponseBloomResponseBuckets {
    /// The header's name.
    pub fn name() -> (r: &'static str)
        ensures
            r@ == "Bloom-Response-Buckets"@,
    {
        "Bloom-Response-Buckets"
    }

    /// Parses a header value into the bucket names it lists.
    pub fn decode(value: &str) -> (r: HeaderResponseBloomResponseBuckets)
        ensures
            r.0@.map_values(|b: String| b@) == split_trimmed_of(value@),
    {
        HeaderResponseBloomResponseBuckets(split_trimmed(value))
    }
}

} // verus!
