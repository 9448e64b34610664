//! The outcome header: tells a client which branch of the serve state
//! machine produced its response.

use vstd::prelude::*;

use crate::text::str_eq;

verus! {

/// The serve outcome carried by the status header.
#[derive(Clone, Copy, Debug, PartialEq, Eq, Structural)]
pub enum HeaderBloomStatusValue {
    Hit,
    Miss,
    Direct,
    Reject,
    Offline,
}

/// The status header: its value is one of the five outcomes.
#[derive(Clone, Copy, Debug, PartialEq, Eq, Structural)]
pub struct HeaderBloomStatus(pub HeaderBloomStatusValue);

impl HeaderBloomStatusValue {
    /// The outcome's name on the wire.
    pub open spec fn str_of(self) -> Seq<char> {
        match self {
            HeaderBloomStatusValue::Hit => "HIT"@,
            HeaderBloomStatusValue::Miss => "MISS"@,
            HeaderBloomStatusValue::Direct => "DIRECT"@,
            HeaderBloomStatusValue::Reject => "REJECT"@,
            HeaderBloomStatusValue::Offline => "OFFLINE"@,
        }
    }

    pub fn to_str(&self) -> (r: &'static str)
        ensures
            r@ == self.str_of(),
    {
        match self {
            HeaderBloomStatusValue::Hit => "HIT",
            HeaderBloomStatusValue::Miss => "MISS",
            HeaderBloomStatusValue::Direct => "DIRECT",
            HeaderBloomStatusValue::Reject => "REJECT",
            HeaderBloomStatusValue::Offline => "OFFLINE",
        }
    }
}

impl HeaderBloomStatus {
    /// The header's name.
    pub fn name() -> (r: &'static str)
        ensures
            r@ == "Bloom-Status"@,
    {
        "Bloom-Status"
    }

    /// Parses a header value: exactly the five outcome names decode.
    pub fn decode(value: &str) -> (r: Option<HeaderBloomStatus>)
        ensures
            r is Some <==> (value@ == "HIT"@ || value@ == "MISS"@ || value@ == "DIRECT"@ || value@
                == "REJECT"@ || value@ == "OFFLINE"@),
            r matches Some(h) ==> h.0.str_of() == value@,
    {
        if str_eq(value, "HIT") {
            Some(HeaderBloomStatus(HeaderBloomStatusValue::Hit))
        } else if str_eq(value, "MISS") {
            Some(HeaderBloomStatus(HeaderBloomStatusValue::Miss))
        } else if str_eq(value, "DIRECT") {
            Some(HeaderBloomStatus(HeaderBloomStatusValue::Direct))
        } else if str_eq(value, "REJECT") {
            Some(HeaderBloomStatus(HeaderBloomStatusValue::Reject))
        } else if str_eq(value, "OFFLINE") {
            Some(HeaderBloomStatus(HeaderBloomStatusValue::Offline))
        } else {
            None
        }
    }

    /// Renders the header value.
    pub fn encode(&self) -> (r: String)
        ensures
            r@ == self.0.str_of(),
    {
        String::from_str(self.0.to_str())
    }
}

} // verus!
