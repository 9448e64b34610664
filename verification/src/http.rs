//! Plain models of the HTTP values the caching logic reads: request
//! methods, protocol versions, and header lists. Header names are
//! compared case-insensitively, as HTTP requires.

use vstd::prelude::*;

verus! {

/// An HTTP request method.
#[derive(Clone, Debug, PartialEq, Eq)]
pub enum Method {
    Options,
    Get,
    Post,
    Put,
    Delete,
    Head,
    Trace,
    Connect,
    Patch,
    Extension(String),
}

impl Method {
    /// The method's name on the wire.
    pub open spec fn str_of(self) -> Seq<char> {
        match self {
            Method::Options => "OPTIONS"@,
            Method::Get => "GET"@,
            Method::Post => "POST"@,
            Method::Put => "PUT"@,
            Method::Delete => "DELETE"@,
            Method::Head => "HEAD"@,
            Method::Trace => "TRACE"@,
            Method::Connect => "CONNECT"@,
            Method::Patch => "PATCH"@,
            Method::Extension(s) => s@,
        }
    }

    pub fn to_str(&self) -> (r: &str)
        ensures
            r@ == self.str_of(),
    {
        match self {
            Method::Options => "OPTIONS",
            Method::Get => "GET",
            Method::Post => "POST",
            Method::Put => "PUT",
            Method::Delete => "DELETE",
            Method::Head => "HEAD",
            Method::Trace => "TRACE",
            Method::Connect => "CONNECT",
            Method::Patch => "PATCH",
            Method::Extension(s) => s.as_str(),
        }
    }

    /// Methods the proxy serves at all; everything else is rejected
    /// with a method-not-allowed response.
    pub open spec fn spec_is_allowed(self) -> bool {
        match self {
            Method::Options
            | Method::Head
            | Method::Get
            | Method::Post
            | Method::Patch
            | Method::Put
            | Method::Delete => true,
            _ => false,
        }
    }

    pub fn is_allowed(&self) -> (r: bool)
        ensures
            r == self.spec_is_allowed(),
    {
        match self {
            Method::Options
            | Method::Head
            | Method::Get
            | Method::Post
            | Method::Patch
            | Method::Put
            | Method::Delete => true,
            _ => false,
        }
    }

    /// The fixed set of methods whose responses may be served from
    /// cache: safe, non-mutating verbs only.
    pub open spec fn spec_is_cacheable(self) -> bool {
        match self {
            Method::Get | Method::Head | Method::Options => true,
            _ => false,
        }
    }

    pub fn is_cacheable(&self) -> (r: bool)
        ensures
            r == self.spec_is_cacheable(),
    {
        match self {
            Method::Get | Method::Head | Method::Options => true,
            _ => false,
        }
    }

    /// Methods that conventionally carry a request body, which the
    /// tunnel forwards to the backend.
    pub open spec fn spec_carries_body(self) -> bool {
        match self {
            Method::Post | Method::Patch | Method::Put | Method::Delete => true,
            _ => false,
        }
    }

    pub fn carries_body(&self) -> (r: bool)
        ensures
            r == self.spec_carries_body(),
    {
        match self {
            Method::Post | Method::Patch | Method::Put | Method::Delete => true,
            _ => false,
        }
    }

    /// Methods whose responses are sent with a body; responses to the
    /// others (HEAD, OPTIONS, ...) are sent with an empty one.
    pub open spec fn spec_response_has_body(self) -> bool {
        match self {
            Method::Get | Method::Post | Method::Patch | Method::Put | Method::Delete => true,
            _ => false,
        }
    }

    pub fn response_has_body(&self) -> (r: bool)
        ensures
            r == self.spec_response_has_body(),
    {
        match self {
            Method::Get | Method::Post | Method::Patch | Method::Put | Method::Delete => true,
            _ => false,
        }
    }
}

/// An HTTP protocol version.
#[derive(Clone, Copy, Debug, PartialEq, Eq, Structural)]
pub enum HttpVersion {
    Http09,
    Http10,
    Http11,
    H2,
    H2c,
}

impl HttpVersion {
    /// The version's conventional rendering.
    pub open spec fn str_of(self) -> Seq<char> {
        match self {
            HttpVersion::Http09 => "HTTP/0.9"@,
            HttpVersion::Http10 => "HTTP/1.0"@,
            HttpVersion::Http11 => "HTTP/1.1"@,
            HttpVersion::H2 => "h2"@,
            HttpVersion::H2c => "h2c"@,
        }
    }

    pub fn to_str(&self) -> (r: &str)
        ensures
            r@ == self.str_of(),
    {
        match self {
            HttpVersion::Http09 => "HTTP/0.9",
            HttpVersion::Http10 => "HTTP/1.0",
            HttpVersion::Http11 => "HTTP/1.1",
            HttpVersion::H2 => "h2",
            HttpVersion::H2c => "h2c",
        }
    }
}

/// One response or request header: a name and a value.
#[derive(Clone, Debug)]
pub struct HeaderEntry {
    pub name: String,
    pub value: String,
}

/// The view of a header list: a sequence of (name, value) pairs.
pub open spec fn headers_view(hs: Seq<HeaderEntry>) -> Seq<(Seq<char>, Seq<char>)> {
    hs.map_values(|h: HeaderEntry| (h.name@, h.value@))
}

/// A response broken into the parts the cache works with: status code,
/// headers, and body.
#[derive(Clone, Debug)]
pub struct ResponseParts {
    pub status: u16,
    pub headers: Vec<HeaderEntry>,
    pub body: String,
}

/// A request broken into the parts the proxy reads.
#[derive(Debug)]
pub struct RequestParts {
    pub method: Method,
    pub version: HttpVersion,
    pub path: String,
    pub query: Option<String>,
    pub headers: Vec<HeaderEntry>,
}

/// Lower-cases one ASCII character; leaves everything else unchanged.
pub open spec fn lower_char(c: char) -> char {
    if 65 <= c as u32 && c as u32 <= 90 {
        (((c as u8) + 32) as u8) as char
    } else {
        c
    }
}

/// A header name lower-cased, the form in which names are compared.
pub open spec fn lower_of(s: Seq<char>) -> Seq<char> {
    s.map_values(|c: char| lower_char(c))
}

/// Case-insensitive equality of two header names.
pub fn name_eq(a: &str, b: &str) -> (r: bool)
    ensures
        r == (lower_of(a@) == lower_of(b@)),
{
    let an = a.unicode_len();
    let bn = b.unicode_len();
    if an != bn {
        proof {
            assert(lower_of(a@).len() == a@.len());
            assert(lower_of(b@).len() == b@.len());
        }
        return false;
    }
    let mut i: usize = 0;
    while i < an
        invariant
            an == a@.len(),
            an == b@.len(),
            i <= an,
            forall|j: int| 0 <= j < i ==> lower_char(a@[j]) == lower_char(b@[j]),
        decreases an - i,
    {
        let ca = lower_char_exec(a.get_char(i));
        let cb = lower_char_exec(b.get_char(i));
        if ca != cb {
            proof {
                assert(lower_of(a@)[i as int] != lower_of(b@)[i as int]);
            }
            return false;
        }
        i += 1;
    }
    proof {
        assert(lower_of(a@) =~= lower_of(b@));
    }
    true
}

fn lower_char_exec(c: char) -> (r: char)
    ensures
        r == lower_char(c),
{
    let v: u32 = c as u32;
    if 65 <= v && v <= 90 {
        ((c as u8) + 32) as char
    } else {
        c
    }
}

/// The first value carried under a header name, compared
/// case-insensitively, if the name is present at all.
pub open spec fn spec_header_lookup(headers: Seq<HeaderEntry>, name: Seq<char>) -> Option<
    Seq<char>,
>
    decreases headers.len(),
{
    if headers.len() == 0 {
        None
    } else if lower_of(headers[0].name@) == lower_of(name) {
        Some(headers[0].value@)
    } else {
        spec_header_lookup(headers.drop_first(), name)
    }
}

/// Finds the first header with the given name, case-insensitively.
pub fn header_lookup<'a>(headers: &'a Vec<HeaderEntry>, name: &str) -> (r: Option<&'a String>)
    ensures
        match r {
            Some(v) => spec_header_lookup(headers@, name@) == Some(v@),
            None => spec_header_lookup(headers@, name@) is None,
        },
{
    let n = headers.len();
    let mut i: usize = 0;
    proof {
        assert(headers@.skip(0) =~= headers@);
    }
    while i < n
        invariant
            n == headers@.len(),
            i <= n,
            spec_header_lookup(headers@, name@) == spec_header_lookup(
                headers@.skip(i as int),
                name@,
            ),
        decreases n - i,
    {
        proof {
            assert(headers@.skip(i as int).drop_first() =~= headers@.skip(i + 1));
            assert(headers@.skip(i as int)[0] == headers@[i as int]);
        }
        if name_eq(headers[i].name.as_str(), name) {
            return Some(&headers[i].value);
        }
        i += 1;
    }
    proof {
        assert(headers@.skip(n as int) =~= Seq::<HeaderEntry>::empty());
    }
    None
}

} // verus!
