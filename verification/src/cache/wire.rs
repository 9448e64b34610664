//! The wire representation of a cached response: one blob holding the
//! status line, the headers and the body, written by the cache write
//! path and re-parsed by the serve path. Serialization and parsing are
//! a strict pair: parsing a serialized response gives back exactly the
//! parts that were written.

use vstd::prelude::*;

use crate::http::{headers_view, HeaderEntry, ResponseParts};
use crate::text::{
    all_dec_digits, dec_of, dec_val, lemma_dec_of_digits, parse_u16, str_eq, u64_to_dec,
};

verus! {

/// A header name that can be framed: non-empty, no colon, no line
/// break.
pub open spec fn wf_name(n: Seq<char>) -> bool {
    n.len() > 0 && forall|i: int| 0 <= i < n.len() ==> n[i] != ':' && n[i] != '\r' && n[i] != '\n'
}

/// A header value that can be framed: no line break.
pub open spec fn wf_value(v: Seq<char>) -> bool {
    forall|i: int| 0 <= i < v.len() ==> v[i] != '\r' && v[i] != '\n'
}

/// Headers that can be framed losslessly.
pub open spec fn wf_wire_headers(hs: Seq<(Seq<char>, Seq<char>)>) -> bool {
    forall|i: int| 0 <= i < hs.len() ==> wf_name(#[trigger] hs[i].0) && wf_value(hs[i].1)
}

/// The status line of the blob.
pub open spec fn status_line_of(status: u16) -> Seq<char> {
    "HTTP/1.1 "@ + dec_of(status as nat) + "\r\n"@
}

/// The header block of the blob, one `name: value` line per header.
pub open spec fn header_lines_of(hs: Seq<(Seq<char>, Seq<char>)>) -> Seq<char>
    decreases hs.len(),
{
    if hs.len() == 0 {
        Seq::empty()
    } else {
        hs[0].0 + ": "@ + hs[0].1 + "\r\n"@ + header_lines_of(hs.drop_first())
    }
}

/// The whole blob: status line, header lines, a blank line, the body.
pub open spec fn serialize_of(
    status: u16,
    hs: Seq<(Seq<char>, Seq<char>)>,
    body: Seq<char>,
) -> Seq<char> {
    status_line_of(status) + header_lines_of(hs) + "\r\n"@ + body
}

/// The first position at or after `from` where a CRLF begins.
pub open spec fn find_crlf_from(s: Seq<char>, from: int) -> Option<int>
    decreases s.len() - from,
{
    if from < 0 || from + 2 > s.len() {
        None
    } else if s[from] == '\r' && s[from + 1] == '\n' {
        Some(from)
    } else {
        find_crlf_from(s, from + 1)
    }
}

/// The first position in `[from, upto)` holding character `c`.
pub open spec fn find_char_from(s: Seq<char>, from: int, upto: int, c: char) -> Option<int>
    decreases upto - from,
{
    if from < 0 || from >= upto || upto > s.len() {
        None
    } else if s[from] == c {
        Some(from)
    } else {
        find_char_from(s, from + 1, upto, c)
    }
}

/// Parses the header block from `pos` on: header lines up to the first
/// blank line, then the rest of the blob as the body.
pub open spec fn parse_headers_from(s: Seq<char>, pos: int) -> Option<
    (Seq<(Seq<char>, Seq<char>)>, Seq<char>),
>
    decreases s.len() - pos,
{
    if pos < 0 || pos > s.len() {
        None
    } else if pos + 2 <= s.len() && s[pos] == '\r' && s[pos + 1] == '\n' {
        Some((Seq::empty(), s.subrange(pos + 2, s.len() as int)))
    } else {
        match find_crlf_from(s, pos) {
            None => None,
            Some(e) => match find_char_from(s, pos, e, ':') {
                None => None,
                Some(ci) => {
                    if pos < ci && ci + 2 <= e && e + 2 <= s.len() && s[ci + 1] == ' ' {
                        match parse_headers_from(s, e + 2) {
                            None => None,
                            Some(r) => Some(
                                (seq![(s.subrange(pos, ci), s.subrange(ci + 2, e))] + r.0, r.1),
                            ),
                        }
                    } else {
                        None
                    }
                },
            },
        }
    }
}

/// Parses a whole blob: status line, then headers and body.
pub open spec fn parse_wire(s: Seq<char>) -> Option<(u16, Seq<(Seq<char>, Seq<char>)>, Seq<char>)> {
    if s.len() >= 9 && s.subrange(0, 9) == "HTTP/1.1 "@ {
        match find_crlf_from(s, 9) {
            None => None,
            Some(e) => {
                if 9 <= e && e + 2 <= s.len() {
                    let st = s.subrange(9, e);
                    if st.len() > 0 && all_dec_digits(st) && dec_val(st) <= u16::MAX {
                        match parse_headers_from(s, e + 2) {
                            None => None,
                            Some(r) => Some((dec_val(st) as u16, r.0, r.1)),
                        }
                    } else {
                        None
                    }
                } else {
                    None
                }
            },
        }
    } else {
        None
    }
}

proof fn lemma_find_crlf_at(s: Seq<char>, from: int, e: int)
    requires
        0 <= from <= e,
        e + 2 <= s.len(),
        s[e] == '\r',
        s[e + 1] == '\n',
        forall|j: int| from <= j < e ==> s[j] != '\r',
    ensures
        find_crlf_from(s, from) == Some(e),
    decreases e - from,
{
    if from < e {
        lemma_find_crlf_at(s, from + 1, e);
    }
}

proof fn lemma_find_char_at(s: Seq<char>, from: int, upto: int, e: int, c: char)
    requires
        0 <= from <= e < upto <= s.len(),
        s[e] == c,
        forall|j: int| from <= j < e ==> s[j] != c,
    ensures
        find_char_from(s, from, upto, c) == Some(e),
    decreases e - from,
{
    if from < e {
        lemma_find_char_at(s, from + 1, upto, e, c);
    }
}

proof fn lemma_header_lines_push(hs: Seq<(Seq<char>, Seq<char>)>, h: (Seq<char>, Seq<char>))
    ensures
        header_lines_of(hs.push(h)) == header_lines_of(hs) + h.0 + ": "@ + h.1 + "\r\n"@,
    decreases hs.len(),
{
    let w = hs.push(h);
    assert(header_lines_of(w) == w[0].0 + ": "@ + w[0].1 + "\r\n"@ + header_lines_of(
        w.drop_first(),
    ));
    if hs.len() == 0 {
        assert(w[0] == h);
        assert(w.drop_first() =~= Seq::<(Seq<char>, Seq<char>)>::empty());
        assert(header_lines_of(Seq::<(Seq<char>, Seq<char>)>::empty()) == Seq::<char>::empty());
        assert(header_lines_of(hs) == Seq::<char>::empty());
        assert(header_lines_of(w) =~= header_lines_of(hs) + h.0 + ": "@ + h.1 + "\r\n"@);
    } else {
        assert(w.drop_first() =~= hs.drop_first().push(h));
        assert(w[0] == hs[0]);
        lemma_header_lines_push(hs.drop_first(), h);
        assert(header_lines_of(hs) == hs[0].0 + ": "@ + hs[0].1 + "\r\n"@ + header_lines_of(
            hs.drop_first(),
        ));
        assert(header_lines_of(w) =~= header_lines_of(hs) + h.0 + ": "@ + h.1 + "\r\n"@);
    }
}

proof fn lemma_subrange_shift(s: Seq<char>, t: Seq<char>, pos: int, k: int)
    requires
        0 <= pos,
        pos + t.len() == s.len(),
        s.subrange(pos, s.len() as int) == t,
        0 <= k <= t.len(),
    ensures
        s.subrange(pos + k, s.len() as int) == t.subrange(k, t.len() as int),
{
    assert forall|j: int| 0 <= j < t.len() - k implies s.subrange(pos + k, s.len() as int)[j]
        == t.subrange(k, t.len() as int)[j] by {
        assert(s.subrange(pos, s.len() as int)[k + j] == t[k + j]);
    }
    assert(s.subrange(pos + k, s.len() as int) =~= t.subrange(k, t.len() as int));
}

/// Parsing the header block of a serialized response gives back the
/// headers and the body that were framed.
proof fn lemma_parse_headers_round(
    hs: Seq<(Seq<char>, Seq<char>)>,
    body: Seq<char>,
    s: Seq<char>,
    pos: int,
)
    requires
        wf_wire_headers(hs),
        0 <= pos <= s.len(),
        s.subrange(pos, s.len() as int) == header_lines_of(hs) + "\r\n"@ + body,
    ensures
        parse_headers_from(s, pos) == Some((hs, body)),
    decreases hs.len(),
{
    reveal_strlit("\r\n");
    reveal_strlit(": ");
    let t = header_lines_of(hs) + "\r\n"@ + body;
    assert(s.len() - pos == t.len());
    assert forall|i: int| 0 <= i < t.len() implies s[pos + i] == t[i] by {
        assert(s.subrange(pos, s.len() as int)[i] == t[i]);
    }
    if hs.len() == 0 {
        assert(header_lines_of(hs) =~= Seq::<char>::empty());
        assert(t[0] == '\r' && t[1] == '\n');
        assert(s[pos + 0] == t[0] && s[pos + 1] == t[1]);
        assert(s[pos] == '\r' && s[pos + 1] == '\n');
        lemma_subrange_shift(s, t, pos, 2);
        assert(t.subrange(2, t.len() as int) =~= body);
        assert(s.subrange(pos + 2, s.len() as int) =~= body);
    } else {
        let name = hs[0].0;
        let value = hs[0].1;
        let rest = header_lines_of(hs.drop_first());
        assert(t =~= name + ": "@ + value + "\r\n"@ + rest + "\r\n"@ + body);
        let nl = name.len() as int;
        let vl = value.len() as int;
        let e = pos + nl + 2 + vl;
        assert(forall|i: int| 0 <= i < nl ==> t[i] == name[i]);
        assert(t[nl] == ':' && t[nl + 1] == ' ');
        assert(forall|i: int| 0 <= i < vl ==> t[nl + 2 + i] == value[i]);
        assert(t[nl + 2 + vl] == '\r' && t[nl + 2 + vl + 1] == '\n');
        assert(s[e] == '\r' && s[e + 1] == '\n');
        assert(wf_name(name) && wf_value(value));
        assert(s[pos] == name[0]);
        assert(name[0] != '\r');
        assert forall|j: int| pos <= j < e implies s[j] != '\r' by {
            let i = j - pos;
            if i < nl {
                assert(s[j] == name[i]);
            } else if i == nl {
                assert(s[j] == ':');
            } else if i == nl + 1 {
                assert(s[j] == ' ');
            } else {
                assert(s[j] == value[i - nl - 2]);
            }
        }
        lemma_find_crlf_at(s, pos, e);
        assert forall|j: int| pos <= j < pos + nl implies s[j] != ':' by {
            assert(s[j] == name[j - pos]);
        }
        assert(s[pos + nl] == ':');
        lemma_find_char_at(s, pos, e, pos + nl, ':');
        let ci = pos + nl;
        assert(pos < ci && ci + 2 <= e && e + 2 <= s.len() && s[ci + 1] == ' ');
        assert(s.subrange(pos, ci) =~= name);
        assert(s.subrange(ci + 2, e) =~= value);
        assert(forall|i: int| 0 <= i < hs.drop_first().len() ==> hs.drop_first()[i] == hs[i + 1]);
        lemma_subrange_shift(s, t, pos, nl + 2 + vl + 2);
        assert(t.subrange(nl + 2 + vl + 2, t.len() as int) =~= rest + "\r\n"@ + body);
        assert(s.subrange(e + 2, s.len() as int) == rest + "\r\n"@ + body);
        lemma_parse_headers_round(hs.drop_first(), body, s, e + 2);
        assert(seq![(name, value)] + hs.drop_first() =~= hs);
    }
}

/// Round trip: a serialized response parses back to exactly the
/// status, headers and body that were written.
pub proof fn lemma_wire_round_trip(status: u16, hs: Seq<(Seq<char>, Seq<char>)>, body: Seq<char>)
    requires
        wf_wire_headers(hs),
    ensures
        parse_wire(serialize_of(status, hs, body)) == Some((status, hs, body)),
{
    reveal_strlit("HTTP/1.1 ");
    reveal_strlit("\r\n");
    let s = serialize_of(status, hs, body);
    lemma_dec_of_digits(status as nat);
    let d = dec_of(status as nat);
    let dl = d.len() as int;
    assert(s =~= "HTTP/1.1 "@ + d + "\r\n"@ + header_lines_of(hs) + "\r\n"@ + body);
    assert(s.subrange(0, 9) =~= "HTTP/1.1 "@);
    let e = 9 + dl;
    assert(s[e] == '\r' && s[e + 1] == '\n');
    assert forall|j: int| 9 <= j < e implies s[j] != '\r' by {
        assert(s[j] == d[j - 9]);
        assert(crate::text::is_dec_digit(d[j - 9]));
    }
    lemma_find_crlf_at(s, 9, e);
    assert(s.subrange(9, e) =~= d);
    assert(dec_val(d) == status);
    assert(s.subrange(e + 2, s.len() as int) =~= header_lines_of(hs) + "\r\n"@ + body);
    lemma_parse_headers_round(hs, body, s, e + 2);
}

fn scan_crlf(s: &str, from: usize) -> (r: Option<usize>)
    requires
        from <= s@.len(),
    ensures
        match r {
            Some(e) => find_crlf_from(s@, from as int) == Some(e as int) && from <= e && e + 2
                <= s@.len(),
            None => find_crlf_from(s@, from as int) is None,
        },
{
    let n = s.unicode_len();
    let mut i: usize = from;
    loop
        invariant
            from <= i <= n,
            n == s@.len(),
            find_crlf_from(s@, from as int) == find_crlf_from(s@, i as int),
        decreases n - i,
    {
        if i >= n || n - i < 2 {
            return None;
        }
        if s.get_char(i) == '\r' && s.get_char(i + 1) == '\n' {
            return Some(i);
        }
        proof {
            assert(find_crlf_from(s@, i as int) == find_crlf_from(s@, i + 1));
        }
        i += 1;
    }
}

fn scan_char(s: &str, from: usize, upto: usize, c: char) -> (r: Option<usize>)
    requires
        from <= upto <= s@.len(),
    ensures
        match r {
            Some(ci) => find_char_from(s@, from as int, upto as int, c) == Some(ci as int) && from
                <= ci < upto,
            None => find_char_from(s@, from as int, upto as int, c) is None,
        },
{
    let mut i: usize = from;
    while i < upto
        invariant
            from <= i <= upto <= s@.len(),
            find_char_from(s@, from as int, upto as int, c) == find_char_from(
                s@,
                i as int,
                upto as int,
                c,
            ),
        decreases upto - i,
    {
        if s.get_char(i) == c {
            return Some(i);
        }
        proof {
            assert(find_char_from(s@, i as int, upto as int, c) == find_char_from(
                s@,
                i + 1,
                upto as int,
                c,
            ));
        }
        i += 1;
    }
    None
}

/// What an option of (headers, body) becomes once already-parsed
/// headers are put back in front.
pub open spec fn prepend_headers(
    pre: Seq<(Seq<char>, Seq<char>)>,
    o: Option<(Seq<(Seq<char>, Seq<char>)>, Seq<char>)>,
) -> Option<(Seq<(Seq<char>, Seq<char>)>, Seq<char>)> {
    match o {
        None => None,
        Some(r) => Some((pre + r.0, r.1)),
    }
}

/// Serializes a response into one blob.
pub fn serialize(status: u16, headers: &Vec<HeaderEntry>, body: &str) -> (r: String)
    ensures
        r@ == serialize_of(status, headers_view(headers@), body@),
{
    let mut s = String::new();
    s.append("HTTP/1.1 ");
    let ds = u64_to_dec(status as u64);
    s.append(ds.as_str());
    s.append("\r\n");
    proof {
        assert(s@ =~= status_line_of(status));
    }
    let n = headers.len();
    let mut i: usize = 0;
    while i < n
        invariant
            n == headers@.len(),
            i <= n,
            s@ == status_line_of(status) + header_lines_of(headers_view(headers@).take(i as int)),
        decreases n - i,
    {
        s.append(headers[i].name.as_str());
        s.append(": ");
        s.append(headers[i].value.as_str());
        s.append("\r\n");
        proof {
            let hv = headers_view(headers@);
            assert(hv[i as int] == (headers@[i as int].name@, headers@[i as int].value@));
            assert(hv.take(i + 1) =~= hv.take(i as int).push(hv[i as int]));
            lemma_header_lines_push(hv.take(i as int), hv[i as int]);
            assert(s@ =~= status_line_of(status) + header_lines_of(hv.take(i + 1)));
        }
        i += 1;
    }
    s.append("\r\n");
    s.append(body);
    proof {
        assert(headers_view(headers@).take(n as int) =~= headers_view(headers@));
        assert(s@ =~= serialize_of(status, headers_view(headers@), body@));
    }
    s
}

/// Parses a blob back into status, headers and body. Returns nothing
/// when the blob is not a well-framed response; the serve path treats
/// that as a forced cache miss.
pub fn parse(blob: &str) -> (r: Option<ResponseParts>)
    ensures
        match r {
            Some(p) => parse_wire(blob@) matches Some(t) && p.status == t.0 && headers_view(
                p.headers@,
            ) == t.1 && p.body@ == t.2,
            None => parse_wire(blob@) is None,
        },
{
    let n = blob.unicode_len();
    if n < 9 {
        return None;
    }
    let prefix = blob.substring_char(0, 9);
    if !str_eq(prefix, "HTTP/1.1 ") {
        return None;
    }
    let e = match scan_crlf(blob, 9) {
        None => {
            return None;
        },
        Some(e) => e,
    };
    let status_str = blob.substring_char(9, e);
    let status = match parse_u16(status_str) {
        None => {
            return None;
        },
        Some(v) => v,
    };
    let mut headers: Vec<HeaderEntry> = Vec::new();
    let mut pos: usize = e + 2;
    let ghost start = pos as int;
    proof {
        assert(headers_view(headers@) =~= Seq::<(Seq<char>, Seq<char>)>::empty());
        assert(blob@.subrange(0, 9) == "HTTP/1.1 "@);
        assert(blob@.subrange(9, e as int) == status_str@);
        assert(dec_val(status_str@) as u16 == status);
        match parse_headers_from(blob@, start) {
            None => {
                assert(parse_wire(blob@) is None);
            },
            Some(r) => {
                assert(headers_view(headers@) + r.0 =~= r.0);
                assert(parse_wire(blob@) == Some((status, r.0, r.1)));
            },
        }
    }
    loop
        invariant
            pos <= n,
            n == blob@.len(),
            prepend_headers(headers_view(headers@), parse_headers_from(blob@, pos as int))
                == parse_headers_from(blob@, start),
            (parse_wire(blob@) is Some) <==> (parse_headers_from(blob@, start) is Some),
            parse_headers_from(blob@, start) matches Some(hb) ==> parse_wire(blob@) == Some::<
                (u16, Seq<(Seq<char>, Seq<char>)>, Seq<char>),
            >((status, hb.0, hb.1)),
        decreases n - pos,
    {
        if pos < n && n - pos >= 2 {
            if blob.get_char(pos) == '\r' && blob.get_char(pos + 1) == '\n' {
                let body_str = blob.substring_char(pos + 2, n);
                proof {
                    assert(parse_headers_from(blob@, pos as int) == Some(
                        (
                            Seq::<(Seq<char>, Seq<char>)>::empty(),
                            blob@.subrange(pos + 2, blob@.len() as int),
                        ),
                    ));
                    assert(headers_view(headers@) + Seq::<(Seq<char>, Seq<char>)>::empty()
                        =~= headers_view(headers@));
                }
                return Some(
                    ResponseParts { status, headers, body: String::from_str(body_str) },
                );
            }
        }
        let e2 = match scan_crlf(blob, pos) {
            None => {
                return None;
            },
            Some(e2) => e2,
        };
        let ci = match scan_char(blob, pos, e2, ':') {
            None => {
                return None;
            },
            Some(ci) => ci,
        };
        if !(pos < ci && ci + 2 <= e2) {
            return None;
        }
        if blob.get_char(ci + 1) != ' ' {
            return None;
        }
        let name = String::from_str(blob.substring_char(pos, ci));
        let value = String::from_str(blob.substring_char(ci + 2, e2));
        let ghost pre = headers_view(headers@);
        let ghost h = (blob@.subrange(pos as int, ci as int), blob@.subrange(ci + 2, e2 as int));
        headers.push(HeaderEntry { name, value });
        proof {
            assert(headers_view(headers@) =~= pre.push(h));
            let x = parse_headers_from(blob@, e2 + 2);
            assert(parse_headers_from(blob@, pos as int) == prepend_headers(seq![h], x));
            match x {
                None => {},
                Some(r) => {
                    assert(pre.push(h) + r.0 =~= pre + (seq![h] + r.0));
                },
            }
            assert(prepend_headers(headers_view(headers@), x) == parse_headers_from(
                blob@,
                start,
            ));
        }
        pos = e2 + 2;
    }
}

} // verus!
