//! Small verified text utilities: decimal and hexadecimal rendering of
//! integers, and decimal parsing. Cache keys, status lines and the
//! control protocol are all built from these.

use vstd::prelude::*;

verus! {

/// The character for one decimal digit value.
pub open spec fn dec_digit(d: nat) -> char {
    if d == 0 {
        '0'
    } else if d == 1 {
        '1'
    } else if d == 2 {
        '2'
    } else if d == 3 {
        '3'
    } else if d == 4 {
        '4'
    } else if d == 5 {
        '5'
    } else if d == 6 {
        '6'
    } else if d == 7 {
        '7'
    } else if d == 8 {
        '8'
    } else {
        '9'
    }
}

/// Decimal rendering of a natural number, most significant digit first,
/// without leading zeros (a single `'0'` for zero).
pub open spec fn dec_of(n: nat) -> Seq<char>
    decreases n,
{
    if n < 10 {
        seq![dec_digit(n)]
    } else {
        dec_of(n / 10).push(dec_digit(n % 10))
    }
}

/// The character for one hexadecimal digit value, lower case.
pub open spec fn hex_digit(d: nat) -> char {
    if d < 10 {
        dec_digit(d)
    } else if d == 10 {
        'a'
    } else if d == 11 {
        'b'
    } else if d == 12 {
        'c'
    } else if d == 13 {
        'd'
    } else if d == 14 {
        'e'
    } else {
        'f'
    }
}

/// Fixed-width hexadecimal rendering of a 64-bit value: exactly 16
/// digits, most significant nibble first, zero padded.
pub open spec fn hex16_of(v: u64) -> Seq<char> {
    Seq::new(16, |i: int| hex_digit(((v >> (((15 - i) * 4) as u64)) & 0xf) as nat))
}

fn digit_str(d: u8) -> (r: &'static str)
    requires
        d < 10,
    ensures
        r@ == seq![dec_digit(d as nat)],
{
    let r: &'static str = match d {
        0 => "0",
        1 => "1",
        2 => "2",
        3 => "3",
        4 => "4",
        5 => "5",
        6 => "6",
        7 => "7",
        8 => "8",
        _ => "9",
    };
    proof {
        reveal_strlit("0");
        reveal_strlit("1");
        reveal_strlit("2");
        reveal_strlit("3");
        reveal_strlit("4");
        reveal_strlit("5");
        reveal_strlit("6");
        reveal_strlit("7");
        reveal_strlit("8");
        reveal_strlit("9");
        assert(r@ =~= seq![dec_digit(d as nat)]);
    }
    r
}

fn hex_digit_str(d: u8) -> (r: &'static str)
    requires
        d < 16,
    ensures
        r@ == seq![hex_digit(d as nat)],
{
    if d < 10 {
        digit_str(d)
    } else {
        let r: &'static str = match d {
            10 => "a",
            11 => "b",
            12 => "c",
            13 => "d",
            14 => "e",
            _ => "f",
        };
        proof {
            reveal_strlit("a");
            reveal_strlit("b");
            reveal_strlit("c");
            reveal_strlit("d");
            reveal_strlit("e");
            reveal_strlit("f");
            assert(r@ =~= seq![hex_digit(d as nat)]);
        }
        r
    }
}

/// Renders a number in decimal.
pub fn u64_to_dec(n: u64) -> (r: String)
    ensures
        r@ == dec_of(n as nat),
    decreases n,
{
    if n < 10 {
        String::from_str(digit_str(n as u8))
    } else {
        let mut s = u64_to_dec(n / 10);
        s.append(digit_str((n % 10) as u8));
        proof {
            assert(s@ =~= dec_of(n as nat));
        }
        s
    }
}

/// Renders a 64-bit value as exactly 16 hexadecimal digits.
pub fn u64_to_hex16(v: u64) -> (r: String)
    ensures
        r@ == hex16_of(v),
        r@.len() == 16,
{
    let mut s = String::new();
    let mut i: usize = 0;
    while i < 16
        invariant
            i <= 16,
            s@ =~= hex16_of(v).take(i as int),
        decreases 16 - i,
    {
        let sh: u64 = ((15 - i) as u64) * 4;
        assert((v >> sh) & 0xf < 16) by (bit_vector);
        let d: u8 = ((v >> sh) & 0xf) as u8;
        s.append(hex_digit_str(d));
        proof {
            assert(s@ =~= hex16_of(v).take(i + 1));
        }
        i += 1;
    }
    proof {
        assert(s@ =~= hex16_of(v));
    }
    s
}

/// Whether a character is a decimal digit.
pub open spec fn is_dec_digit(c: char) -> bool {
    48 <= c as u32 && c as u32 <= 57
}

/// Whether a string is made of decimal digits only.
pub open spec fn all_dec_digits(s: Seq<char>) -> bool {
    forall|i: int| 0 <= i < s.len() ==> is_dec_digit(s[i])
}

/// The numeric value of a string of decimal digits, most significant
/// digit first. Leading zeros are allowed and do not change the value.
pub open spec fn dec_val(s: Seq<char>) -> nat
    decreases s.len(),
{
    if s.len() == 0 {
        0
    } else {
        dec_val(s.drop_last()) * 10 + (s.last() as u32 - 48) as nat
    }
}

/// Decimal rendering produces digits only, at least one, and parsing
/// them back yields the number rendered.
pub proof fn lemma_dec_of_digits(n: nat)
    ensures
        dec_of(n).len() > 0,
        all_dec_digits(dec_of(n)),
        dec_val(dec_of(n)) == n,
    decreases n,
{
    if n < 10 {
        assert(dec_digit(n) as u32 == 48 + n);
        assert(dec_of(n) =~= seq![dec_digit(n)]);
        assert(dec_of(n).drop_last() =~= Seq::<char>::empty());
        assert(dec_val(Seq::<char>::empty()) == 0);
        assert(dec_of(n).last() == dec_digit(n));
        assert(dec_val(dec_of(n)) == dec_val(dec_of(n).drop_last()) * 10 + (dec_of(
            n,
        ).last() as u32 - 48) as nat);
        assert(dec_val(dec_of(n)) == n);
    } else {
        lemma_dec_of_digits(n / 10);
        let d = dec_digit(n % 10);
        assert(d as u32 == 48 + n % 10);
        let w = dec_of(n / 10).push(d);
        assert(w.drop_last() =~= dec_of(n / 10));
        assert(w.last() == d);
        assert(dec_val(w) == (n / 10) * 10 + n % 10);
        assert((n / 10) * 10 + n % 10 == n) by {
            vstd::arithmetic::div_mod::lemma_fundamental_div_mod(n as int, 10);
        }
        assert forall|i: int| 0 <= i < w.len() implies is_dec_digit(w[i]) by {
            if i < w.len() - 1 {
                assert(w[i] == dec_of(n / 10)[i]);
            }
        }
    }
}

/// A longer digit string never denotes a smaller value: the value of a
/// prefix bounds the value of the whole string from below.
proof fn lemma_dec_val_prefix(s: Seq<char>, i: int)
    requires
        0 <= i <= s.len(),
    ensures
        dec_val(s.take(i)) <= dec_val(s),
    decreases s.len() - i,
{
    if i < s.len() {
        lemma_dec_val_prefix(s, i + 1);
        assert(s.take(i + 1).drop_last() =~= s.take(i));
        assert(dec_val(s.take(i + 1)) == dec_val(s.take(i)) * 10 + (s.take(i + 1).last() as u32
            - 48) as nat);
    } else {
        assert(s.take(i) =~= s);
    }
}

/// Parses a decimal number. Returns the value exactly when the string
/// is non-empty, all digits, and the value fits in 64 bits.
pub fn parse_u64(s: &str) -> (r: Option<u64>)
    ensures
        r is Some <==> s@.len() > 0 && all_dec_digits(s@) && dec_val(s@) <= u64::MAX,
        r is Some ==> r->0 == dec_val(s@),
{
    let n = s.unicode_len();
    if n == 0 {
        return None;
    }
    let mut acc: u64 = 0;
    let mut i: usize = 0;
    while i < n
        invariant
            0 < n == s@.len(),
            i <= n,
            all_dec_digits(s@.take(i as int)),
            acc == dec_val(s@.take(i as int)),
        decreases n - i,
    {
        let c = s.get_char(i);
        let cv: u32 = c as u32;
        if cv < 48 || cv > 57 {
            proof {
                assert(!is_dec_digit(s@[i as int]));
            }
            return None;
        }
        let d: u64 = (cv - 48) as u64;
        if acc > 0xffff_ffff_ffff_ffffu64 / 10 || (acc == 0xffff_ffff_ffff_ffffu64 / 10 && d > 5) {
            proof {
                assert(s@.take(i + 1).drop_last() =~= s@.take(i as int));
                assert(dec_val(s@.take(i + 1)) == acc * 10 + d);
                lemma_dec_val_prefix(s@, i + 1);
            }
            return None;
        }
        acc = acc * 10 + d;
        proof {
            assert(s@.take(i + 1).drop_last() =~= s@.take(i as int));
        }
        i += 1;
    }
    proof {
        assert(s@.take(n as int) =~= s@);
    }
    Some(acc)
}

/// Parses a decimal number that must fit in eight bits.
pub fn parse_u8(s: &str) -> (r: Option<u8>)
    ensures
        r is Some <==> s@.len() > 0 && all_dec_digits(s@) && dec_val(s@) <= u8::MAX,
        r is Some ==> r->0 == dec_val(s@),
{
    match parse_u64(s) {
        Some(v) if v <= 255 => Some(v as u8),
        _ => None,
    }
}

/// Parses a decimal number that must fit in sixteen bits.
pub fn parse_u16(s: &str) -> (r: Option<u16>)
    ensures
        r is Some <==> s@.len() > 0 && all_dec_digits(s@) && dec_val(s@) <= u16::MAX,
        r is Some ==> r->0 == dec_val(s@),
{
    match parse_u64(s) {
        Some(v) if v <= 65535 => Some(v as u16),
        _ => None,
    }
}

/// Exact equality of two string slices.
pub fn str_eq(a: &str, b: &str) -> (r: bool)
    ensures
        r == (a@ == b@),
{
    let an = a.unicode_len();
    let bn = b.unicode_len();
    if an != bn {
        return false;
    }
    let mut i: usize = 0;
    while i < an
        invariant
            an == a@.len(),
            an == b@.len(),
            i <= an,
            forall|j: int| 0 <= j < i ==> a@[j] == b@[j],
        decreases an - i,
    {
        if a.get_char(i) != b.get_char(i) {
            return false;
        }
        i += 1;
    }
    proof {
        assert(a@ =~= b@);
    }
    true
}

/// Whitespace trimmed around segments.
pub open spec fn is_space(c: char) -> bool {
    c == ' ' || c == '\t'
}

/// The first comma at or after `from`.
pub open spec fn find_comma(s: Seq<char>, from: int) -> Option<int>
    decreases s.len() - from,
{
    if from < 0 || from >= s.len() {
        None
    } else if s[from] == ',' {
        Some(from)
    } else {
        find_comma(s, from + 1)
    }
}

/// A name with surrounding whitespace dropped from the front.
pub open spec fn trim_front(s: Seq<char>) -> Seq<char>
    decreases s.len(),
{
    if s.len() > 0 && is_space(s[0]) {
        trim_front(s.drop_first())
    } else {
        s
    }
}

/// A name with surrounding whitespace dropped from the back.
pub open spec fn trim_back(s: Seq<char>) -> Seq<char>
    decreases s.len(),
{
    if s.len() > 0 && is_space(s.last()) {
        trim_back(s.drop_last())
    } else {
        s
    }
}

/// A name with surrounding whitespace dropped.
pub open spec fn trim_of(s: Seq<char>) -> Seq<char> {
    trim_back(trim_front(s))
}

/// A trimmed segment put in front of a segment list, unless empty.
pub open spec fn seg_cons(t: Seq<char>, rest: Seq<Seq<char>>) -> Seq<Seq<char>> {
    if t.len() > 0 {
        seq![t] + rest
    } else {
        rest
    }
}

/// The trimmed segments from `pos` on: split at commas, trimmed,
/// empty segments dropped.
pub open spec fn split_trimmed_from(s: Seq<char>, pos: int) -> Seq<Seq<char>>
    decreases s.len() - pos,
{
    if pos < 0 || pos > s.len() {
        Seq::empty()
    } else {
        match find_comma(s, pos) {
            None => seg_cons(trim_of(s.subrange(pos, s.len() as int)), Seq::empty()),
            Some(i) => {
                if pos <= i && i < s.len() {
                    seg_cons(trim_of(s.subrange(pos, i)), split_trimmed_from(s, i + 1))
                } else {
                    Seq::empty()
                }
            },
        }
    }
}

/// The trimmed, non-empty segments of a comma-separated value.
pub open spec fn split_trimmed_of(s: Seq<char>) -> Seq<Seq<char>> {
    split_trimmed_from(s, 0)
}

proof fn lemma_trim_front_at(s: Seq<char>, k: int)
    requires
        0 <= k <= s.len(),
        forall|j: int| 0 <= j < k ==> is_space(s[j]),
        k < s.len() ==> !is_space(s[k]),
    ensures
        trim_front(s) == s.subrange(k, s.len() as int),
    decreases k,
{
    if k == 0 {
        assert(s.subrange(0, s.len() as int) =~= s);
    } else {
        let t = s.drop_first();
        assert(forall|j: int| 0 <= j < k - 1 ==> t[j] == s[j + 1]);
        lemma_trim_front_at(t, k - 1);
        assert(t.subrange(k - 1, t.len() as int) =~= s.subrange(k, s.len() as int));
    }
}

proof fn lemma_trim_back_at(s: Seq<char>, k: int)
    requires
        0 <= k <= s.len(),
        forall|j: int| k <= j < s.len() ==> is_space(s[j]),
        k > 0 ==> !is_space(s[k - 1]),
    ensures
        trim_back(s) == s.subrange(0, k),
    decreases s.len() - k,
{
    if k == s.len() {
        assert(s.subrange(0, k) =~= s);
    } else {
        let t = s.drop_last();
        lemma_trim_back_at(t, k);
        assert(t.subrange(0, k) =~= s.subrange(0, k));
    }
}

fn skip_spaces_front(s: &str, lo: usize, hi: usize) -> (a: usize)
    requires
        lo <= hi <= s@.len(),
    ensures
        lo <= a <= hi,
        forall|j: int| lo <= j < a ==> is_space(s@[j]),
        a < hi ==> !is_space(s@[a as int]),
{
    let mut a: usize = lo;
    while a < hi
        invariant
            lo <= a <= hi <= s@.len(),
            forall|j: int| lo <= j < a ==> is_space(s@[j]),
        decreases hi - a,
    {
        let c = s.get_char(a);
        if c != ' ' && c != '\t' {
            return a;
        }
        a += 1;
    }
    a
}

fn skip_spaces_back(s: &str, lo: usize, hi: usize) -> (b: usize)
    requires
        lo <= hi <= s@.len(),
    ensures
        lo <= b <= hi,
        forall|j: int| b <= j < hi ==> is_space(s@[j]),
        b > lo ==> !is_space(s@[b - 1]),
{
    let mut b: usize = hi;
    while b > lo
        invariant
            lo <= b <= hi <= s@.len(),
            forall|j: int| b <= j < hi ==> is_space(s@[j]),
        decreases b - lo,
    {
        let c = s.get_char(b - 1);
        if c != ' ' && c != '\t' {
            return b;
        }
        b -= 1;
    }
    b
}

/// Scans `[lo, hi)` of `s` and returns the trimmed segment.
pub fn trim_substring(s: &str, lo: usize, hi: usize) -> (r: String)
    requires
        lo <= hi <= s@.len(),
    ensures
        r@ == trim_of(s@.subrange(lo as int, hi as int)),
{
    let ghost seg = s@.subrange(lo as int, hi as int);
    let a = skip_spaces_front(s, lo, hi);
    proof {
        assert forall|j: int| 0 <= j < a - lo implies is_space(seg[j]) by {
            assert(seg[j] == s@[lo + j]);
        }
        if a < hi {
            assert(seg[a - lo] == s@[a as int]);
        }
        lemma_trim_front_at(seg, a - lo);
    }
    let ghost fr = trim_front(seg);
    let b = skip_spaces_back(s, a, hi);
    proof {
        assert(fr == seg.subrange(a - lo, seg.len() as int));
        assert forall|j: int| b - a <= j < fr.len() implies is_space(fr[j]) by {
            assert(fr[j] == seg[a - lo + j]);
            assert(seg[a - lo + j] == s@[a + j]);
        }
        if b > a {
            assert(fr[b - 1 - a] == seg[a - lo + (b - 1 - a)]);
            assert(seg[b - 1 - lo] == s@[b - 1]);
        }
        lemma_trim_back_at(fr, b - a);
        assert forall|j: int| 0 <= j < b - a implies fr.subrange(0, b - a)[j] == s@.subrange(
            a as int,
            b as int,
        )[j] by {
            assert(fr[j] == seg[a - lo + j]);
            assert(seg[a - lo + j] == s@[a + j]);
        }
        assert(fr.subrange(0, b - a) =~= s@.subrange(a as int, b as int));
    }
    String::from_str(s.substring_char(a, b))
}

pub fn scan_comma(s: &str, from: usize) -> (r: Option<usize>)
    requires
        from <= s@.len(),
    ensures
        match r {
            Some(i) => find_comma(s@, from as int) == Some(i as int) && from <= i < s@.len(),
            None => find_comma(s@, from as int) is None,
        },
{
    let n = s.unicode_len();
    let mut i: usize = from;
    while i < n
        invariant
            from <= i <= n,
            n == s@.len(),
            find_comma(s@, from as int) == find_comma(s@, i as int),
        decreases n - i,
    {
        if s.get_char(i) == ',' {
            return Some(i);
        }
        proof {
            assert(find_comma(s@, i as int) == find_comma(s@, i + 1));
        }
        i += 1;
    }
    None
}


/// Splits a comma-separated value into its trimmed, non-empty
/// segments.
pub fn split_trimmed(value: &str) -> (r: Vec<String>)
    ensures
        r@.map_values(|b: String| b@) == split_trimmed_of(value@),
{
    let n = value.unicode_len();
    let mut out: Vec<String> = Vec::new();
    let mut pos: usize = 0;
    proof {
        assert(out@.map_values(|b: String| b@) =~= Seq::<Seq<char>>::empty());
    }
    loop
        invariant
            pos <= n,
            n == value@.len(),
            split_trimmed_of(value@) == out@.map_values(|b: String| b@) + split_trimmed_from(
                value@,
                pos as int,
            ),
        decreases n - pos,
    {
        let ghost pre = out@.map_values(|b: String| b@);
        match scan_comma(value, pos) {
            Some(i) => {
                let seg = trim_substring(value, pos, i);
                let ghost t = trim_of(value@.subrange(pos as int, i as int));
                if !seg.as_str().is_empty() {
                    out.push(seg);
                }
                proof {
                    assert(split_trimmed_from(value@, pos as int) == seg_cons(
                        t,
                        split_trimmed_from(value@, i + 1),
                    ));
                    if t.len() > 0 {
                        assert(out@.map_values(|b: String| b@) =~= pre.push(t));
                        assert(pre.push(t) + split_trimmed_from(value@, i + 1) =~= pre + (seq![t]
                            + split_trimmed_from(value@, i + 1)));
                    }
                }
                pos = i + 1;
            },
            None => {
                let seg = trim_substring(value, pos, n);
                let ghost t = trim_of(value@.subrange(pos as int, n as int));
                if !seg.as_str().is_empty() {
                    out.push(seg);
                }
                proof {
                    assert(split_trimmed_from(value@, pos as int) == seg_cons(
                        t,
                        Seq::<Seq<char>>::empty(),
                    ));
                    if t.len() > 0 {
                        assert(out@.map_values(|b: String| b@) =~= pre.push(t));
                        assert(pre.push(t) =~= pre + (seq![t] + Seq::<Seq<char>>::empty()));
                    } else {
                        assert(pre + Seq::<Seq<char>>::empty() =~= pre);
                    }
                }
                return out;
            },
        }
    }
}

/// The position of the first non-space character at or after `from`,
/// or the end of the string.
pub open spec fn token_start(s: Seq<char>, from: int) -> int
    decreases s.len() - from,
{
    if from < 0 || from >= s.len() {
        s.len() as int
    } else if is_space(s[from]) {
        token_start(s, from + 1)
    } else {
        from
    }
}

/// The position of the first space character at or after `from`, or
/// the end of the string.
pub open spec fn token_end(s: Seq<char>, from: int) -> int
    decreases s.len() - from,
{
    if from < 0 || from >= s.len() {
        s.len() as int
    } else if is_space(s[from]) {
        from
    } else {
        token_end(s, from + 1)
    }
}

/// The first whitespace-delimited token at or after `from`, and the
/// position just past it: empty once only whitespace is left.
pub open spec fn spec_token_at(s: Seq<char>, from: int) -> (Seq<char>, int) {
    (s.subrange(token_start(s, from), token_end(s, token_start(s, from))), token_end(
        s,
        token_start(s, from),
    ))
}

proof fn lemma_token_start_at(s: Seq<char>, from: int, a: int)
    requires
        0 <= from <= a <= s.len(),
        forall|j: int| from <= j < a ==> is_space(s[j]),
        a < s.len() ==> !is_space(s[a]),
    ensures
        token_start(s, from) == if a < s.len() {
            a
        } else {
            s.len() as int
        },
    decreases a - from,
{
    if from < a {
        lemma_token_start_at(s, from + 1, a);
    }
}

proof fn lemma_token_end_at(s: Seq<char>, from: int, b: int)
    requires
        0 <= from <= b <= s.len(),
        forall|j: int| from <= j < b ==> !is_space(s[j]),
        b < s.len() ==> is_space(s[b]),
    ensures
        token_end(s, from) == if b < s.len() {
            b
        } else {
            s.len() as int
        },
    decreases b - from,
{
    if from < b {
        lemma_token_end_at(s, from + 1, b);
    }
}

fn skip_token(s: &str, lo: usize, hi: usize) -> (b: usize)
    requires
        lo <= hi <= s@.len(),
    ensures
        lo <= b <= hi,
        forall|j: int| lo <= j < b ==> !is_space(s@[j]),
        b < hi ==> is_space(s@[b as int]),
{
    let mut b: usize = lo;
    while b < hi
        invariant
            lo <= b <= hi <= s@.len(),
            forall|j: int| lo <= j < b ==> !is_space(s@[j]),
        decreases hi - b,
    {
        let c = s.get_char(b);
        if c == ' ' || c == '\t' {
            return b;
        }
        b += 1;
    }
    b
}

/// Reads the next whitespace-delimited token at or after `from`, and
/// where it ended.
pub fn next_token(s: &str, from: usize) -> (r: (String, usize))
    requires
        from <= s@.len(),
    ensures
        r.0@ == spec_token_at(s@, from as int).0,
        r.1 == spec_token_at(s@, from as int).1,
        from <= r.1 <= s@.len(),
{
    let n = s.unicode_len();
    let a = skip_spaces_front(s, from, n);
    let b = skip_token(s, a, n);
    proof {
        lemma_token_start_at(s@, from as int, a as int);
        lemma_token_end_at(s@, a as int, b as int);
    }
    (String::from_str(s.substring_char(a, b)), b)
}

} // verus!
