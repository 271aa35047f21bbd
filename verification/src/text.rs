//! Character classification, decimal rendering and parsing, and trimming,
//! stated over the `Seq<char>` view of strings.
use vstd::prelude::*;
use vstd::utf8::{decode_utf8, valid_utf8};

verus! {

// ---------------------------------------------------------------------------
// Conversions between strings and character vectors
// ---------------------------------------------------------------------------

/// The characters of a string slice.
pub fn chars_of(s: &str) -> (v: Vec<char>)
    ensures
        v@ == s@,
{
    let mut v: Vec<char> = Vec::new();
    for c in it: s.chars()
        invariant
            v@ == it.seq().subrange(0, it.index() as int),
    {
        v.push(c);
    }
    v
}

/// Builds a `String` from characters (`Iterator::collect` into `String`).
#[verifier::external_body]
pub(crate) fn string_from_chars(v: &[char]) -> (s: String)
    ensures
        s@ == v@,
{
    v.iter().collect()
}

/// A string holding the characters of `s`.
pub fn owned(s: &str) -> (r: String)
    ensures
        r@ == s@,
{
    s.to_owned()
}

/// Equality of two string slices, character by character.
pub fn str_eq(a: &str, b: &str) -> (r: bool)
    ensures
        r == (a@ == b@),
{
    let va = chars_of(a);
    let vb = chars_of(b);
    seq_char_eq(&va, &vb)
}

/// Equality of two character vectors.
pub fn seq_char_eq(va: &Vec<char>, vb: &Vec<char>) -> (r: bool)
    ensures
        r == (va@ == vb@),
{
    if va.len() != vb.len() {
        return false;
    }
    let mut i: usize = 0;
    while i < va.len()
        invariant
            va@.len() == vb@.len(),
            i <= va@.len(),
            forall|j: int| 0 <= j < i ==> va@[j] == vb@[j],
        decreases va@.len() - i,
    {
        if va[i] != vb[i] {
            return false;
        }
        i = i + 1;
    }
    assert(va@ =~= vb@);
    true
}

/// Appends `b` to `a`.
pub fn concat(a: &str, b: &str) -> (r: String)
    ensures
        r@ == a@ + b@,
{
    let mut r = owned(a);
    r.append(b);
    r
}

// ---------------------------------------------------------------------------
// Character classes
// ---------------------------------------------------------------------------

/// `char::is_whitespace`: whether `c` has the Unicode `White_Space`
/// property, which these code points have: U+0009 to U+000D, U+0020,
/// U+0085, U+00A0, U+1680, U+2000 to U+200A, U+2028, U+2029, U+202F, U+205F
/// and U+3000.
pub open spec fn is_whitespace(c: char) -> bool {
    ||| ('\u{9}' <= c && c <= '\u{D}')
    ||| c == ' '
    ||| c == '\u{85}'
    ||| c == '\u{A0}'
    ||| c == '\u{1680}'
    ||| ('\u{2000}' <= c && c <= '\u{200A}')
    ||| c == '\u{2028}'
    ||| c == '\u{2029}'
    ||| c == '\u{202F}'
    ||| c == '\u{205F}'
    ||| c == '\u{3000}'
}

/// Whether `c` has the Unicode `White_Space` property.
pub fn is_whitespace_char(c: char) -> (r: bool)
    ensures
        r == is_whitespace(c),
{
    ('\u{9}' <= c && c <= '\u{D}') || c == ' ' || c == '\u{85}' || c == '\u{A0}' || c == '\u{1680}'
        || ('\u{2000}' <= c && c <= '\u{200A}') || c == '\u{2028}' || c == '\u{2029}' || c
        == '\u{202F}' || c == '\u{205F}' || c == '\u{3000}'
}

pub open spec fn is_ascii_digit(c: char) -> bool {
    '0' <= c && c <= '9'
}

pub open spec fn is_ascii_alphanumeric(c: char) -> bool {
    is_ascii_digit(c) || ('a' <= c && c <= 'z') || ('A' <= c && c <= 'Z')
}

/// Whether a non-ASCII character is alphabetic or numeric in Unicode.
pub uninterp spec fn unicode_alphanumeric(c: char) -> bool;

/// `char::is_alphanumeric`: exact on ASCII, the Unicode property beyond it.
pub open spec fn is_alphanumeric(c: char) -> bool {
    if (c as u32) < 128 {
        is_ascii_alphanumeric(c)
    } else {
        unicode_alphanumeric(c)
    }
}

/// `char::is_alphanumeric`, asked of a character outside ASCII.
#[verifier::external_body]
fn non_ascii_is_alphanumeric(c: char) -> (r: bool)
    ensures
        r == unicode_alphanumeric(c),
{
    c.is_alphanumeric()
}

pub fn is_ascii_alphanumeric_char(c: char) -> (r: bool)
    ensures
        r == is_ascii_alphanumeric(c),
{
    ('0' <= c && c <= '9') || ('a' <= c && c <= 'z') || ('A' <= c && c <= 'Z')
}

/// Whether `c` is alphabetic or numeric.
pub fn is_alphanumeric_char(c: char) -> (r: bool)
    ensures
        r == is_alphanumeric(c),
{
    if (c as u32) < 128 {
        is_ascii_alphanumeric_char(c)
    } else {
        non_ascii_is_alphanumeric(c)
    }
}

/// ASCII upper case letters mapped to lower case; every other character unchanged.
pub open spec fn ascii_lower(c: char) -> char {
    if 'A' <= c && c <= 'Z' {
        ((c as u32) + 32) as char
    } else {
        c
    }
}

pub fn ascii_lower_char(c: char) -> (r: char)
    ensures
        r == ascii_lower(c),
{
    if 'A' <= c && c <= 'Z' {
        let code: u32 = (c as u32) + 32;
        assert(code < 0xD800);
        code as u8 as char
    } else {
        c
    }
}

pub open spec fn ascii_lower_seq(s: Seq<char>) -> Seq<char> {
    s.map_values(|c: char| ascii_lower(c))
}

/// `str::to_ascii_lowercase`.
pub fn to_ascii_lowercase(s: &str) -> (r: String)
    ensures
        r@ == ascii_lower_seq(s@),
{
    let v = chars_of(s);
    let mut out: Vec<char> = Vec::new();
    let mut i: usize = 0;
    while i < v.len()
        invariant
            i <= v@.len(),
            out@ =~= ascii_lower_seq(v@.subrange(0, i as int)),
        decreases v@.len() - i,
    {
        let c = ascii_lower_char(v[i]);
        out.push(c);
        i = i + 1;
        assert(ascii_lower_seq(v@.subrange(0, i as int)) =~= ascii_lower_seq(
            v@.subrange(0, i - 1),
        ).push(ascii_lower(v@[i - 1])));
    }
    assert(v@.subrange(0, v@.len() as int) =~= v@);
    string_from_chars(out.as_slice())
}

// ---------------------------------------------------------------------------
// Trimming
// ---------------------------------------------------------------------------

pub open spec fn trim_start(s: Seq<char>) -> Seq<char>
    decreases s.len(),
{
    if s.len() > 0 && is_whitespace(s[0]) {
        trim_start(s.drop_first())
    } else {
        s
    }
}

pub open spec fn trim_end(s: Seq<char>) -> Seq<char>
    decreases s.len(),
{
    if s.len() > 0 && is_whitespace(s.last()) {
        trim_end(s.drop_last())
    } else {
        s
    }
}

/// `str::trim`: leading and trailing whitespace removed.
pub open spec fn trim(s: Seq<char>) -> Seq<char> {
    trim_end(trim_start(s))
}

/// The characters of `s` without leading and trailing whitespace.
pub fn trim_chars(s: &str) -> (r: Vec<char>)
    ensures
        r@ == trim(s@),
{
    let v = chars_of(s);
    let n = v.len();
    let mut i: usize = 0;
    assert(v@.subrange(0, n as int) =~= v@);
    while i < n && is_whitespace_char(v[i])
        invariant
            n == v@.len(),
            i <= n,
            trim_start(v@) == trim_start(v@.subrange(i as int, n as int)),
        decreases n - i,
    {
        assert(v@.subrange(i as int, n as int).drop_first() =~= v@.subrange(i + 1, n as int));
        i = i + 1;
    }
    assert(trim_start(v@) == v@.subrange(i as int, n as int));
    let mut j: usize = n;
    while j > i && is_whitespace_char(v[j - 1])
        invariant
            n == v@.len(),
            i <= j <= n,
            trim(v@) == trim_end(v@.subrange(i as int, j as int)),
        decreases j,
    {
        assert(v@.subrange(i as int, j as int).drop_last() =~= v@.subrange(i as int, j - 1));
        j = j - 1;
    }
    let mut out: Vec<char> = Vec::new();
    let mut k: usize = i;
    while k < j
        invariant
            n == v@.len(),
            i <= k <= j <= n,
            out@ =~= v@.subrange(i as int, k as int),
        decreases j - k,
    {
        out.push(v[k]);
        k = k + 1;
    }
    out
}

/// `str::trim` as an owned string.
pub fn trim_str(s: &str) -> (r: String)
    ensures
        r@ == trim(s@),
{
    let v = trim_chars(s);
    string_from_chars(v.as_slice())
}

// ---------------------------------------------------------------------------
// Decimal rendering
// ---------------------------------------------------------------------------

/// The ASCII digit for `d`, for `0 <= d < 10`.
pub open spec fn digit_char(d: int) -> char {
    ((48 + d) as u32) as char
}

/// Decimal rendering of a natural number, most significant digit first.
pub open spec fn decimal(n: nat) -> Seq<char>
    decreases n,
{
    if n < 10 {
        seq![digit_char(n as int)]
    } else {
        decimal(n / 10).push(digit_char((n % 10) as int))
    }
}

/// Decimal rendering of an integer, with a leading `-` when negative.
pub open spec fn signed_decimal(n: int) -> Seq<char> {
    if n < 0 {
        seq!['-'] + decimal((-n) as nat)
    } else {
        decimal(n as nat)
    }
}

fn digit_of(d: u128) -> (c: char)
    requires
        d < 10,
    ensures
        c == digit_char(d as int),
{
    let b: u8 = 48 + d as u8;
    b as char
}

pub fn decimal_digits(n: u128) -> (v: Vec<char>)
    ensures
        v@ == decimal(n as nat),
    decreases n,
{
    if n < 10 {
        let mut v: Vec<char> = Vec::new();
        v.push(digit_of(n));
        assert(v@ =~= seq![digit_char(n as int)]);
        v
    } else {
        let mut v = decimal_digits(n / 10);
        v.push(digit_of(n % 10));
        v
    }
}

/// `u64::to_string`.
pub fn u64_to_decimal(n: u64) -> (s: String)
    ensures
        s@ == decimal(n as nat),
{
    let v = decimal_digits(n as u128);
    string_from_chars(v.as_slice())
}

/// `u128::to_string`.
pub fn u128_to_decimal(n: u128) -> (s: String)
    ensures
        s@ == decimal(n as nat),
{
    let v = decimal_digits(n);
    string_from_chars(v.as_slice())
}

/// The ASCII bytes of a text made of ASCII characters.
pub open spec fn ascii_bytes(s: Seq<char>) -> Seq<u8> {
    s.map_values(|c: char| c as u8)
}

/// The decimal digits of `n` as ASCII bytes.
pub fn decimal_bytes(n: u128) -> (v: Vec<u8>)
    ensures
        v@ == ascii_bytes(decimal(n as nat)),
{
    let d = decimal_digits(n);
    let mut v: Vec<u8> = Vec::new();
    let mut i: usize = 0;
    while i < d.len()
        invariant
            i <= d@.len(),
            v@ =~= ascii_bytes(d@.subrange(0, i as int)),
        decreases d@.len() - i,
    {
        v.push(d[i] as u8);
        i = i + 1;
    }
    assert(d@.subrange(0, d@.len() as int) =~= d@);
    v
}

/// `i64::to_string`.
pub fn i64_to_decimal(n: i64) -> (s: String)
    ensures
        s@ == signed_decimal(n as int),
{
    if n < 0 {
        let m: u64 = (-(n as i128)) as u64;
        let mut v: Vec<char> = Vec::new();
        v.push('-');
        let digits = decimal_digits(m as u128);
        let mut i: usize = 0;
        while i < digits.len()
            invariant
                i <= digits@.len(),
                v@ =~= seq!['-'] + digits@.subrange(0, i as int),
            decreases digits@.len() - i,
        {
            v.push(digits[i]);
            i = i + 1;
        }
        assert(digits@.subrange(0, digits@.len() as int) =~= digits@);
        string_from_chars(v.as_slice())
    } else {
        u64_to_decimal(n as u64)
    }
}

// ---------------------------------------------------------------------------
// Decimal parsing (`str::parse` for integer types)
// ---------------------------------------------------------------------------

pub open spec fn all_digits(s: Seq<char>) -> bool {
    forall|i: int| 0 <= i < s.len() ==> #[trigger] is_ascii_digit(s[i])
}

/// The value of a string of decimal digits.
pub open spec fn digits_value(s: Seq<char>) -> nat
    decreases s.len(),
{
    if s.len() == 0 {
        0
    } else {
        digits_value(s.drop_last()) * 10 + ((s.last() as u32) - 48) as nat
    }
}

/// The value that `str::parse` gives for an unsigned integer type, before the
/// range check: an optional `+`, then one or more ASCII digits.
pub open spec fn unsigned_literal(s: Seq<char>) -> Option<nat> {
    let body = if s.len() > 0 && s[0] == '+' {
        s.drop_first()
    } else {
        s
    };
    if body.len() > 0 && all_digits(body) {
        Some(digits_value(body))
    } else {
        None
    }
}

/// The value that `str::parse` gives for a signed integer type, before the
/// range check: an optional `+` or `-`, then one or more ASCII digits.
pub open spec fn signed_literal(s: Seq<char>) -> Option<int> {
    if s.len() > 0 && s[0] == '-' {
        let body = s.drop_first();
        if body.len() > 0 && all_digits(body) {
            Some(-(digits_value(body) as int))
        } else {
            None
        }
    } else {
        match unsigned_literal(s) {
            Some(v) => Some(v as int),
            None => None,
        }
    }
}

/// `str::parse::<u32>`.
pub open spec fn parse_u32_spec(s: Seq<char>) -> Option<u32> {
    match unsigned_literal(s) {
        Some(v) => if v <= u32::MAX {
            Some(v as u32)
        } else {
            None
        },
        None => None,
    }
}

/// `str::parse::<usize>`.
pub open spec fn parse_usize_spec(s: Seq<char>) -> Option<usize> {
    match unsigned_literal(s) {
        Some(v) => if v <= usize::MAX {
            Some(v as usize)
        } else {
            None
        },
        None => None,
    }
}

/// `str::parse::<i64>`.
pub open spec fn parse_i64_spec(s: Seq<char>) -> Option<i64> {
    match signed_literal(s) {
        Some(v) => if i64::MIN <= v <= i64::MAX {
            Some(v as i64)
        } else {
            None
        },
        None => None,
    }
}

proof fn lemma_digits_value_prefix(s: Seq<char>, i: int)
    requires
        0 <= i <= s.len(),
    ensures
        digits_value(s.subrange(0, i)) <= digits_value(s),
    decreases s.len() - i,
{
    if i < s.len() {
        lemma_digits_value_prefix(s, i + 1);
        let t = s.subrange(0, i + 1);
        assert(t.drop_last() =~= s.subrange(0, i));
    } else {
        assert(s.subrange(0, i) =~= s);
    }
}

/// Value of the digits of `v` from `start` on, when they are one or more
/// ASCII digits and the value is at most `bound`.
fn parse_digits_from(v: &Vec<char>, start: usize, bound: u64) -> (r: Option<u64>)
    requires
        start <= v@.len(),
    ensures
        ({
            let body = v@.subrange(start as int, v@.len() as int);
            match r {
                Some(x) => body.len() > 0 && all_digits(body) && x == digits_value(body)
                    && x <= bound,
                None => !(body.len() > 0 && all_digits(body) && digits_value(body) <= bound),
            }
        }),
{
    let ghost body = v@.subrange(start as int, v@.len() as int);
    if start == v.len() {
        return None;
    }
    let mut acc: u64 = 0;
    let mut i: usize = start;
    while i < v.len()
        invariant
            start <= i <= v@.len(),
            body == v@.subrange(start as int, v@.len() as int),
            all_digits(v@.subrange(start as int, i as int)),
            acc == digits_value(v@.subrange(start as int, i as int)),
            acc <= bound,
        decreases v@.len() - i,
    {
        let c = v[i];
        let ghost prefix = v@.subrange(start as int, i as int);
        let ghost next = v@.subrange(start as int, i + 1);
        assert(next.drop_last() =~= prefix);
        if !('0' <= c && c <= '9') {
            assert(body[i - start] == c);
            assert(!is_ascii_digit(body[i - start]));
            return None;
        }
        let d: u64 = (c as u32 - 48) as u64;
        assert(next.last() == c);
        let wide: u128 = (acc as u128) * 10 + (d as u128);
        if wide > bound as u128 {
            proof {
                assert(body.subrange(0, i + 1 - start) =~= next);
                lemma_digits_value_prefix(body, i + 1 - start);
            }
            return None;
        }
        acc = wide as u64;
        i = i + 1;
        assert(all_digits(v@.subrange(start as int, i as int))) by {
            assert forall|j: int| 0 <= j < next.len() implies #[trigger] is_ascii_digit(next[j]) by {
                if j < prefix.len() {
                    assert(next[j] == prefix[j]);
                }
            }
        }
    }
    assert(v@.subrange(start as int, i as int) =~= body);
    Some(acc)
}

/// `str::parse::<u64>` bounded by `bound` (used for the unsigned types).
fn parse_unsigned_bounded(s: &str, bound: u64) -> (r: Option<u64>)
    ensures
        match unsigned_literal(s@) {
            Some(v) => if v <= bound {
                r == Some(v as u64)
            } else {
                r is None
            },
            None => r is None,
        },
{
    let v = chars_of(s);
    let start: usize = if v.len() > 0 && v[0] == '+' {
        1
    } else {
        0
    };
    assert(v@.subrange(start as int, v@.len() as int) =~= (if v@.len() > 0 && v@[0] == '+' {
        v@.drop_first()
    } else {
        v@
    }));
    parse_digits_from(&v, start, bound)
}

/// `str::parse::<u32>`.
pub fn parse_u32(s: &str) -> (r: Option<u32>)
    ensures
        r == parse_u32_spec(s@),
{
    match parse_unsigned_bounded(s, u32::MAX as u64) {
        Some(x) => Some(x as u32),
        None => None,
    }
}

/// `str::parse::<usize>`.
pub fn parse_usize(s: &str) -> (r: Option<usize>)
    ensures
        r == parse_usize_spec(s@),
{
    match parse_unsigned_bounded(s, usize::MAX as u64) {
        Some(x) => Some(x as usize),
        None => None,
    }
}

/// `str::parse::<i64>`.
pub fn parse_i64(s: &str) -> (r: Option<i64>)
    ensures
        r == parse_i64_spec(s@),
{
    let v = chars_of(s);
    if v.len() > 0 && v[0] == '-' {
        assert(v@.subrange(1, v@.len() as int) =~= v@.drop_first());
        match parse_digits_from(&v, 1, 0x8000_0000_0000_0000u64) {
            Some(x) => {
                let neg: i128 = -(x as i128);
                Some(neg as i64)
            },
            None => None,
        }
    } else {
        match parse_unsigned_bounded(s, 0x7fff_ffff_ffff_ffffu64) {
            Some(x) => Some(x as i64),
            None => None,
        }
    }
}

// ---------------------------------------------------------------------------
// Joining
// ---------------------------------------------------------------------------

/// `parts` with `sep` between each two of them (`[&str]::join`).
pub open spec fn join_seq(parts: Seq<Seq<char>>, sep: Seq<char>) -> Seq<char>
    decreases parts.len(),
{
    if parts.len() == 0 {
        seq![]
    } else if parts.len() == 1 {
        parts[0]
    } else {
        join_seq(parts.drop_last(), sep) + sep + parts.last()
    }
}

pub open spec fn views_of(parts: Seq<String>) -> Seq<Seq<char>> {
    parts.map_values(|p: String| p@)
}

/// The strings of `parts` with `sep` between each two of them.
pub fn join(parts: &Vec<String>, sep: &str) -> (r: String)
    ensures
        r@ == join_seq(views_of(parts@), sep@),
{
    let mut r = owned("");
    proof {
        reveal_strlit("");
    }
    let ghost all = views_of(parts@);
    let mut i: usize = 0;
    while i < parts.len()
        invariant
            i <= parts@.len(),
            all == views_of(parts@),
            r@ == join_seq(all.subrange(0, i as int), sep@),
        decreases parts@.len() - i,
    {
        proof {
            assert(all.subrange(0, i + 1).drop_last() =~= all.subrange(0, i as int));
            assert(all.subrange(0, i + 1).last() == parts@[i as int]@);
            if i == 0 {
                assert(all.subrange(0, 1) =~= seq![parts@[0]@]);
                assert(r@ =~= Seq::<char>::empty());
            }
        }
        if i > 0 {
            r.append(sep);
        }
        r.append(parts[i].as_str());
        i = i + 1;
    }
    assert(all.subrange(0, parts@.len() as int) =~= all);
    r
}

/// Whether `s` ends with `suffix`.
pub open spec fn ends_with_spec(s: Seq<char>, suffix: Seq<char>) -> bool {
    s.len() >= suffix.len() && s.subrange(s.len() - suffix.len(), s.len() as int) == suffix
}

/// `str::ends_with` for a text suffix.
pub fn ends_with(s: &str, suffix: &str) -> (r: bool)
    ensures
        r == ends_with_spec(s@, suffix@),
{
    let v = chars_of(s);
    let w = chars_of(suffix);
    if v.len() < w.len() {
        return false;
    }
    let off: usize = v.len() - w.len();
    let vl: usize = v.len();
    let mut i: usize = 0;
    while i < w.len()
        invariant
            vl == v@.len(),
            v@ == s@,
            w@ == suffix@,
            off == v@.len() - w@.len(),
            i <= w@.len(),
            forall|j: int| 0 <= j < i ==> v@[off + j] == w@[j],
        decreases w@.len() - i,
    {
        if v[off + i] != w[i] {
            assert(v@.subrange(off as int, v@.len() as int)[i as int] != w@[i as int]);
            return false;
        }
        i = i + 1;
    }
    assert(v@.subrange(off as int, v@.len() as int) =~= w@);
    true
}

// ---------------------------------------------------------------------------
// Splitting
// ---------------------------------------------------------------------------

/// The number of characters of `s` before its first `c`, or its length when
/// it holds no `c`.
pub open spec fn span_until(s: Seq<char>, c: char) -> nat
    decreases s.len(),
{
    if s.len() == 0 {
        0
    } else if s[0] == c {
        0
    } else {
        1 + span_until(s.drop_first(), c)
    }
}

pub(crate) proof fn lemma_span_until(s: Seq<char>, c: char, k: int)
    requires
        0 <= k <= s.len(),
        forall|i: int| 0 <= i < k ==> s[i] != c,
        k == s.len() || s[k] == c,
    ensures
        span_until(s, c) == k,
    decreases k,
{
    if k > 0 {
        lemma_span_until(s.drop_first(), c, k - 1);
    }
}

/// The first index at or after `start` that holds `c`, or the length.
pub(crate) fn find_char_from(v: &Vec<char>, start: usize, c: char) -> (k: usize)
    requires
        start <= v@.len(),
    ensures
        start <= k <= v@.len(),
        forall|i: int| start <= i < k ==> v@[i] != c,
        k == v@.len() || v@[k as int] == c,
{
    let mut k: usize = start;
    while k < v.len()
        invariant
            start <= k <= v@.len(),
            forall|i: int| start <= i < k ==> v@[i] != c,
        decreases v@.len() - k,
    {
        if v[k] == c {
            return k;
        }
        k = k + 1;
    }
    k
}

/// The characters `v[a..b]` as a string.
fn chars_range(v: &Vec<char>, a: usize, b: usize) -> (r: String)
    requires
        a <= b <= v@.len(),
    ensures
        r@ == v@.subrange(a as int, b as int),
{
    let mut part: Vec<char> = Vec::new();
    let mut i: usize = a;
    while i < b
        invariant
            a <= i <= b <= v@.len(),
            part@ =~= v@.subrange(a as int, i as int),
        decreases b - i,
    {
        part.push(v[i]);
        i = i + 1;
    }
    string_from_chars(part.as_slice())
}

/// The text before the first `c` and the text after it, or `None` when `s`
/// holds no `c` (`str::split_once`).
pub fn split_once_char(s: &str, c: char) -> (r: Option<(String, String)>)
    ensures
        span_until(s@, c) == s@.len() ==> r is None,
        span_until(s@, c) < s@.len() ==> (r matches Some((a, b)) && a@ == s@.subrange(
            0,
            span_until(s@, c) as int,
        ) && b@ == s@.subrange(span_until(s@, c) + 1int, s@.len() as int)),
{
    let v = chars_of(s);
    let k = find_char_from(&v, 0, c);
    proof {
        lemma_span_until(s@, c, k as int);
    }
    if k == v.len() {
        return None;
    }
    Some((chars_range(&v, 0, k), chars_range(&v, k + 1, v.len())))
}

/// A line without the carriage return that ended it.
pub open spec fn without_cr(line: Seq<char>) -> Seq<char> {
    if line.len() > 0 && line.last() == '\r' {
        line.drop_last()
    } else {
        line
    }
}

/// The lines of a text as `str::lines` gives them: split after each `\n`,
/// without it and a `\r` before it; a last line without `\n` is kept as is,
/// and the text after a final `\n` is no line.
pub open spec fn text_lines(s: Seq<char>) -> Seq<Seq<char>>
    decreases s.len(),
{
    if s.len() == 0 {
        seq![]
    } else {
        let k = span_until(s, '\n');
        if k >= s.len() {
            seq![s]
        } else {
            seq![without_cr(s.subrange(0, k as int))] + text_lines(s.subrange(k + 1int, s.len() as int))
        }
    }
}

/// The lines of a text (`str::lines`).
pub fn lines_of(s: &str) -> (r: Vec<String>)
    ensures
        views_of(r@) == text_lines(s@),
{
    let v = chars_of(s);
    let n: usize = v.len();
    let mut out: Vec<String> = Vec::new();
    let mut start: usize = 0;
    assert(v@.subrange(0, n as int) =~= s@);
    assert(views_of(out@) =~= Seq::<Seq<char>>::empty());
    while start < n
        invariant
            v@ == s@,
            n == v@.len(),
            start <= n,
            views_of(out@) + text_lines(v@.subrange(start as int, n as int)) == text_lines(s@),
        decreases n - start,
    {
        let k = find_char_from(&v, start, '\n');
        let ghost t = v@.subrange(start as int, n as int);
        let ghost before = out@;
        proof {
            lemma_span_until(t, '\n', k - start);
        }
        let mut end: usize = k;
        if k < n && end > start && v[end - 1] == '\r' {
            end = end - 1;
        }
        let line = chars_range(&v, start, end);
        out.push(line);
        proof {
            assert(views_of(out@) =~= views_of(before).push(line@));
            if k < n {
                let head = t.subrange(0, k - start);
                assert(head =~= v@.subrange(start as int, k as int));
                assert(line@ =~= without_cr(head));
                assert(t.subrange(k - start + 1, t.len() as int) =~= v@.subrange(k + 1, n as int));
            } else {
                assert(line@ =~= t);
                assert(v@.subrange(n as int, n as int) =~= Seq::<char>::empty());
            }
        }
        if k < n {
            start = k + 1;
        } else {
            start = n;
        }
        proof {
            assert(views_of(before) + text_lines(t) =~= views_of(out@) + text_lines(
                v@.subrange(start as int, n as int),
            ));
        }
    }
    assert(v@.subrange(n as int, n as int) =~= Seq::<char>::empty());
    assert(views_of(out@) + text_lines(Seq::<char>::empty()) =~= views_of(out@));
    out
}

// ---------------------------------------------------------------------------
// The order of texts
// ---------------------------------------------------------------------------

/// Whether `a` comes before `b` in the order of `str` and `String`:
/// character by character by code point, a proper prefix first.
pub open spec fn text_before(a: Seq<char>, b: Seq<char>) -> bool
    decreases a.len(),
{
    if b.len() == 0 {
        false
    } else if a.len() == 0 {
        true
    } else if a[0] != b[0] {
        a[0] < b[0]
    } else {
        text_before(a.drop_first(), b.drop_first())
    }
}

/// No text comes before itself.
pub proof fn lemma_text_before_irreflexive(a: Seq<char>)
    ensures
        !text_before(a, a),
    decreases a.len(),
{
    if a.len() > 0 {
        lemma_text_before_irreflexive(a.drop_first());
    }
}

/// The order of texts is transitive.
pub proof fn lemma_text_before_transitive(a: Seq<char>, b: Seq<char>, c: Seq<char>)
    requires
        text_before(a, b),
        text_before(b, c),
    ensures
        text_before(a, c),
    decreases a.len(),
{
    if a.len() > 0 && a[0] == b[0] && b[0] == c[0] {
        lemma_text_before_transitive(a.drop_first(), b.drop_first(), c.drop_first());
    }
}

/// Of two different texts, one comes before the other.
pub proof fn lemma_text_before_total(a: Seq<char>, b: Seq<char>)
    requires
        a != b,
    ensures
        text_before(a, b) || text_before(b, a),
    decreases a.len(),
{
    if a.len() > 0 && b.len() > 0 && a[0] == b[0] {
        if a.drop_first() =~= b.drop_first() {
            assert(a =~= b) by {
                assert forall|i: int| 0 <= i < a.len() implies a[i] == b[i] by {
                    if i > 0 {
                        assert(a[i] == a.drop_first()[i - 1]);
                        assert(b[i] == b.drop_first()[i - 1]);
                    }
                }
            }
        } else {
            lemma_text_before_total(a.drop_first(), b.drop_first());
        }
    } else if a.len() == 0 && b.len() == 0 {
        assert(a =~= b);
    }
}

/// Two texts that agree on their first `i` characters compare as the rest
/// of them do.
proof fn lemma_text_before_common_prefix(a: Seq<char>, b: Seq<char>, i: int)
    requires
        0 <= i <= a.len(),
        i <= b.len(),
        forall|j: int| 0 <= j < i ==> a[j] == b[j],
    ensures
        text_before(a, b) == text_before(a.subrange(i, a.len() as int), b.subrange(i, b.len() as int)),
    decreases i,
{
    if i == 0 {
        assert(a.subrange(0, a.len() as int) =~= a);
        assert(b.subrange(0, b.len() as int) =~= b);
    } else {
        assert(a[0] == b[0]);
        lemma_text_before_common_prefix(a.drop_first(), b.drop_first(), i - 1);
        assert(a.drop_first().subrange(i - 1, a.len() - 1) =~= a.subrange(i, a.len() as int));
        assert(b.drop_first().subrange(i - 1, b.len() - 1) =~= b.subrange(i, b.len() as int));
    }
}

/// Whether `a` comes before `b` (`<` on `str`).
pub fn str_before(a: &str, b: &str) -> (r: bool)
    ensures
        r == text_before(a@, b@),
{
    let va = chars_of(a);
    let vb = chars_of(b);
    let mut i: usize = 0;
    while i < va.len() && i < vb.len()
        invariant
            va@ == a@,
            vb@ == b@,
            i <= va@.len(),
            i <= vb@.len(),
            forall|j: int| 0 <= j < i ==> va@[j] == vb@[j],
        decreases va@.len() - i,
    {
        if va[i] != vb[i] {
            proof {
                lemma_text_before_common_prefix(a@, b@, i as int);
            }
            return va[i] < vb[i];
        }
        i = i + 1;
    }
    proof {
        lemma_text_before_common_prefix(a@, b@, i as int);
    }
    i < vb.len()
}

/// Whether texts stand in the order of `text_before`, equal ones anywhere.
pub open spec fn texts_sorted(s: Seq<String>) -> bool {
    forall|i: int, j: int| 0 <= i < j < s.len() ==> !text_before(#[trigger] s[j]@, #[trigger] s[i]@)
}

/// The index at which `x` goes into sorted `out`: after every text that
/// `x` does not come before.
fn text_insertion_point(out: &Vec<String>, x: &String) -> (p: usize)
    requires
        texts_sorted(out@),
    ensures
        p <= out@.len(),
        forall|i: int| 0 <= i < p ==> !text_before(x@, #[trigger] out@[i]@),
        forall|j: int| p <= j < out@.len() ==> !text_before(#[trigger] out@[j]@, x@),
{
    let mut p: usize = 0;
    while p < out.len()
        invariant
            texts_sorted(out@),
            p <= out@.len(),
            forall|i: int| 0 <= i < p ==> !text_before(x@, #[trigger] out@[i]@),
        decreases out@.len() - p,
    {
        if str_before(x.as_str(), out[p].as_str()) {
            proof {
                assert forall|j: int| p <= j < out@.len() implies !text_before(
                    #[trigger] out@[j]@,
                    x@,
                ) by {
                    if text_before(out@[j]@, x@) {
                        lemma_text_before_transitive(out@[j]@, x@, out@[p as int]@);
                        if j == p {
                            lemma_text_before_irreflexive(out@[j]@);
                        } else {
                            assert(!text_before(out@[j]@, out@[p as int]@));
                        }
                    }
                }
            }
            return p;
        }
        p = p + 1;
    }
    p
}

/// Texts sorted in the order of `str` (`slice::sort` on `String`s).
pub fn sort_texts(texts: &Vec<String>) -> (r: Vec<String>)
    ensures
        r@.to_multiset() == texts@.to_multiset(),
        texts_sorted(r@),
{
    let mut out: Vec<String> = Vec::new();
    let mut i: usize = 0;
    assert(texts@.subrange(0, 0) =~= Seq::<String>::empty());
    while i < texts.len()
        invariant
            i <= texts@.len(),
            out@.to_multiset() == texts@.subrange(0, i as int).to_multiset(),
            texts_sorted(out@),
        decreases texts@.len() - i,
    {
        let x = texts[i].clone();
        let p = text_insertion_point(&out, &x);
        let ghost before = out@;
        out.insert(p, x);
        proof {
            assert(texts@.subrange(0, i + 1) =~= texts@.subrange(0, i as int).push(x));
            vstd::seq_lib::to_multiset_build(texts@.subrange(0, i as int), x);
            vstd::seq_lib::to_multiset_insert(before, p as int, x);
            before.insert_ensures(p as int, x);
            assert forall|a: int, b: int| 0 <= a < b < out@.len() implies !text_before(
                #[trigger] out@[b]@,
                #[trigger] out@[a]@,
            ) by {
                if a < p && b < p {
                } else if a < p && b == p {
                } else if a < p {
                    assert(out@[b] == before[b - 1]);
                } else if a == p {
                    assert(out@[b] == before[b - 1]);
                } else {
                    assert(out@[b] == before[b - 1]);
                    assert(out@[a] == before[a - 1]);
                }
            }
        }
        i = i + 1;
    }
    assert(texts@.subrange(0, texts@.len() as int) =~= texts@);
    out
}

/// Text of bytes decoded as UTF-8 with each invalid sequence replaced by
/// U+FFFD (`String::from_utf8_lossy`).
pub uninterp spec fn utf8_lossy_text(data: Seq<u8>) -> Seq<char>;

/// `String::from_utf8_lossy`.
#[verifier::external_body]
pub(crate) fn utf8_lossy(bytes: &[u8]) -> (r: String)
    ensures
        r@ == utf8_lossy_text(bytes@),
        valid_utf8(bytes@) ==> r@ == decode_utf8(bytes@),
{
    String::from_utf8_lossy(bytes).into_owned()
}

} // verus!
