//! Character-level utilities the parser and the exposition formatter are
//! built on: whitespace trimming, separator splitting, digit-string parsing,
//! substring search, prefix/suffix tests, label escaping, and decimal
//! rendering of integers. Every executable function carries a contract over
//! the character sequences involved.

use vstd::prelude::*;

verus! {

// ---------------------------------------------------------------------------
// Character classes
// ---------------------------------------------------------------------------

/// Whitespace as this crate trims it: space, tab, carriage return, newline.
pub open spec fn is_ws_char(c: char) -> bool {
    c == ' ' || c == '\t' || c == '\r' || c == '\n'
}

pub open spec fn is_digit_char(c: char) -> bool {
    48 <= c as u32 && c as u32 <= 57
}

/// Numeric value of a decimal digit character.
pub open spec fn digit_value(c: char) -> nat
    recommends
        is_digit_char(c),
{
    (c as u32 - 48) as nat
}

fn ws_char(c: char) -> (b: bool)
    ensures
        b == is_ws_char(c),
{
    c == ' ' || c == '\t' || c == '\r' || c == '\n'
}

// ---------------------------------------------------------------------------
// Trimming
// ---------------------------------------------------------------------------

pub open spec fn trim_start_spec(s: Seq<char>) -> Seq<char>
    decreases s.len(),
{
    if s.len() > 0 && is_ws_char(s[0]) {
        trim_start_spec(s.drop_first())
    } else {
        s
    }
}

pub open spec fn trim_end_spec(s: Seq<char>) -> Seq<char>
    decreases s.len(),
{
    if s.len() > 0 && is_ws_char(s[s.len() - 1]) {
        trim_end_spec(s.drop_last())
    } else {
        s
    }
}

/// A sequence with leading and trailing whitespace removed.
pub open spec fn trim_spec(s: Seq<char>) -> Seq<char> {
    trim_end_spec(trim_start_spec(s))
}

proof fn lemma_trim_start_index(s: Seq<char>, i: int)
    requires
        0 <= i <= s.len(),
        forall|k: int| 0 <= k < i ==> is_ws_char(s[k]),
        i < s.len() ==> !is_ws_char(s[i]),
    ensures
        trim_start_spec(s) == s.subrange(i, s.len() as int),
    decreases i,
{
    if i == 0 {
        assert(s.subrange(0, s.len() as int) =~= s);
    } else {
        assert(is_ws_char(s[0]));
        let t = s.drop_first();
        assert(forall|k: int| 0 <= k < i - 1 ==> is_ws_char(t[k]));
        lemma_trim_start_index(t, i - 1);
        assert(t.subrange(i - 1, t.len() as int) =~= s.subrange(i, s.len() as int));
    }
}

proof fn lemma_trim_end_index(s: Seq<char>, j: int)
    requires
        0 <= j <= s.len(),
        forall|k: int| j <= k < s.len() ==> is_ws_char(s[k]),
        j > 0 ==> !is_ws_char(s[j - 1]),
    ensures
        trim_end_spec(s) == s.subrange(0, j),
    decreases s.len() - j,
{
    if j == s.len() {
        assert(s.subrange(0, s.len() as int) =~= s);
    } else {
        assert(is_ws_char(s[s.len() - 1]));
        let t = s.drop_last();
        assert(forall|k: int| j <= k < t.len() ==> is_ws_char(t[k]));
        lemma_trim_end_index(t, j);
        assert(t.subrange(0, j) =~= s.subrange(0, j));
    }
}

/// Returns `s` with leading and trailing whitespace removed.
pub fn trim(s: &str) -> (r: &str)
    ensures
        r@ == trim_spec(s@),
{
    let n = s.unicode_len();
    let mut i: usize = 0;
    while i < n && ws_char(s.get_char(i))
        invariant
            0 <= i <= n,
            forall|k: int| 0 <= k < i ==> is_ws_char(s@[k]),
        decreases n - i,
    {
        i = i + 1;
    }
    let mut j: usize = n;
    while j > i && ws_char(s.get_char(j - 1))
        invariant
            i <= j <= n,
            forall|k: int| j <= k < n ==> is_ws_char(s@[k]),
        decreases j,
    {
        j = j - 1;
    }
    let r = s.substring_char(i, j);
    proof {
        lemma_trim_start_index(s@, i as int);
        let mid = s@.subrange(i as int, n as int);
        lemma_trim_end_index(mid, j - i);
        assert(mid.subrange(0, j - i) =~= s@.subrange(i as int, j as int));
    }
    r
}

// ---------------------------------------------------------------------------
// Splitting on a separator
// ---------------------------------------------------------------------------

/// Index of the first occurrence of `sep` in `s`, or `s.len()` if absent.
pub open spec fn first_index(s: Seq<char>, sep: char) -> int
    decreases s.len(),
{
    if s.len() == 0 {
        0
    } else if s[0] == sep {
        0
    } else {
        1 + first_index(s.drop_first(), sep)
    }
}

proof fn lemma_first_index_is(s: Seq<char>, sep: char, i: int)
    requires
        0 <= i <= s.len(),
        forall|k: int| 0 <= k < i ==> s[k] != sep,
        i < s.len() ==> s[i] == sep,
        i == s.len() ==> forall|k: int| 0 <= k < s.len() ==> s[k] != sep,
    ensures
        first_index(s, sep) == i,
    decreases i,
{
    if i == 0 {
    } else {
        let t = s.drop_first();
        assert(forall|k: int| 0 <= k < i - 1 ==> t[k] != sep);
        lemma_first_index_is(t, sep, i - 1);
    }
}

/// The segments of `s` between occurrences of `sep`; one more segment than
/// there are separators, so never empty.
pub open spec fn split_spec(s: Seq<char>, sep: char) -> Seq<Seq<char>>
    decreases s.len(),
{
    let i = first_index_bounded(s, sep);
    if i == s.len() as int {
        seq![s]
    } else {
        seq![s.subrange(0, i)] + split_spec(s.subrange(i + 1, s.len() as int), sep)
    }
}

/// `first_index`, clipped into range so that `split_spec` terminates.
pub open spec fn first_index_bounded(s: Seq<char>, sep: char) -> int {
    let i = first_index(s, sep);
    if 0 <= i <= s.len() {
        i
    } else {
        s.len() as int
    }
}

proof fn lemma_split_step(s: Seq<char>, sep: char, i: int)
    requires
        0 <= i < s.len(),
        s[i] == sep,
        forall|k: int| 0 <= k < i ==> s[k] != sep,
    ensures
        split_spec(s, sep) == seq![s.subrange(0, i)] + split_spec(
            s.subrange(i + 1, s.len() as int),
            sep,
        ),
{
    lemma_first_index_is(s, sep, i);
}

pub proof fn lemma_split_whole(s: Seq<char>, sep: char)
    requires
        forall|k: int| 0 <= k < s.len() ==> s[k] != sep,
    ensures
        split_spec(s, sep) == seq![s],
{
    lemma_first_index_is(s, sep, s.len() as int);
}

/// Splits `s` at every occurrence of `sep`.
pub fn split_str(s: &str, sep: char) -> (parts: Vec<String>)
    ensures
        parts.deep_view() == split_spec(s@, sep),
{
    let n = s.unicode_len();
    let mut parts: Vec<String> = Vec::new();
    let mut start: usize = 0;
    let mut i: usize = 0;
    proof {
        assert(s@.subrange(0, n as int) =~= s@);
        assert(parts.deep_view() + split_spec(s@, sep) =~= split_spec(s@, sep));
    }
    while i < n
        invariant
            0 <= start <= i <= n,
            n == s@.len(),
            forall|k: int| start <= k < i ==> s@[k] != sep,
            split_spec(s@, sep) == parts.deep_view() + split_spec(
                s@.subrange(start as int, n as int),
                sep,
            ),
        decreases n - i,
    {
        if s.get_char(i) == sep {
            let ghost old_dv = parts.deep_view();
            let piece = s.substring_char(start, i);
            parts.push(String::from_str(piece));
            proof {
                let rest = s@.subrange(start as int, n as int);
                assert(forall|k: int| 0 <= k < i - start ==> rest[k] != sep);
                assert(rest[i - start] == sep);
                lemma_split_step(rest, sep, i - start);
                assert(rest.subrange(0, i - start) =~= s@.subrange(start as int, i as int));
                assert(rest.subrange(i - start + 1, rest.len() as int) =~= s@.subrange(
                    i as int + 1,
                    n as int,
                ));
                assert(parts.deep_view() =~= old_dv.push(piece@));
                assert(old_dv + (seq![s@.subrange(start as int, i as int)] + split_spec(
                    s@.subrange(i as int + 1, n as int),
                    sep,
                )) =~= parts.deep_view() + split_spec(s@.subrange(i as int + 1, n as int), sep));
            }
            start = i + 1;
        }
        i = i + 1;
    }
    let ghost old_dv = parts.deep_view();
    let piece = s.substring_char(start, n);
    parts.push(String::from_str(piece));
    proof {
        let rest = s@.subrange(start as int, n as int);
        assert(forall|k: int| 0 <= k < rest.len() ==> rest[k] != sep);
        lemma_split_whole(rest, sep);
        assert(parts.deep_view() =~= old_dv.push(piece@));
        assert(old_dv + seq![rest] =~= parts.deep_view());
    }
    parts
}

// ---------------------------------------------------------------------------
// Digit strings as unsigned integers
// ---------------------------------------------------------------------------

pub open spec fn all_digits(s: Seq<char>) -> bool {
    forall|k: int| 0 <= k < s.len() ==> is_digit_char(s[k])
}

/// The numeric value of a digit string, most significant digit first.
pub open spec fn digits_value(s: Seq<char>) -> nat
    decreases s.len(),
{
    if s.len() == 0 {
        0
    } else {
        digits_value(s.drop_last()) * 10 + digit_value(s.last())
    }
}

/// Whether a whole character sequence parses as an unsigned integer no
/// greater than `bound`: nonempty, digits only, value in range.
pub open spec fn parses_as_u64(s: Seq<char>, bound: nat) -> bool {
    s.len() > 0 && all_digits(s) && digits_value(s) <= bound
}

proof fn lemma_digits_prefix_le(s: Seq<char>, i: int, j: int)
    requires
        0 <= i <= j <= s.len(),
    ensures
        digits_value(s.subrange(0, i)) <= digits_value(s.subrange(0, j)),
    decreases j - i,
{
    if i < j {
        lemma_digits_prefix_le(s, i, j - 1);
        let t = s.subrange(0, j);
        assert(t.drop_last() =~= s.subrange(0, j - 1));
        let v = digits_value(s.subrange(0, j - 1));
        assert(v <= v * 10) by (nonlinear_arith);
    }
}

/// Parses the whole of `s` as a decimal `u64`; `None` on empty input, any
/// non-digit character, or overflow.
pub fn parse_u64(s: &str) -> (r: Option<u64>)
    ensures
        match r {
            Some(v) => parses_as_u64(s@, u64::MAX as nat) && v == digits_value(s@),
            None => !parses_as_u64(s@, u64::MAX as nat),
        },
{
    let n = s.unicode_len();
    if n == 0 {
        return None;
    }
    let mut acc: u64 = 0;
    let mut i: usize = 0;
    proof {
        assert(s@.subrange(0, 0) =~= Seq::<char>::empty());
    }
    while i < n
        invariant
            0 <= i <= n,
            n == s@.len(),
            all_digits(s@.subrange(0, i as int)),
            acc == digits_value(s@.subrange(0, i as int)),
        decreases n - i,
    {
        let c = s.get_char(i);
        let u = c as u32;
        if u < 48 || u > 57 {
            return None;
        }
        let d = (u - 48) as u64;
        let ghost pre = s@.subrange(0, i as int);
        let ghost cur = s@.subrange(0, i as int + 1);
        proof {
            assert(cur.drop_last() =~= pre);
            assert(cur.last() == s@[i as int]);
        }
        if acc > (u64::MAX - d) / 10 {
            proof {
                assert(acc * 10 + d > u64::MAX) by (nonlinear_arith)
                    requires
                        acc > (u64::MAX - d) / 10,
                        d <= 9,
                ;
                lemma_digits_prefix_le(s@, i as int + 1, n as int);
                assert(s@.subrange(0, n as int) =~= s@);
            }
            return None;
        }
        proof {
            assert(acc * 10 + d <= u64::MAX) by (nonlinear_arith)
                requires
                    acc <= (u64::MAX - d) / 10,
                    d <= 9,
            ;
        }
        acc = acc * 10 + d;
        i = i + 1;
    }
    proof {
        assert(s@.subrange(0, n as int) =~= s@);
    }
    Some(acc)
}

/// Parses the whole of `s` as a decimal `u32`; `None` on empty input, any
/// non-digit character, or overflow.
pub fn parse_u32(s: &str) -> (r: Option<u32>)
    ensures
        match r {
            Some(v) => parses_as_u64(s@, u32::MAX as nat) && v == digits_value(s@),
            None => !parses_as_u64(s@, u32::MAX as nat),
        },
{
    match parse_u64(s) {
        Some(v) => {
            if v <= u32::MAX as u64 {
                Some(v as u32)
            } else {
                None
            }
        },
        None => None,
    }
}

// ---------------------------------------------------------------------------
// Substring and prefix/suffix tests
// ---------------------------------------------------------------------------

pub open spec fn contains_seq(s: Seq<char>, pat: Seq<char>) -> bool {
    exists|i: int|
        0 <= i && i + pat.len() <= s.len() && #[trigger] s.subrange(i, i + pat.len() as int)
            == pat
}

pub open spec fn contains_char(s: Seq<char>, c: char) -> bool {
    exists|i: int| 0 <= i < s.len() && s[i] == c
}

pub open spec fn starts_with_spec(s: Seq<char>, p: Seq<char>) -> bool {
    p.len() <= s.len() && s.subrange(0, p.len() as int) == p
}

pub open spec fn ends_with_spec(s: Seq<char>, p: Seq<char>) -> bool {
    p.len() <= s.len() && s.subrange(s.len() - p.len(), s.len() as int) == p
}

/// Whether the characters of `pat` occur contiguously anywhere in `s`.
pub fn contains_str(s: &str, pat: &str) -> (b: bool)
    ensures
        b == contains_seq(s@, pat@),
{
    let n = s.unicode_len();
    let m = pat.unicode_len();
    if m > n {
        return false;
    }
    let limit = n - m;
    let mut i: usize = 0;
    while i < limit
        invariant
            m <= n,
            n == s@.len(),
            m == pat@.len(),
            limit == n - m,
            0 <= i <= limit,
            forall|k: int| 0 <= k < i ==> #[trigger] s@.subrange(k, k + m as int) != pat@,
        decreases limit - i,
    {
        if match_at(s, pat, i) {
            return true;
        }
        i = i + 1;
    }
    if match_at(s, pat, limit) {
        return true;
    }
    proof {
        assert(forall|k: int| 0 <= k && k + m <= n ==> #[trigger] s@.subrange(k, k + m as int)
            != pat@);
    }
    false
}

/// Whether `pat` occurs in `s` starting at position `at`.
fn match_at(s: &str, pat: &str, at: usize) -> (b: bool)
    requires
        at + pat@.len() <= s@.len(),
        s@.len() <= usize::MAX,
    ensures
        b == (s@.subrange(at as int, at as int + pat@.len() as int) == pat@),
{
    let m = pat.unicode_len();
    let mut j: usize = 0;
    while j < m
        invariant
            at + m <= s@.len(),
            m == pat@.len(),
            0 <= j <= m,
            forall|k: int| 0 <= k < j ==> s@[at as int + k] == pat@[k],
        decreases m - j,
    {
        if s.get_char(at + j) != pat.get_char(j) {
            proof {
                assert(s@.subrange(at as int, at as int + m as int)[j as int] != pat@[j as int]);
            }
            return false;
        }
        j = j + 1;
    }
    proof {
        assert(s@.subrange(at as int, at as int + m as int) =~= pat@);
    }
    true
}

/// Whether the character `c` occurs in `s`.
pub fn contains_one(s: &str, c: char) -> (b: bool)
    ensures
        b == contains_char(s@, c),
{
    let n = s.unicode_len();
    let mut i: usize = 0;
    while i < n
        invariant
            n == s@.len(),
            0 <= i <= n,
            forall|k: int| 0 <= k < i ==> s@[k] != c,
        decreases n - i,
    {
        if s.get_char(i) == c {
            return true;
        }
        i = i + 1;
    }
    false
}

/// Whether `s` begins with `p`.
pub fn starts_with(s: &str, p: &str) -> (b: bool)
    ensures
        b == starts_with_spec(s@, p@),
{
    let n = s.unicode_len();
    let m = p.unicode_len();
    if m > n {
        return false;
    }
    match_at(s, p, 0)
}

/// Returns `s` without the suffix `p`, or `None` if `s` does not end in `p`.
pub fn strip_suffix<'a>(s: &'a str, p: &str) -> (r: Option<&'a str>)
    ensures
        match r {
            Some(t) => ends_with_spec(s@, p@) && t@ == s@.subrange(0, s@.len() - p@.len()),
            None => !ends_with_spec(s@, p@),
        },
{
    let n = s.unicode_len();
    let m = p.unicode_len();
    if m > n {
        return None;
    }
    if match_at(s, p, n - m) {
        Some(s.substring_char(0, n - m))
    } else {
        None
    }
}

/// Returns `s` without the prefix `p`, or `None` if `s` does not begin
/// with `p`.
pub fn strip_prefix<'a>(s: &'a str, p: &str) -> (r: Option<&'a str>)
    ensures
        match r {
            Some(t) => starts_with_spec(s@, p@) && t@ == s@.subrange(p@.len() as int, s@.len() as int),
            None => !starts_with_spec(s@, p@),
        },
{
    let n = s.unicode_len();
    let m = p.unicode_len();
    if m > n {
        return None;
    }
    if match_at(s, p, 0) {
        Some(s.substring_char(m, n))
    } else {
        None
    }
}

/// Position of the first occurrence of `c` in `s`, or the length of `s` if
/// `c` does not occur.
pub fn find_char(s: &str, c: char) -> (i: usize)
    ensures
        i as int == first_index_bounded(s@, c),
        i <= s@.len(),
        i < s@.len() ==> s@[i as int] == c,
        forall|k: int| 0 <= k < i ==> s@[k] != c,
{
    let n = s.unicode_len();
    let mut i: usize = 0;
    while i < n
        invariant
            n == s@.len(),
            0 <= i <= n,
            forall|k: int| 0 <= k < i ==> s@[k] != c,
        decreases n - i,
    {
        if s.get_char(i) == c {
            proof {
                lemma_first_index_is(s@, c, i as int);
            }
            return i;
        }
        i = i + 1;
    }
    proof {
        lemma_first_index_is(s@, c, n as int);
    }
    n
}

/// Whether every character of `s` is a decimal digit (true for the empty
/// string).
pub fn is_all_digits(s: &str) -> (b: bool)
    ensures
        b == all_digits(s@),
{
    let n = s.unicode_len();
    let mut i: usize = 0;
    while i < n
        invariant
            n == s@.len(),
            0 <= i <= n,
            forall|k: int| 0 <= k < i ==> is_digit_char(s@[k]),
        decreases n - i,
    {
        let u = s.get_char(i) as u32;
        if u < 48 || u > 57 {
            return false;
        }
        i = i + 1;
    }
    true
}

// ---------------------------------------------------------------------------
// Counting occurrences
// ---------------------------------------------------------------------------

/// How often the character `c` occurs in `s`.
pub open spec fn count_char(s: Seq<char>, c: char) -> nat
    decreases s.len(),
{
    if s.len() == 0 {
        0
    } else {
        count_char(s.drop_last(), c) + (if s.last() == c {
            1 as nat
        } else {
            0 as nat
        })
    }
}

/// Whether `c` occurs nowhere in `s`.
pub open spec fn has_no_char(s: Seq<char>, c: char) -> bool {
    forall|i: int| 0 <= i < s.len() ==> s[i] != c
}

/// Occurrences in laid-end-to-end text are the occurrences in the parts.
pub proof fn lemma_count_char_concat(a: Seq<char>, b: Seq<char>, c: char)
    ensures
        count_char(a + b, c) == count_char(a, c) + count_char(b, c),
    decreases b.len(),
{
    if b.len() == 0 {
        assert(a + b =~= a);
    } else {
        assert((a + b).drop_last() =~= a + b.drop_last());
        assert((a + b).last() == b.last());
        lemma_count_char_concat(a, b.drop_last(), c);
    }
}

/// Text without the character counts zero of it.
pub proof fn lemma_count_char_absent(s: Seq<char>, c: char)
    requires
        has_no_char(s, c),
    ensures
        count_char(s, c) == 0,
    decreases s.len(),
{
    if s.len() > 0 {
        lemma_count_char_absent(s.drop_last(), c);
    }
}

// ---------------------------------------------------------------------------
// Decimal rendering
// ---------------------------------------------------------------------------

pub open spec fn digit_char(d: nat) -> char {
    if d == 0 {
        '0'
    } else if d == 1 {
        '1'
    } else if d == 2 {
        '2'
    } else if d == 3 {
        '3'
    } else if d == 4 {
        '4'
    } else if d == 5 {
        '5'
    } else if d == 6 {
        '6'
    } else if d == 7 {
        '7'
    } else if d == 8 {
        '8'
    } else {
        '9'
    }
}

/// The usual decimal numeral of `n`, most significant digit first, no sign,
/// no leading zeros (a single zero for 0).
pub open spec fn dec_spec(n: nat) -> Seq<char>
    decreases n,
{
    if n < 10 {
        seq![digit_char(n)]
    } else {
        dec_spec(n / 10).push(digit_char(n % 10))
    }
}

fn digit_str(d: u64) -> (r: &'static str)
    requires
        d < 10,
    ensures
        r@ =~= seq![digit_char(d as nat)],
{
    proof {
        reveal_strlit("0");
        reveal_strlit("1");
        reveal_strlit("2");
        reveal_strlit("3");
        reveal_strlit("4");
        reveal_strlit("5");
        reveal_strlit("6");
        reveal_strlit("7");
        reveal_strlit("8");
        reveal_strlit("9");
    }
    if d == 0 {
        "0"
    } else if d == 1 {
        "1"
    } else if d == 2 {
        "2"
    } else if d == 3 {
        "3"
    } else if d == 4 {
        "4"
    } else if d == 5 {
        "5"
    } else if d == 6 {
        "6"
    } else if d == 7 {
        "7"
    } else if d == 8 {
        "8"
    } else {
        "9"
    }
}

/// Renders `v` as its decimal numeral.
pub fn u64_to_dec(v: u64) -> (r: String)
    ensures
        r@ == dec_spec(v as nat),
    decreases v,
{
    if v < 10 {
        String::from_str(digit_str(v))
    } else {
        let mut s = u64_to_dec(v / 10);
        s.append(digit_str(v % 10));
        proof {
            assert(dec_spec((v / 10) as nat) + seq![digit_char((v % 10) as nat)] =~= dec_spec(
                (v / 10) as nat,
            ).push(digit_char((v % 10) as nat)));
        }
        s
    }
}

/// The decimal rendering of a value held in hundredths: the whole part,
/// a dot, and exactly two fractional digits.
pub open spec fn centi_spec(v: nat) -> Seq<char> {
    dec_spec(v / 100) + seq!['.', digit_char((v % 100) / 10), digit_char(v % 10)]
}

/// Renders a value held in hundredths with two digits after the dot.
pub fn centi_to_dec(v: u64) -> (r: String)
    ensures
        r@ == centi_spec(v as nat),
{
    let mut s = u64_to_dec(v / 100);
    s.append(".");
    s.append(digit_str((v % 100) / 10));
    s.append(digit_str(v % 10));
    proof {
        reveal_strlit(".");
        assert((v % 100) / 10 < 10);
        assert(dec_spec((v / 100) as nat) + "."@ + seq![digit_char((((v % 100) / 10)) as nat)]
            + seq![digit_char((v % 10) as nat)] =~= centi_spec(v as nat));
    }
    s
}

// ---------------------------------------------------------------------------
// Label escaping
// ---------------------------------------------------------------------------

/// How one character is written inside a quoted Prometheus label value:
/// backslash, double quote and newline get a backslash escape, everything
/// else stands for itself.
pub open spec fn escape_char_spec(c: char) -> Seq<char> {
    if c == '\\' {
        seq!['\\', '\\']
    } else if c == '"' {
        seq!['\\', '"']
    } else if c == '\n' {
        seq!['\\', 'n']
    } else {
        seq![c]
    }
}

/// A character sequence with every label-special character escaped.
pub open spec fn escape_spec(s: Seq<char>) -> Seq<char>
    decreases s.len(),
{
    if s.len() == 0 {
        Seq::empty()
    } else {
        escape_spec(s.drop_last()) + escape_char_spec(s.last())
    }
}

/// Escapes backslash, double quote and newline for use inside a quoted
/// Prometheus label value.
pub fn escape_label_value(s: &str) -> (r: String)
    ensures
        r@ == escape_spec(s@),
{
    let n = s.unicode_len();
    let mut r = String::new();
    let mut i: usize = 0;
    proof {
        assert(s@.subrange(0, 0) =~= Seq::<char>::empty());
    }
    while i < n
        invariant
            n == s@.len(),
            0 <= i <= n,
            r@ == escape_spec(s@.subrange(0, i as int)),
        decreases n - i,
    {
        let c = s.get_char(i);
        if c == '\\' {
            r.append("\\\\");
            proof {
                reveal_strlit("\\\\");
                assert("\\\\"@ =~= escape_char_spec(c));
            }
        } else if c == '"' {
            r.append("\\\"");
            proof {
                reveal_strlit("\\\"");
                assert("\\\""@ =~= escape_char_spec(c));
            }
        } else if c == '\n' {
            r.append("\\n");
            proof {
                reveal_strlit("\\n");
                assert("\\n"@ =~= escape_char_spec(c));
            }
        } else {
            let one = s.substring_char(i, i + 1);
            r.append(one);
            proof {
                assert(one@ =~= escape_char_spec(c));
            }
        }
        proof {
            let cur = s@.subrange(0, i as int + 1);
            assert(cur.drop_last() =~= s@.subrange(0, i as int));
            assert(cur.last() == s@[i as int]);
        }
        i = i + 1;
    }
    proof {
        assert(s@.subrange(0, n as int) =~= s@);
    }
    r
}

} // verus!

