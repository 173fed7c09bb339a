//! Verified text utilities: whitespace scanning, token extraction, line
//! splitting, trimming, prefix tests and decimal conversion.
//!
//! All specifications are stated over `Seq<char>` views.  "Whitespace" here
//! means the ASCII blank characters, which is what the tool's inputs (output
//! of the version-control tool and of the picker) contain.

use vstd::prelude::*;

verus! {

/// The ASCII whitespace characters used for token and line boundaries.
pub open spec fn is_ws(c: char) -> bool {
    c == ' ' || c == '\t' || c == '\r' || c == '\n'
}

/// Executable test for [`is_ws`].
pub fn is_ws_char(c: char) -> (r: bool)
    ensures
        r == is_ws(c),
{
    c == ' ' || c == '\t' || c == '\r' || c == '\n'
}

/// Index of the first non-whitespace character at or after `i`
/// (`s.len()` if there is none).
pub open spec fn scan_ws(s: Seq<char>, i: nat) -> nat
    decreases s.len() - i,
    when i <= s.len()
{
    if i >= s.len() || !is_ws(s[i as int]) {
        i
    } else {
        scan_ws(s, i + 1)
    }
}

/// Index of the first whitespace character at or after `i`
/// (`s.len()` if there is none).
pub open spec fn scan_token(s: Seq<char>, i: nat) -> nat
    decreases s.len() - i,
    when i <= s.len()
{
    if i >= s.len() || is_ws(s[i as int]) {
        i
    } else {
        scan_token(s, i + 1)
    }
}

/// Index of the first occurrence of `c` at or after `i` (`s.len()` if none).
pub open spec fn find_from(s: Seq<char>, i: nat, c: char) -> nat
    decreases s.len() - i,
    when i <= s.len()
{
    if i >= s.len() || s[i as int] == c {
        i
    } else {
        find_from(s, i + 1, c)
    }
}

pub proof fn lemma_scan_ws(s: Seq<char>, i: nat, j: nat)
    requires
        i <= j <= s.len(),
        forall|k: int| i <= k < j ==> is_ws(s[k]),
        j == s.len() || !is_ws(s[j as int]),
    ensures
        scan_ws(s, i) == j,
    decreases j - i,
{
    if i < j {
        lemma_scan_ws(s, i + 1, j);
    }
}

pub proof fn lemma_scan_token(s: Seq<char>, i: nat, j: nat)
    requires
        i <= j <= s.len(),
        forall|k: int| i <= k < j ==> !is_ws(s[k]),
        j == s.len() || is_ws(s[j as int]),
    ensures
        scan_token(s, i) == j,
    decreases j - i,
{
    if i < j {
        lemma_scan_token(s, i + 1, j);
    }
}

pub proof fn lemma_find_from(s: Seq<char>, i: nat, j: nat, c: char)
    requires
        i <= j <= s.len(),
        forall|k: int| i <= k < j ==> s[k] != c,
        j == s.len() || s[j as int] == c,
    ensures
        find_from(s, i, c) == j,
    decreases j - i,
{
    if i < j {
        lemma_find_from(s, i + 1, j, c);
    }
}

/// The first whitespace-delimited token of `s`: skip leading whitespace, then
/// take characters up to the next whitespace (empty if `s` is all whitespace).
pub open spec fn spec_first_token(s: Seq<char>) -> Seq<char> {
    let a = scan_ws(s, 0);
    let b = scan_token(s, a);
    s.subrange(a as int, b as int)
}

/// Extracts the first whitespace-delimited token of `s`.
pub fn first_token<'a>(s: &'a str) -> (t: &'a str)
    ensures
        t@ == spec_first_token(s@),
{
    let n = s.unicode_len();
    let mut i: usize = 0;
    while i < n && is_ws_char(s.get_char(i))
        invariant
            n == s@.len(),
            i <= n,
            forall|k: int| 0 <= k < i ==> is_ws(s@[k]),
        decreases n - i,
    {
        i = i + 1;
    }
    let mut j: usize = i;
    while j < n && !is_ws_char(s.get_char(j))
        invariant
            n == s@.len(),
            i <= j <= n,
            forall|k: int| i <= k < j ==> !is_ws(s@[k]),
        decreases n - j,
    {
        j = j + 1;
    }
    proof {
        lemma_scan_ws(s@, 0, i as nat);
        lemma_scan_token(s@, i as nat, j as nat);
    }
    s.substring_char(i, j)
}

/// `s` split at every occurrence of `c`: the separators are dropped and
/// `n` separators give `n + 1` parts (possibly empty ones).
pub open spec fn spec_split(s: Seq<char>, c: char) -> Seq<Seq<char>>
    decreases s.len(),
{
    let j = find_from(s, 0, c);
    if j >= s.len() {
        seq![s]
    } else {
        seq![s.subrange(0, j as int)] + spec_split(s.skip(j as int + 1), c)
    }
}

/// Splits `s` at every occurrence of `c`.
pub fn split_char(s: &str, c: char) -> (parts: Vec<String>)
    ensures
        parts@.map_values(|p: String| p@) == spec_split(s@, c),
{
    let n = s.unicode_len();
    let mut parts: Vec<String> = Vec::new();
    let mut start: usize = 0;
    let mut k: usize = 0;
    proof {
        assert(s@.skip(0) =~= s@);
        assert(parts@.map_values(|p: String| p@) + spec_split(s@, c) =~= spec_split(s@, c));
    }
    while k < n
        invariant
            n == s@.len(),
            start <= k <= n,
            forall|m: int| start <= m < k ==> s@[m] != c,
            spec_split(s@, c) == parts@.map_values(|p: String| p@) + spec_split(
                s@.skip(start as int),
                c,
            ),
        decreases n - k,
    {
        if s.get_char(k) == c {
            let piece = s.substring_char(start, k).to_owned();
            proof {
                let t = s@.skip(start as int);
                lemma_find_from(t, 0, (k - start) as nat, c);
                assert(t.subrange(0, k - start) =~= s@.subrange(start as int, k as int));
                assert(t.skip(k - start + 1) =~= s@.skip(k as int + 1));
                assert((parts@.push(piece)).map_values(|p: String| p@) =~= parts@.map_values(
                    |p: String| p@,
                ).push(piece@));
            }
            parts.push(piece);
            start = k + 1;
        }
        k = k + 1;
    }
    let piece = s.substring_char(start, n).to_owned();
    proof {
        let t = s@.skip(start as int);
        lemma_find_from(t, 0, (n - start) as nat, c);
        assert(t =~= s@.subrange(start as int, n as int));
        assert((parts@.push(piece)).map_values(|p: String| p@) =~= parts@.map_values(
            |p: String| p@,
        ).push(piece@));
    }
    parts.push(piece);
    parts
}

/// Index just after the last non-whitespace character of `s.take(i)`.
pub open spec fn scan_ws_rev(s: Seq<char>, i: nat) -> nat
    decreases i,
    when i <= s.len()
{
    if i == 0 || !is_ws(s[i - 1]) {
        i
    } else {
        scan_ws_rev(s, (i - 1) as nat)
    }
}

pub proof fn lemma_scan_ws_rev(s: Seq<char>, i: nat, j: nat)
    requires
        j <= i <= s.len(),
        forall|k: int| j <= k < i ==> is_ws(s[k]),
        j == 0 || !is_ws(s[j - 1]),
    ensures
        scan_ws_rev(s, i) == j,
    decreases i - j,
{
    if j < i {
        lemma_scan_ws_rev(s, (i - 1) as nat, j);
    }
}

/// `s` with trailing whitespace removed.
pub open spec fn spec_trim_end(s: Seq<char>) -> Seq<char> {
    s.take(scan_ws_rev(s, s.len()) as int)
}

/// `s` with leading and trailing whitespace removed.
pub open spec fn spec_trim(s: Seq<char>) -> Seq<char> {
    let t = spec_trim_end(s);
    t.skip(scan_ws(t, 0) as int)
}

/// Removes trailing whitespace.
pub fn trim_end<'a>(s: &'a str) -> (t: &'a str)
    ensures
        t@ == spec_trim_end(s@),
{
    let n = s.unicode_len();
    let mut b: usize = n;
    while b > 0 && is_ws_char(s.get_char(b - 1))
        invariant
            n == s@.len(),
            b <= n,
            forall|k: int| b <= k < n ==> is_ws(s@[k]),
        decreases b,
    {
        b = b - 1;
    }
    proof {
        lemma_scan_ws_rev(s@, n as nat, b as nat);
    }
    s.substring_char(0, b)
}

/// Removes leading and trailing whitespace.
pub fn trim<'a>(s: &'a str) -> (t: &'a str)
    ensures
        t@ == spec_trim(s@),
{
    let e = trim_end(s);
    let n = e.unicode_len();
    let mut a: usize = 0;
    while a < n && is_ws_char(e.get_char(a))
        invariant
            n == e@.len(),
            a <= n,
            forall|k: int| 0 <= k < a ==> is_ws(e@[k]),
        decreases n - a,
    {
        a = a + 1;
    }
    proof {
        lemma_scan_ws(e@, 0, a as nat);
        assert(e@.subrange(a as int, n as int) =~= e@.skip(a as int));
    }
    e.substring_char(a, n)
}

/// `p` is a prefix of `s`.
pub open spec fn spec_starts_with(s: Seq<char>, p: Seq<char>) -> bool {
    p.len() <= s.len() && s.subrange(0, p.len() as int) == p
}

/// Tests whether `s` starts with `p`.
pub fn starts_with(s: &str, p: &str) -> (r: bool)
    ensures
        r == spec_starts_with(s@, p@),
{
    let n = s.unicode_len();
    let m = p.unicode_len();
    if m > n {
        return false;
    }
    let mut k: usize = 0;
    while k < m
        invariant
            n == s@.len(),
            m == p@.len(),
            m <= n,
            k <= m,
            forall|i: int| 0 <= i < k ==> s@[i] == p@[i],
        decreases m - k,
    {
        if s.get_char(k) != p.get_char(k) {
            proof {
                assert(s@.subrange(0, m as int)[k as int] != p@[k as int]);
            }
            return false;
        }
        k = k + 1;
    }
    proof {
        assert(s@.subrange(0, m as int) =~= p@);
    }
    true
}

/// Tests whether two strings have equal views.
pub fn str_eq(a: &str, b: &str) -> (r: bool)
    ensures
        r == (a@ == b@),
{
    let n = a.unicode_len();
    if n != b.unicode_len() {
        return false;
    }
    let mut k: usize = 0;
    while k < n
        invariant
            n == a@.len(),
            n == b@.len(),
            k <= n,
            forall|i: int| 0 <= i < k ==> a@[i] == b@[i],
        decreases n - k,
    {
        if a.get_char(k) != b.get_char(k) {
            return false;
        }
        k = k + 1;
    }
    proof {
        assert(a@ =~= b@);
    }
    true
}

/// `c` is a decimal digit.
pub open spec fn is_digit(c: char) -> bool {
    48 <= c as u32 <= 57
}

/// The numeric value of a decimal digit.
pub open spec fn digit_val(c: char) -> int {
    c as u32 - 48
}

/// Every character of `s` is a decimal digit.
pub open spec fn all_digits(s: Seq<char>) -> bool {
    forall|k: int| 0 <= k < s.len() ==> is_digit(s[k])
}

/// The value of `s` read as a decimal numeral.
pub open spec fn dec_value(s: Seq<char>) -> int
    decreases s.len(),
{
    if s.len() == 0 {
        0
    } else {
        dec_value(s.drop_last()) * 10 + digit_val(s.last())
    }
}

pub proof fn lemma_dec_value_nonneg(s: Seq<char>, i: nat)
    requires
        i <= s.len(),
        forall|k: int| 0 <= k < i ==> is_digit(s[k]),
    ensures
        dec_value(s.take(i as int)) >= 0,
    decreases i,
{
    if i > 0 {
        lemma_dec_value_nonneg(s, (i - 1) as nat);
        assert(s.take(i as int).drop_last() =~= s.take(i - 1));
    }
}

pub proof fn lemma_dec_value_mono(s: Seq<char>, i: nat, j: nat)
    requires
        i <= j <= s.len(),
        forall|k: int| 0 <= k < j ==> is_digit(s[k]),
    ensures
        dec_value(s.take(i as int)) <= dec_value(s.take(j as int)),
    decreases j - i,
{
    if i < j {
        lemma_dec_value_mono(s, i, (j - 1) as nat);
        lemma_dec_value_nonneg(s, (j - 1) as nat);
        assert(s.take(j as int).drop_last() =~= s.take(j - 1));
    }
}

/// `s` is a nonempty digit string whose value fits in `u32`.
pub open spec fn valid_digits(s: Seq<char>) -> bool {
    s.len() > 0 && all_digits(s) && dec_value(s) <= u32::MAX
}

/// `s` without one leading plus sign, the form `u32::from_str` accepts.
pub open spec fn strip_plus(s: Seq<char>) -> Seq<char> {
    if s.len() > 0 && s[0] == '+' {
        s.skip(1)
    } else {
        s
    }
}

/// `s` parses as a `u32`: an optional plus sign, then digits, in range.
pub open spec fn valid_u32_str(s: Seq<char>) -> bool {
    valid_digits(strip_plus(s))
}

/// The value of a string accepted by [`valid_u32_str`].
pub open spec fn u32_str_value(s: Seq<char>) -> int {
    dec_value(strip_plus(s))
}

/// Parses a string of plain decimal digits (no sign) as a `u32`.
pub fn parse_digits(d: &str) -> (r: Option<u32>)
    ensures
        match r {
            Some(v) => valid_digits(d@) && v == dec_value(d@),
            None => !valid_digits(d@),
        },
{
    let n = d.unicode_len();
    if n == 0 {
        return None;
    }
    let mut value: u32 = 0;
    let mut k: usize = 0;
    while k < n
        invariant
            n == d@.len(),
            k <= n,
            forall|i: int| 0 <= i < k ==> is_digit(d@[i]),
            value == dec_value(d@.take(k as int)),
        decreases n - k,
    {
        let c = d.get_char(k);
        let code = c as u32;
        if code < 48 || code > 57 {
            return None;
        }
        let dv = code - 48;
        let wide: u64 = value as u64 * 10 + dv as u64;
        proof {
            assert(d@.take(k as int + 1).drop_last() =~= d@.take(k as int));
        }
        if wide > u32::MAX as u64 {
            proof {
                if all_digits(d@) {
                    lemma_dec_value_mono(d@, (k + 1) as nat, n as nat);
                    assert(d@.take(n as int) =~= d@);
                }
            }
            return None;
        }
        value = wide as u32;
        k = k + 1;
    }
    proof {
        assert(d@.take(n as int) =~= d@);
    }
    Some(value)
}

/// Parses a `u32` the way `u32::from_str` does: optional leading plus sign,
/// then decimal digits; rejects anything else and out-of-range values.
pub fn parse_u32(s: &str) -> (r: Option<u32>)
    ensures
        match r {
            Some(v) => valid_u32_str(s@) && v == u32_str_value(s@),
            None => !valid_u32_str(s@),
        },
{
    let n = s.unicode_len();
    if n > 0 && s.get_char(0) == '+' {
        let d = s.substring_char(1, n);
        proof {
            assert(s@.subrange(1, n as int) =~= s@.skip(1));
        }
        parse_digits(d)
    } else {
        parse_digits(s)
    }
}

/// Whether `pat` occurs in `s` at position `i`.
pub open spec fn spec_matches_at(s: Seq<char>, i: int, pat: Seq<char>) -> bool {
    i + pat.len() <= s.len() && s.subrange(i, i + pat.len() as int) == pat
}

/// Tests whether `pat` occurs in `s` at position `i`.
fn matches_at(s: &str, i: usize, pat: &str) -> (r: bool)
    requires
        i <= s@.len(),
    ensures
        r == spec_matches_at(s@, i as int, pat@),
{
    let n = s.unicode_len();
    let m = pat.unicode_len();
    if m > n - i {
        return false;
    }
    let mut k: usize = 0;
    while k < m
        invariant
            n == s@.len(),
            m == pat@.len(),
            i + m <= n,
            k <= m,
            forall|j: int| 0 <= j < k ==> s@[i + j] == pat@[j],
        decreases m - k,
    {
        if s.get_char(i + k) != pat.get_char(k) {
            proof {
                assert(s@.subrange(i as int, i as int + m as int)[k as int] != pat@[k as int]);
            }
            return false;
        }
        k = k + 1;
    }
    proof {
        assert(s@.subrange(i as int, i as int + m as int) =~= pat@);
    }
    true
}

/// `s` with every occurrence of `pat` replaced by `rep`, scanning left to
/// right without rescanning what was substituted.
pub open spec fn spec_replaced(s: Seq<char>, pat: Seq<char>, rep: Seq<char>) -> Seq<char>
    decreases s.len(),
    when pat.len() > 0
{
    if s.len() == 0 {
        Seq::empty()
    } else if spec_matches_at(s, 0, pat) {
        rep + spec_replaced(s.skip(pat.len() as int), pat, rep)
    } else {
        seq![s[0]] + spec_replaced(s.skip(1), pat, rep)
    }
}

/// Replaces every occurrence of `pat` in `s` by `rep`.
pub fn replace_all(s: &str, pat: &str, rep: &str) -> (r: String)
    requires
        pat@.len() > 0,
    ensures
        r@ == spec_replaced(s@, pat@, rep@),
{
    let n = s.unicode_len();
    let m = pat.unicode_len();
    let mut out = String::new();
    let mut i: usize = 0;
    proof {
        assert(s@.skip(0) =~= s@);
        assert(out@ + spec_replaced(s@, pat@, rep@) =~= spec_replaced(s@, pat@, rep@));
    }
    while i < n
        invariant
            n == s@.len(),
            m == pat@.len(),
            m > 0,
            i <= n,
            spec_replaced(s@, pat@, rep@) == out@ + spec_replaced(s@.skip(i as int), pat@, rep@),
        decreases n - i,
    {
        let ghost t = s@.skip(i as int);
        if matches_at(s, i, pat) {
            proof {
                assert(t.subrange(0, m as int) =~= s@.subrange(i as int, i as int + m as int));
                assert(spec_matches_at(t, 0, pat@));
                assert(t.skip(m as int) =~= s@.skip(i as int + m as int));
            }
            out.append(rep);
            i = i + m;
        } else {
            proof {
                if i + m <= n {
                    assert(t.subrange(0, m as int) =~= s@.subrange(
                        i as int,
                        i as int + m as int,
                    ));
                }
                assert(!spec_matches_at(t, 0, pat@));
                assert(seq![t[0]] =~= s@.subrange(i as int, i as int + 1));
                assert(t.skip(1) =~= s@.skip(i as int + 1));
            }
            out.append(s.substring_char(i, i + 1));
            i = i + 1;
        }
    }
    out
}

/// Relies on std's `String::from_utf8`: it succeeds exactly on valid UTF-8
/// and yields the string of the decoded scalar values.
#[verifier::external_body]
pub(crate) fn string_from_utf8(bytes: Vec<u8>) -> (r: Option<String>)
    ensures
        match r {
            Some(s) => vstd::utf8::valid_utf8(bytes@) && s@ == vstd::utf8::decode_utf8(bytes@),
            None => !vstd::utf8::valid_utf8(bytes@),
        },
{
    String::from_utf8(bytes).ok()
}

/// The character for a single decimal digit.
pub open spec fn digit_char(d: int) -> char {
    if d == 0 {
        '0'
    } else if d == 1 {
        '1'
    } else if d == 2 {
        '2'
    } else if d == 3 {
        '3'
    } else if d == 4 {
        '4'
    } else if d == 5 {
        '5'
    } else if d == 6 {
        '6'
    } else if d == 7 {
        '7'
    } else if d == 8 {
        '8'
    } else {
        '9'
    }
}

/// The decimal numeral for `n`, without leading zeros (just `0` for zero).
pub open spec fn spec_dec_string(n: int) -> Seq<char>
    decreases n,
{
    if n < 10 {
        seq![digit_char(n)]
    } else {
        spec_dec_string(n / 10) + seq![digit_char(n % 10)]
    }
}

fn digit_str(d: u64) -> (r: &'static str)
    requires
        d < 10,
    ensures
        r@ == seq![digit_char(d as int)],
{
    proof {
        reveal_strlit("0");
        reveal_strlit("1");
        reveal_strlit("2");
        reveal_strlit("3");
        reveal_strlit("4");
        reveal_strlit("5");
        reveal_strlit("6");
        reveal_strlit("7");
        reveal_strlit("8");
        reveal_strlit("9");
    }
    if d == 0 {
        "0"
    } else if d == 1 {
        "1"
    } else if d == 2 {
        "2"
    } else if d == 3 {
        "3"
    } else if d == 4 {
        "4"
    } else if d == 5 {
        "5"
    } else if d == 6 {
        "6"
    } else if d == 7 {
        "7"
    } else if d == 8 {
        "8"
    } else {
        "9"
    }
}

/// Renders `n` as a decimal numeral.
pub fn u64_string(n: u64) -> (r: String)
    ensures
        r@ == spec_dec_string(n as int),
    decreases n,
{
    if n < 10 {
        digit_str(n).to_owned()
    } else {
        let mut r = u64_string(n / 10);
        r.append(digit_str(n % 10));
        r
    }
}

} // verus!
