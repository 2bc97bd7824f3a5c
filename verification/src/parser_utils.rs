//! Shared text primitives for the two grammars: byte classification,
//! keyword matching, whitespace runs, line recognition, digit runs and
//! exact-decimal numbers.
//!
//! All parsing works on ASCII byte slices.  A specification-level parser
//! (`spec_...`) defines each recognized form as a mathematical function of
//! the input sequence; the executable parser is proved to return exactly
//! what the specification says.  Positions are byte offsets; every parser
//! takes a start offset `i` and a bound `end` and never looks outside
//! `[i, end)`.
use vstd::prelude::*;

verus! {

use vstd::string::StringSliceAdditionalSpecFns;

/// ASCII whitespace: space, tab, line feed, vertical tab, form feed,
/// carriage return.
pub open spec fn is_ws(b: u8) -> bool {
    b == 32 || (9 <= b && b <= 13)
}

/// ASCII decimal digit.
pub open spec fn is_digit(b: u8) -> bool {
    48 <= b && b <= 57
}

/// ASCII letter.
pub open spec fn is_alpha(b: u8) -> bool {
    (65 <= b && b <= 90) || (97 <= b && b <= 122)
}

/// A byte allowed in a station name: ASCII alphanumerics, `_`, `-`, `'`, `*`.
pub open spec fn is_name_byte(b: u8) -> bool {
    is_digit(b) || is_alpha(b) || b == 95 || b == 45 || b == 39 || b == 42
}

/// Carriage return or line feed.
pub open spec fn is_line_break(b: u8) -> bool {
    b == 10 || b == 13
}

/// A character allowed in a station name: ASCII alphanumerics, `_`, `-`,
/// `'`, `*`.
pub open spec fn is_station_name_char(c: char) -> bool {
    (c as u32) < 128 && is_name_byte((c as u32) as u8)
}

/// Whether `c` may appear in a station name.
pub fn is_valid_station_name_char(c: char) -> (r: bool)
    ensures
        r == is_station_name_char(c),
{
    let n: u32 = c as u32;
    n < 128 && (48 <= n && n <= 57 || 65 <= n && n <= 90 || 97 <= n && n <= 122 || n == 95
        || n == 45 || n == 39 || n == 42)
}

/// The bytes of an ASCII character sequence.
pub open spec fn lit_bytes(cs: Seq<char>) -> Seq<u8> {
    Seq::new(cs.len(), |i: int| cs[i] as u8)
}

/// `tok` occurs in `s` starting at offset `i`.
pub open spec fn matches_at(s: Seq<u8>, i: int, tok: Seq<u8>) -> bool {
    0 <= i && i + tok.len() <= s.len() && s.subrange(i, i + tok.len()) == tok
}

/// Whether the ASCII keyword `tok` occurs in `s` at offset `i`.
pub fn match_tag(s: &[u8], i: usize, tok: &str) -> (r: bool)
    requires
        vstd::string::is_ascii(tok),
        i <= s@.len(),
    ensures
        r == matches_at(s@, i as int, lit_bytes(tok@)),
{
    proof {
        vstd::string::is_ascii_spec_bytes(tok);
    }
    let tb: &[u8] = tok.as_bytes();
    assert(tb@ =~= lit_bytes(tok@));
    let slen: usize = s.len();
    if slen - i < tb.len() {
        return false;
    }
    let mut j: usize = 0;
    while j < tb.len()
        invariant
            0 <= j <= tb.len(),
            slen == s@.len(),
            i + tb.len() <= slen,
            tb@ == lit_bytes(tok@),
            forall|k: int| 0 <= k < j ==> s@[i + k] == tb@[k],
        decreases tb.len() - j,
    {
        if s[i + j] != tb[j] {
            return false;
        }
        j += 1;
    }
    proof {
        assert(s@.subrange(i as int, i + tb@.len()) =~= tb@);
    }
    true
}

/// A match of a concatenation splits into matches of its parts.
pub proof fn lemma_split_match(s: Seq<u8>, i: int, a: Seq<u8>, b: Seq<u8>)
    requires
        matches_at(s, i, a + b),
    ensures
        matches_at(s, i, a),
        matches_at(s, i + a.len(), b),
{
    let ab = a + b;
    assert forall|t: int| 0 <= t < a.len() implies s.subrange(i, i + a.len())[t] == a[t] by {
        assert(s.subrange(i, i + ab.len())[t] == ab[t]);
        assert(s.subrange(i, i + ab.len())[t] == s[i + t]);
        assert(ab[t] == a[t]);
        assert(s.subrange(i, i + a.len())[t] == s[i + t]);
    }
    assert(s.subrange(i, i + a.len()) =~= a);
    assert forall|t: int| 0 <= t < b.len() implies s.subrange(
        i + a.len(),
        i + a.len() + b.len(),
    )[t] == b[t] by {
        assert(s.subrange(i, i + ab.len())[a.len() + t] == ab[a.len() + t]);
        assert(s.subrange(i, i + ab.len())[a.len() + t] == s[i + a.len() + t]);
        assert(ab[a.len() + t] == b[t]);
        assert(s.subrange(i + a.len(), i + a.len() + b.len())[t] == s[i + a.len() + t]);
    }
    assert(s.subrange(i + a.len(), i + a.len() + b.len()) =~= b);
}

/// Every byte of a match is the matched token's byte.
pub proof fn lemma_match_bytes(s: Seq<u8>, i: int, tok: Seq<u8>)
    requires
        matches_at(s, i, tok),
    ensures
        forall|t: int| 0 <= t < tok.len() ==> s[i + t] == #[trigger] tok[t],
{
    assert forall|t: int| 0 <= t < tok.len() implies s[i + t] == #[trigger] tok[t] by {
        assert(s.subrange(i, i + tok.len())[t] == tok[t]);
        assert(s.subrange(i, i + tok.len())[t] == s[i + t]);
    }
}

/// Two byte sequences that differ at index `t` cannot both occur at the
/// same offset.
pub proof fn lemma_mismatch_at(s: Seq<u8>, i: int, n1: Seq<u8>, n2: Seq<u8>, t: int)
    requires
        matches_at(s, i, n1),
        0 <= t < n1.len(),
        t < n2.len(),
        n1[t] != n2[t],
    ensures
        !matches_at(s, i, n2),
{
    assert(s.subrange(i, i + n1.len())[t] == s[i + t]);
    if matches_at(s, i, n2) {
        assert(s.subrange(i, i + n2.len())[t] == s[i + t]);
    }
}

/// The byte length of an ASCII keyword.
pub fn tag_len(tok: &str) -> (n: usize)
    requires
        vstd::string::is_ascii(tok),
    ensures
        n == lit_bytes(tok@).len(),
{
    proof {
        vstd::string::is_ascii_spec_bytes(tok);
    }
    let tb: &[u8] = tok.as_bytes();
    assert(tb@ =~= lit_bytes(tok@));
    tb.len()
}

/// Recognize the ASCII keyword `tok` at offset `i` and step past it.
pub fn expect_tag(s: &[u8], i: usize, tok: &str) -> (r: Option<usize>)
    requires
        vstd::string::is_ascii(tok),
        i <= s@.len(),
    ensures
        (match r {
            Some(n) => matches_at(s@, i as int, lit_bytes(tok@)) && n == i + lit_bytes(
                tok@,
            ).len() && i <= n <= s@.len(),
            None => !matches_at(s@, i as int, lit_bytes(tok@)),
        }),
{
    if match_tag(s, i, tok) {
        let tl = tag_len(tok);
        let slen: usize = s.len();
        assert(i + tl <= slen);
        Some(i + tl)
    } else {
        None
    }
}

/// First offset at or after `i`, bounded by `end`, holding a byte that is
/// not whitespace.
pub open spec fn spec_skip_ws(s: Seq<u8>, i: int, end: int) -> int
    decreases end - i,
{
    if 0 <= i && i < end && end <= s.len() && is_ws(s[i]) {
        spec_skip_ws(s, i + 1, end)
    } else {
        i
    }
}

pub proof fn lemma_skip_ws(s: Seq<u8>, i: int, end: int)
    requires
        0 <= i <= end <= s.len(),
    ensures
        i <= spec_skip_ws(s, i, end) <= end,
        spec_skip_ws(s, i, end) < end ==> !is_ws(s[spec_skip_ws(s, i, end)]),
        forall|k: int| i <= k < spec_skip_ws(s, i, end) ==> is_ws(s[k]),
    decreases end - i,
{
    if i < end && is_ws(s[i]) {
        lemma_skip_ws(s, i + 1, end);
    }
}

/// Advance past whitespace, staying within `[i, end)`.
pub fn skip_ws(s: &[u8], i: usize, end: usize) -> (r: usize)
    requires
        i <= end <= s@.len(),
    ensures
        r == spec_skip_ws(s@, i as int, end as int),
        i <= r <= end,
{
    let mut j: usize = i;
    while j < end && (s[j] == 32 || (9 <= s[j] && s[j] <= 13))
        invariant
            i <= j <= end <= s@.len(),
            spec_skip_ws(s@, i as int, end as int) == spec_skip_ws(s@, j as int, end as int),
        decreases end - j,
    {
        j += 1;
    }
    j
}

/// First offset at or after `i`, bounded by `end`, holding a byte that is
/// not a decimal digit.
pub open spec fn spec_digit_run_end(s: Seq<u8>, i: int, end: int) -> int
    decreases end - i,
{
    if 0 <= i && i < end && end <= s.len() && is_digit(s[i]) {
        spec_digit_run_end(s, i + 1, end)
    } else {
        i
    }
}

pub proof fn lemma_digit_run(s: Seq<u8>, i: int, end: int)
    requires
        0 <= i <= end <= s.len(),
    ensures
        i <= spec_digit_run_end(s, i, end) <= end,
        spec_digit_run_end(s, i, end) < end ==> !is_digit(s[spec_digit_run_end(s, i, end)]),
        forall|k: int| i <= k < spec_digit_run_end(s, i, end) ==> is_digit(s[k]),
    decreases end - i,
{
    if i < end && is_digit(s[i]) {
        lemma_digit_run(s, i + 1, end);
    }
}

/// Advance past decimal digits, staying within `[i, end)`.
pub fn digit_run_end(s: &[u8], i: usize, end: usize) -> (r: usize)
    requires
        i <= end <= s@.len(),
    ensures
        r == spec_digit_run_end(s@, i as int, end as int),
        i <= r <= end,
{
    let mut j: usize = i;
    while j < end && 48 <= s[j] && s[j] <= 57
        invariant
            i <= j <= end <= s@.len(),
            spec_digit_run_end(s@, i as int, end as int) == spec_digit_run_end(
                s@,
                j as int,
                end as int,
            ),
        decreases end - j,
    {
        j += 1;
    }
    j
}

/// First offset at or after `i`, bounded by `end`, holding a byte other
/// than ASCII `0`.
pub open spec fn spec_skip_zeros(s: Seq<u8>, i: int, end: int) -> int
    decreases end - i,
{
    if 0 <= i && i < end && end <= s.len() && s[i] == 48u8 {
        spec_skip_zeros(s, i + 1, end)
    } else {
        i
    }
}

pub proof fn lemma_skip_zeros(s: Seq<u8>, i: int, end: int)
    requires
        0 <= i <= end <= s.len(),
    ensures
        i <= spec_skip_zeros(s, i, end) <= end,
        forall|k: int| i <= k < spec_skip_zeros(s, i, end) ==> s[k] == 48u8,
        spec_skip_zeros(s, i, end) < end ==> s[spec_skip_zeros(s, i, end)] != 48u8,
    decreases end - i,
{
    if i < end && s[i] == 48u8 {
        lemma_skip_zeros(s, i + 1, end);
    }
}

/// Advance past ASCII `0` bytes, staying within `[i, end)`.
pub fn skip_zeros(s: &[u8], i: usize, end: usize) -> (r: usize)
    requires
        i <= end <= s@.len(),
    ensures
        r == spec_skip_zeros(s@, i as int, end as int),
        i <= r <= end,
{
    let mut j: usize = i;
    while j < end && s[j] == 48
        invariant
            i <= j <= end <= s@.len(),
            spec_skip_zeros(s@, i as int, end as int) == spec_skip_zeros(
                s@,
                j as int,
                end as int,
            ),
        decreases end - j,
    {
        j += 1;
    }
    j
}

/// First offset at or after `i`, bounded by `end`, holding a byte that may
/// not appear in a station name.
pub open spec fn spec_name_run_end(s: Seq<u8>, i: int, end: int) -> int
    decreases end - i,
{
    if 0 <= i && i < end && end <= s.len() && is_name_byte(s[i]) {
        spec_name_run_end(s, i + 1, end)
    } else {
        i
    }
}

/// Advance past station-name bytes, staying within `[i, end)`.
pub fn name_run_end(s: &[u8], i: usize, end: usize) -> (r: usize)
    requires
        i <= end <= s@.len(),
    ensures
        r == spec_name_run_end(s@, i as int, end as int),
        i <= r <= end,
{
    let mut j: usize = i;
    while j < end && (48 <= s[j] && s[j] <= 57 || 65 <= s[j] && s[j] <= 90 || 97 <= s[j]
        && s[j] <= 122 || s[j] == 95 || s[j] == 45 || s[j] == 39 || s[j] == 42)
        invariant
            i <= j <= end <= s@.len(),
            spec_name_run_end(s@, i as int, end as int) == spec_name_run_end(
                s@,
                j as int,
                end as int,
            ),
        decreases end - j,
    {
        j += 1;
    }
    j
}

/// First offset at or after `i`, bounded by `end`, holding a byte that is
/// not an ASCII letter.
pub open spec fn spec_alpha_run_end(s: Seq<u8>, i: int, end: int) -> int
    decreases end - i,
{
    if 0 <= i && i < end && end <= s.len() && is_alpha(s[i]) {
        spec_alpha_run_end(s, i + 1, end)
    } else {
        i
    }
}

pub proof fn lemma_alpha_run_exact(s: Seq<u8>, i: int, j: int, end: int)
    requires
        0 <= i <= j <= end <= s.len(),
        forall|k: int| i <= k < j ==> is_alpha(s[k]),
        j < end ==> !is_alpha(s[j]),
    ensures
        spec_alpha_run_end(s, i, end) == j,
    decreases j - i,
{
    if i < j {
        lemma_alpha_run_exact(s, i + 1, j, end);
    }
}

/// Advance past ASCII letters, staying within `[i, end)`.
pub fn alpha_run_end(s: &[u8], i: usize, end: usize) -> (r: usize)
    requires
        i <= end <= s@.len(),
    ensures
        r == spec_alpha_run_end(s@, i as int, end as int),
        i <= r <= end,
{
    let mut j: usize = i;
    while j < end && (65 <= s[j] && s[j] <= 90 || 97 <= s[j] && s[j] <= 122)
        invariant
            i <= j <= end <= s@.len(),
            spec_alpha_run_end(s@, i as int, end as int) == spec_alpha_run_end(
                s@,
                j as int,
                end as int,
            ),
        decreases end - j,
    {
        j += 1;
    }
    j
}

/// First offset at or after `i` holding a line break, or the length of `s`.
pub open spec fn spec_line_end(s: Seq<u8>, i: int) -> int
    decreases s.len() - i,
{
    if 0 <= i && i < s.len() && !is_line_break(s[i]) {
        spec_line_end(s, i + 1)
    } else {
        i
    }
}

pub proof fn lemma_line_end(s: Seq<u8>, i: int)
    requires
        0 <= i <= s.len(),
    ensures
        i <= spec_line_end(s, i) <= s.len(),
        spec_line_end(s, i) < s.len() ==> is_line_break(s[spec_line_end(s, i)]),
        forall|k: int| i <= k < spec_line_end(s, i) ==> !is_line_break(s[k]),
    decreases s.len() - i,
{
    if i < s.len() && !is_line_break(s[i]) {
        lemma_line_end(s, i + 1);
    }
}

/// Find the line break or end of input that ends the line starting at `i`.
pub fn find_line_end(s: &[u8], i: usize) -> (r: usize)
    requires
        i <= s@.len(),
    ensures
        r == spec_line_end(s@, i as int),
        i <= r <= s@.len(),
{
    let mut j: usize = i;
    while j < s.len() && s[j] != 10 && s[j] != 13
        invariant
            i <= j <= s@.len(),
            spec_line_end(s@, i as int) == spec_line_end(s@, j as int),
        decreases s@.len() - j,
    {
        j += 1;
    }
    j
}

/// The offset just past the line terminator at `le`: `le` must carry a
/// line feed or a carriage-return-line-feed pair; a lone carriage return
/// or the end of input is not a terminated line.
pub open spec fn spec_after_line_break(s: Seq<u8>, le: int) -> Option<int> {
    if 0 <= le && le < s.len() && s[le] == 10u8 {
        Some(le + 1)
    } else if 0 <= le && le + 1 < s.len() && s[le] == 13u8 && s[le + 1] == 10u8 {
        Some(le + 2)
    } else {
        None
    }
}

/// The line starting at `i`: its end offset and the offset of the next
/// line.  `None` when no line terminator follows.
pub open spec fn spec_take_line(s: Seq<u8>, i: int) -> Option<(int, int)> {
    let le = spec_line_end(s, i);
    match spec_after_line_break(s, le) {
        Some(n) => Some((le, n)),
        None => None,
    }
}

/// Recognize one terminated line starting at `i`.
pub fn take_line(s: &[u8], i: usize) -> (r: Option<(usize, usize)>)
    requires
        i <= s@.len(),
    ensures
        match r {
            Some((le, n)) => spec_take_line(s@, i as int) == Some((le as int, n as int))
                && i <= le < n <= s@.len(),
            None => spec_take_line(s@, i as int) is None,
        },
{
    let le = find_line_end(s, i);
    if le < s.len() && s[le] == 10 {
        Some((le, le + 1))
    } else if le < s.len() && s[le] == 13 && le + 1 < s.len() && s[le + 1] == 10 {
        Some((le, le + 2))
    } else {
        proof {
            lemma_line_end(s@, i as int);
        }
        None
    }
}

/// Last offset `e` in `(lo, hi]` such that `s[e - 1]` is not whitespace,
/// or `lo` when all of `[lo, hi)` is whitespace.
pub open spec fn spec_trim_end(s: Seq<u8>, lo: int, e: int) -> int
    decreases e - lo,
{
    if 0 <= lo && lo < e && e <= s.len() && is_ws(s[e - 1]) {
        spec_trim_end(s, lo, e - 1)
    } else {
        e
    }
}

/// Move `e` back past trailing whitespace, staying within `[lo, e]`.
pub fn trim_end(s: &[u8], lo: usize, e: usize) -> (r: usize)
    requires
        lo <= e <= s@.len(),
    ensures
        r == spec_trim_end(s@, lo as int, e as int),
        lo <= r <= e,
{
    let mut j: usize = e;
    while j > lo && (s[j - 1] == 32 || (9 <= s[j - 1] && s[j - 1] <= 13))
        invariant
            lo <= j <= e <= s@.len(),
            spec_trim_end(s@, lo as int, e as int) == spec_trim_end(s@, lo as int, j as int),
        decreases j,
    {
        j -= 1;
    }
    j
}

/// The bytes of `s` between `lo` and `hi` with surrounding whitespace
/// removed.
pub open spec fn spec_trimmed(s: Seq<u8>, lo: int, hi: int) -> Seq<u8> {
    let e = spec_trim_end(s, lo, hi);
    let a = spec_skip_ws(s, lo, e);
    s.subrange(a, e)
}

/// Copy the byte range `[lo, hi)` of `s` into a fresh vector.
pub fn copy_range(s: &[u8], lo: usize, hi: usize) -> (r: Vec<u8>)
    requires
        lo <= hi <= s@.len(),
    ensures
        r@ == s@.subrange(lo as int, hi as int),
{
    let mut v: Vec<u8> = Vec::new();
    let mut j: usize = lo;
    while j < hi
        invariant
            lo <= j <= hi <= s@.len(),
            v@ =~= s@.subrange(lo as int, j as int),
        decreases hi - j,
    {
        v.push(s[j]);
        proof {
            assert(v@ =~= s@.subrange(lo as int, j + 1));
        }
        j += 1;
    }
    v
}

pub proof fn lemma_skip_ws_exact(s: Seq<u8>, i: int, j: int, end: int)
    requires
        0 <= i <= j <= end <= s.len(),
        forall|k: int| i <= k < j ==> is_ws(s[k]),
        j < end ==> !is_ws(s[j]),
    ensures
        spec_skip_ws(s, i, end) == j,
    decreases j - i,
{
    if i < j {
        lemma_skip_ws_exact(s, i + 1, j, end);
    }
}

pub proof fn lemma_digit_run_exact(s: Seq<u8>, i: int, j: int, end: int)
    requires
        0 <= i <= j <= end <= s.len(),
        forall|k: int| i <= k < j ==> is_digit(s[k]),
        j < end ==> !is_digit(s[j]),
    ensures
        spec_digit_run_end(s, i, end) == j,
    decreases j - i,
{
    if i < j {
        lemma_digit_run_exact(s, i + 1, j, end);
    }
}

pub proof fn lemma_skip_zeros_exact(s: Seq<u8>, i: int, j: int, end: int)
    requires
        0 <= i <= j <= end <= s.len(),
        forall|k: int| i <= k < j ==> s[k] == 48u8,
        j < end ==> s[j] != 48u8,
    ensures
        spec_skip_zeros(s, i, end) == j,
    decreases j - i,
{
    if i < j {
        lemma_skip_zeros_exact(s, i + 1, j, end);
    }
}

pub proof fn lemma_name_run_exact(s: Seq<u8>, i: int, j: int, end: int)
    requires
        0 <= i <= j <= end <= s.len(),
        forall|k: int| i <= k < j ==> is_name_byte(s[k]),
        j < end ==> !is_name_byte(s[j]),
    ensures
        spec_name_run_end(s, i, end) == j,
    decreases j - i,
{
    if i < j {
        lemma_name_run_exact(s, i + 1, j, end);
    }
}

pub proof fn lemma_line_end_exact(s: Seq<u8>, i: int, j: int)
    requires
        0 <= i <= j <= s.len(),
        forall|k: int| i <= k < j ==> !is_line_break(s[k]),
        j < s.len() ==> is_line_break(s[j]),
        j == s.len() || j < s.len(),
    ensures
        spec_line_end(s, i) == j,
    decreases j - i,
{
    if i < j {
        lemma_line_end_exact(s, i + 1, j);
    }
}

pub proof fn lemma_trim_end_exact(s: Seq<u8>, lo: int, j: int, e: int)
    requires
        0 <= lo <= j <= e <= s.len(),
        forall|k: int| j <= k < e ==> is_ws(s[k]),
        j > lo ==> !is_ws(s[j - 1]),
    ensures
        spec_trim_end(s, lo, e) == j,
    decreases e - j,
{
    if j < e {
        lemma_trim_end_exact(s, lo, j, e - 1);
    }
}

/// Ten raised to `n`.
pub open spec fn pow10(n: nat) -> int
    decreases n,
{
    if n == 0 {
        1
    } else {
        10 * pow10((n - 1) as nat)
    }
}

pub proof fn lemma_pow10_pos(n: nat)
    ensures
        pow10(n) >= 1,
    decreases n,
{
    if n > 0 {
        lemma_pow10_pos((n - 1) as nat);
    }
}

/// The number denoted by the digit bytes of `s` in `[lo, hi)`.
pub open spec fn digits_val(s: Seq<u8>, lo: int, hi: int) -> int
    decreases hi - lo,
{
    if 0 <= lo && lo < hi && hi <= s.len() {
        digits_val(s, lo, hi - 1) * 10 + (s[hi - 1] - 48)
    } else {
        0
    }
}

pub proof fn lemma_digits_val_bound(s: Seq<u8>, lo: int, hi: int)
    requires
        0 <= lo <= hi <= s.len(),
        forall|k: int| lo <= k < hi ==> is_digit(s[k]),
    ensures
        0 <= digits_val(s, lo, hi) < pow10((hi - lo) as nat),
    decreases hi - lo,
{
    if lo < hi {
        lemma_digits_val_bound(s, lo, hi - 1);
    }
}

pub proof fn lemma_digits_val_drop_zero(s: Seq<u8>, lo: int, hi: int)
    requires
        0 <= lo < hi <= s.len(),
        s[lo] == 48u8,
    ensures
        digits_val(s, lo, hi) == digits_val(s, lo + 1, hi),
    decreases hi - lo,
{
    if lo + 1 < hi {
        lemma_digits_val_drop_zero(s, lo, hi - 1);
    } else {
        assert(digits_val(s, lo, hi) == digits_val(s, lo, lo) * 10 + (s[lo] - 48));
        assert(digits_val(s, lo, hi) == 0);
    }
}

pub proof fn lemma_digits_val_skip_zeros(s: Seq<u8>, lo: int, z: int, hi: int)
    requires
        0 <= lo <= z <= hi <= s.len(),
        forall|k: int| lo <= k < z ==> s[k] == 48u8,
    ensures
        digits_val(s, lo, hi) == digits_val(s, z, hi),
    decreases z - lo,
{
    if lo < z {
        lemma_digits_val_drop_zero(s, lo, hi);
        lemma_digits_val_skip_zeros(s, lo + 1, z, hi);
    }
}

/// Evaluate the digit bytes of `s` in `[lo, hi)`.
pub fn eval_digits(s: &[u8], lo: usize, hi: usize) -> (r: i64)
    requires
        lo <= hi <= s@.len(),
        hi - lo <= 14,
        forall|k: int| lo <= k < hi ==> is_digit(s@[k]),
    ensures
        r == digits_val(s@, lo as int, hi as int),
        0 <= r < 100_000_000_000_000i64,
{
    proof {
        lemma_digits_val_bound(s@, lo as int, hi as int);
        reveal_with_fuel(pow10, 15);
    }
    let mut acc: i64 = 0;
    let mut j: usize = lo;
    while j < hi
        invariant
            lo <= j <= hi <= s@.len(),
            hi - lo <= 14,
            forall|k: int| lo <= k < hi ==> is_digit(s@[k]),
            acc == digits_val(s@, lo as int, j as int),
            0 <= acc < pow10((j - lo) as nat),
            pow10((hi - lo) as nat) <= 100_000_000_000_000,
        decreases hi - j,
    {
        proof {
            lemma_pow10_mul((j + 1 - lo) as nat, (hi - j - 1) as nat);
            lemma_pow10_pos((hi - j - 1) as nat);
            lemma_pow10_pos((j + 1 - lo) as nat);
            assert(pow10((j + 1 - lo) as nat) <= pow10((hi - lo) as nat)) by (nonlinear_arith)
                requires
                    pow10((j + 1 - lo) as nat) * pow10((hi - j - 1) as nat) == pow10(
                        (hi - lo) as nat,
                    ),
                    pow10((hi - j - 1) as nat) >= 1,
                    pow10((j + 1 - lo) as nat) >= 1,
            ;
            assert(pow10((j + 1 - lo) as nat) == 10 * pow10((j - lo) as nat));
            assert(is_digit(s@[j as int]));
        }
        acc = acc * 10 + (s[j] - 48) as i64;
        j += 1;
    }
    proof {
        lemma_digits_val_bound(s@, lo as int, hi as int);
    }
    acc
}

pub proof fn lemma_pow10_mul(a: nat, b: nat)
    ensures
        pow10(a) * pow10(b) == pow10(a + b),
    decreases a,
{
    if a == 0 {
        assert(pow10(0) == 1);
    } else {
        lemma_pow10_mul((a - 1) as nat, b);
        assert(pow10(a) * pow10(b) == 10 * pow10((a - 1) as nat) * pow10(b));
        assert(10 * pow10((a - 1) as nat) * pow10(b) == 10 * (pow10((a - 1) as nat) * pow10(b)))
            by (nonlinear_arith);
    }
}

/// Value of the fractional digits in `[lo, k)` scaled to ten-thousandths:
/// the first four digits count, shorter runs are padded with zeros.
pub open spec fn frac4_val(s: Seq<u8>, lo: int, k: int) -> int {
    if k - lo >= 4 {
        digits_val(s, lo, lo + 4)
    } else {
        digits_val(s, lo, k) * pow10((4 - (k - lo)) as nat)
    }
}

/// Largest whole part accepted by the number parser: fourteen significant
/// digits always fit.
pub open spec fn max_whole_digits() -> int {
    14
}

/// An exact decimal number in `[i, end)`: an optional sign, digits, and
/// an optional fraction of at most four significant decimal digits
/// (further fractional digits must be zeros).  The result is the value in
/// ten-thousandths together with the offset just past the number.  More
/// than fourteen significant whole digits, no digits at all, or a
/// fraction finer than ten-thousandths is a failed parse.
pub open spec fn spec_parse_number(s: Seq<u8>, i: int, end: int) -> Option<(int, int)> {
    if !(0 <= i && i <= end && end <= s.len()) {
        None
    } else {
        let neg = i < end && s[i] == 45u8;
        let i1 = if i < end && (s[i] == 45u8 || s[i] == 43u8) {
            i + 1
        } else {
            i
        };
        let j = spec_digit_run_end(s, i1, end);
        let z = spec_skip_zeros(s, i1, j);
        if j - z > max_whole_digits() {
            None
        } else {
            let ival = digits_val(s, z, j);
            if j < end && s[j] == 46u8 {
                let k = spec_digit_run_end(s, j + 1, end);
                if j == i1 && k == j + 1 {
                    None
                } else if exists|t: int| j + 5 <= t < k && s[t] != 48u8 {
                    None
                } else {
                    let units = ival * 10000 + frac4_val(s, j + 1, k);
                    Some(
                        (
                            if neg {
                                -units
                            } else {
                                units
                            },
                            k,
                        ),
                    )
                }
            } else {
                if j == i1 {
                    None
                } else {
                    let units = ival * 10000;
                    Some(
                        (
                            if neg {
                                -units
                            } else {
                                units
                            },
                            j,
                        ),
                    )
                }
            }
        }
    }
}

/// Evaluate a run of fractional digit bytes in `[lo, k)` to
/// ten-thousandths, failing when a digit past the fourth is not zero.
#[verifier::rlimit(60)]
fn frac_value(s: &[u8], lo: usize, k: usize) -> (r: Option<i64>)
    requires
        lo <= k <= s@.len(),
        forall|q: int| lo <= q < k ==> is_digit(s@[q]),
    ensures
        (match r {
            Some(v) => v == frac4_val(s@, lo as int, k as int) && 0 <= v <= 9999 && !(exists|
                t: int,
            |
                lo + 4 <= t < k && s@[t] != 48u8),
            None => exists|t: int| lo + 4 <= t < k && s@[t] != 48u8,
        }),
{
    let fl: usize = k - lo;
    let m: usize = if fl > 4 {
        lo + 4
    } else {
        k
    };
    // every fractional digit past the fourth must be zero
    let mut t: usize = m;
    #[verifier::loop_isolation(false)]
    while t < k
        invariant
            m <= t <= k,
            forall|q: int| m <= q < t ==> s@[q] == 48u8,
        decreases k - t,
    {
        if s[t] != 48 {
            proof {
                assert(lo + 4 <= t < k && s@[t as int] != 48u8);
            }
            return None;
        }
        t += 1;
    }
    let f4a: i64 = eval_digits(s, lo, m);
    proof {
        reveal_with_fuel(pow10, 15);
        lemma_digits_val_bound(s@, lo as int, m as int);
    }
    let f4: i64 = if fl == 0 {
        0
    } else if fl == 1 {
        f4a * 1000
    } else if fl == 2 {
        f4a * 100
    } else if fl == 3 {
        f4a * 10
    } else {
        f4a
    };
    proof {
        reveal_with_fuel(pow10, 6);
        if fl >= 4 {
            assert(m == lo + 4);
            assert(f4 == digits_val(s@, lo as int, lo + 4));
            assert(frac4_val(s@, lo as int, k as int) == digits_val(s@, lo as int, lo + 4));
            assert(f4a < pow10(4));
            assert(f4 == frac4_val(s@, lo as int, k as int));
        } else {
            assert(m == k);
            assert(f4a == digits_val(s@, lo as int, k as int));
            assert(f4a < pow10((fl) as nat));
            if fl == 0 {
                assert(frac4_val(s@, lo as int, k as int) == f4a * pow10(4));
                assert(f4 == 0 && f4a == 0);
                assert(f4 == frac4_val(s@, lo as int, k as int));
            } else if fl == 1 {
                assert(frac4_val(s@, lo as int, k as int) == f4a * pow10(3));
                assert(f4 == frac4_val(s@, lo as int, k as int));
            } else if fl == 2 {
                assert(frac4_val(s@, lo as int, k as int) == f4a * pow10(2));
                assert(f4 == frac4_val(s@, lo as int, k as int));
            } else {
                assert(fl == 3);
                assert(frac4_val(s@, lo as int, k as int) == f4a * pow10(1));
                assert(f4 == frac4_val(s@, lo as int, k as int));
            }
        }
        assert(f4 == frac4_val(s@, lo as int, k as int));
        assert(0 <= f4 <= 9999);
    }
    Some(f4)
}

/// Parse one exact decimal number.
pub fn parse_number(s: &[u8], i: usize, end: usize) -> (r: Option<(i64, usize)>)
    requires
        i <= end <= s@.len(),
    ensures
        (match r {
            Some((v, n)) => spec_parse_number(s@, i as int, end as int) == Some(
                (v as int, n as int),
            ) && i <= n <= end,
            None => spec_parse_number(s@, i as int, end as int) is None,
        }),
{
    let mut p: usize = i;
    let mut neg: bool = false;
    if p < end && s[p] == 45 {
        neg = true;
        p += 1;
    } else if p < end && s[p] == 43 {
        p += 1;
    }
    let ghost i1 = p as int;
    let j = digit_run_end(s, p, end);
    let z = skip_zeros(s, p, j);
    proof {
        lemma_digit_run(s@, p as int, end as int);
        lemma_skip_zeros(s@, p as int, j as int);
    }
    if j - z > 14 {
        return None;
    }
    let ival: i64 = eval_digits(s, z, j);
    if j < end && s[j] == 46 {
        let k = digit_run_end(s, j + 1, end);
        proof {
            lemma_digit_run(s@, j + 1, end as int);
        }
        if p == j && k == j + 1 {
            return None;
        }
        let f4: i64 = match frac_value(s, j + 1, k) {
            Some(v) => v,
            None => {
                return None;
            },
        };
        let units: i64 = ival * 10_000 + f4;
        if neg {
            Some((-units, k))
        } else {
            Some((units, k))
        }
    } else {
        if p == j {
            return None;
        }
        proof {
            reveal_with_fuel(pow10, 15);
            lemma_digits_val_bound(s@, z as int, j as int);
        }
        let units: i64 = ival * 10_000;
        if neg {
            Some((-units, j))
        } else {
            Some((units, j))
        }
    }
}

/// An exact decimal number with surrounding whitespace skipped.
pub open spec fn spec_parse_decimal_ws(s: Seq<u8>, i: int, end: int) -> Option<(int, int)> {
    if !(0 <= i && i <= end && end <= s.len()) {
        None
    } else {
        let a = spec_skip_ws(s, i, end);
        match spec_parse_number(s, a, end) {
            Some((v, n)) => Some((v, spec_skip_ws(s, n, end))),
            None => None,
        }
    }
}

/// Parse one exact decimal number, tolerating whitespace on both sides.
pub fn parse_decimal_ws(s: &[u8], i: usize, end: usize) -> (r: Option<(i64, usize)>)
    requires
        i <= end <= s@.len(),
    ensures
        (match r {
            Some((v, n)) => spec_parse_decimal_ws(s@, i as int, end as int) == Some(
                (v as int, n as int),
            ) && i <= n <= end,
            None => spec_parse_decimal_ws(s@, i as int, end as int) is None,
        }),
{
    let a = skip_ws(s, i, end);
    match parse_number(s, a, end) {
        Some((v, n)) => {
            let n2 = skip_ws(s, n, end);
            Some((v, n2))
        },
        None => None,
    }
}

/// An unsigned whole number no greater than `max`, with surrounding
/// whitespace skipped.  More than nine significant digits or a value
/// above `max` is a failed parse.
pub open spec fn spec_parse_uint(s: Seq<u8>, i: int, end: int, max: int) -> Option<(int, int)> {
    if !(0 <= i && i <= end && end <= s.len()) {
        None
    } else {
        let a = spec_skip_ws(s, i, end);
        let j = spec_digit_run_end(s, a, end);
        let z = spec_skip_zeros(s, a, j);
        if j == a || j - z > 9 {
            None
        } else {
            let v = digits_val(s, z, j);
            if v > max {
                None
            } else {
                Some((v, spec_skip_ws(s, j, end)))
            }
        }
    }
}

/// Parse one unsigned whole number no greater than `max`.
pub fn parse_uint(s: &[u8], i: usize, end: usize, max: u64) -> (r: Option<(u64, usize)>)
    requires
        i <= end <= s@.len(),
    ensures
        (match r {
            Some((v, n)) => spec_parse_uint(s@, i as int, end as int, max as int) == Some(
                (v as int, n as int),
            ) && i <= n <= end && v <= max,
            None => spec_parse_uint(s@, i as int, end as int, max as int) is None,
        }),
{
    let a = skip_ws(s, i, end);
    let j = digit_run_end(s, a, end);
    let z = skip_zeros(s, a, j);
    proof {
        lemma_digit_run(s@, a as int, end as int);
        lemma_skip_zeros(s@, a as int, j as int);
    }
    if j == a || j - z > 9 {
        return None;
    }
    let v: i64 = eval_digits(s, z, j);
    proof {
        reveal_with_fuel(pow10, 15);
        lemma_digits_val_bound(s@, z as int, j as int);
    }
    if v as u64 > max {
        return None;
    }
    let n = skip_ws(s, j, end);
    Some((v as u64, n))
}

/// Copy the byte range `[lo, hi)` of `s` with surrounding whitespace
/// removed.
pub fn copy_trimmed(s: &[u8], lo: usize, hi: usize) -> (r: Vec<u8>)
    requires
        lo <= hi <= s@.len(),
    ensures
        r@ == spec_trimmed(s@, lo as int, hi as int),
{
    let e = trim_end(s, lo, hi);
    let a = skip_ws(s, lo, e);
    copy_range(s, a, e)
}

} // verus!
