//! Text production: decimal digit strings, fixed-precision number
//! formatting, left-padding, and the proofs that the number parser reads
//! back exactly what the formatter wrote.
use vstd::prelude::*;

verus! {

use vstd::string::StringSliceAdditionalSpecFns;
use crate::parser_utils::{
    digits_val, frac4_val, is_digit, is_ws, lemma_digit_run_exact, lemma_digits_val_bound,
    lemma_skip_zeros_exact, lit_bytes, matches_at, max_whole_digits, pow10, spec_parse_number,
    spec_skip_ws, spec_skip_zeros, spec_digit_run_end,
};

/// The decimal digit string of `n`, most significant digit first, with no
/// leading zeros (`0` for zero).
pub open spec fn dec_digits(n: nat) -> Seq<u8>
    decreases n,
{
    if n < 10 {
        seq![(48 + n) as u8]
    } else {
        dec_digits(n / 10).push((48 + n % 10) as u8)
    }
}

pub proof fn lemma_dec_digits_form(n: nat)
    ensures
        dec_digits(n).len() >= 1,
        forall|k: int| 0 <= k < dec_digits(n).len() ==> is_digit(dec_digits(n)[k]),
        n > 0 ==> dec_digits(n)[0] != 48u8,
        n == 0 ==> dec_digits(n) == seq![48u8],
    decreases n,
{
    if n >= 10 {
        lemma_dec_digits_form(n / 10);
    }
}

pub proof fn lemma_dec_digits_len(n: nat, k: nat)
    requires
        k >= 1,
        n < pow10(k),
    ensures
        dec_digits(n).len() <= k,
    decreases n,
{
    if n < 10 {
    } else {
        assert(pow10(k) == 10 * pow10((k - 1) as nat));
        lemma_dec_digits_len(n / 10, (k - 1) as nat);
    }
}

/// The digit bytes of `dec_digits(n)`, read back as a number, give `n`.
pub proof fn lemma_dec_digits_val(s: Seq<u8>, lo: int, n: nat)
    requires
        matches_at(s, lo, dec_digits(n)),
    ensures
        digits_val(s, lo, lo + dec_digits(n).len()) == n,
    decreases n,
{
    let d = dec_digits(n);
    if n < 10 {
        assert(s[lo] == d[0]);
        assert(digits_val(s, lo, lo + 1) == digits_val(s, lo, lo) * 10 + (s[lo] - 48));
    } else {
        let dp = dec_digits(n / 10);
        assert(d == dp.push((48 + n % 10) as u8));
        assert(s.subrange(lo, lo + d.len()).subrange(0, dp.len() as int) =~= s.subrange(
            lo,
            lo + dp.len(),
        ));
        assert(d.subrange(0, dp.len() as int) =~= dp);
        assert(matches_at(s, lo, dp));
        lemma_dec_digits_val(s, lo, n / 10);
        assert(s[lo + d.len() - 1] == d[d.len() - 1]);
        assert(digits_val(s, lo, lo + d.len()) == digits_val(s, lo, lo + d.len() - 1) * 10 + (
        s[lo + d.len() - 1] - 48));
    }
}

/// Append the digit string of `n`.
pub fn append_u64(out: &mut Vec<u8>, n: u64)
    ensures
        final(out)@ == old(out)@ + dec_digits(n as nat),
    decreases n,
{
    if n < 10 {
        out.push(48 + n as u8);
        assert(out@ =~= old(out)@ + dec_digits(n as nat));
    } else {
        append_u64(out, n / 10);
        out.push(48 + (n % 10) as u8);
        assert(out@ =~= old(out)@ + dec_digits(n as nat));
    }
}

/// Append a byte slice.
pub fn append_bytes(out: &mut Vec<u8>, s: &[u8])
    ensures
        final(out)@ == old(out)@ + s@,
{
    let mut j: usize = 0;
    while j < s.len()
        invariant
            j <= s@.len(),
            out@ =~= old(out)@ + s@.subrange(0, j as int),
        decreases s@.len() - j,
    {
        out.push(s[j]);
        proof {
            assert(out@ =~= old(out)@ + s@.subrange(0, j + 1));
        }
        j += 1;
    }
    proof {
        assert(out@ =~= old(out)@ + s@);
    }
}

/// Append the bytes of an ASCII keyword.
pub fn append_tag(out: &mut Vec<u8>, tok: &str)
    requires
        vstd::string::is_ascii(tok),
    ensures
        final(out)@ == old(out)@ + lit_bytes(tok@),
{
    proof {
        vstd::string::is_ascii_spec_bytes(tok);
    }
    let tb: &[u8] = tok.as_bytes();
    assert(tb@ =~= lit_bytes(tok@));
    append_bytes(out, tb);
}

/// `n` space bytes.
pub open spec fn spaces(n: int) -> Seq<u8>
    decreases n,
{
    if n <= 0 {
        Seq::empty()
    } else {
        spaces(n - 1).push(32u8)
    }
}

pub proof fn lemma_spaces_ws(n: int)
    ensures
        spaces(n).len() == (if n >= 0 {
            n
        } else {
            0
        }),
        forall|k: int| 0 <= k < spaces(n).len() ==> spaces(n)[k] == 32u8,
        forall|k: int| 0 <= k < spaces(n).len() ==> is_ws(spaces(n)[k]),
    decreases n,
{
    if n > 0 {
        lemma_spaces_ws(n - 1);
    }
}

/// `t` right-justified in a field of width `w`.
pub open spec fn spec_pad_left(t: Seq<u8>, w: int) -> Seq<u8> {
    spaces(w - t.len()) + t
}

/// Append `t` right-justified in a field of width `w`.
pub fn append_padded(out: &mut Vec<u8>, t: &[u8], w: usize)
    ensures
        final(out)@ == old(out)@ + spec_pad_left(t@, w as int),
{
    let pad: usize = if t.len() >= w {
        0
    } else {
        w - t.len()
    };
    let mut j: usize = 0;
    while j < pad
        invariant
            j <= pad,
            out@ =~= old(out)@ + spaces(j as int),
        decreases pad - j,
    {
        out.push(32);
        proof {
            assert(out@ =~= old(out)@ + spaces(j + 1));
        }
        j += 1;
    }
    append_bytes(out, t);
    proof {
        assert(out@ =~= old(out)@ + spec_pad_left(t@, w as int));
    }
}

/// The value of `units` ten-thousandths rounded to a whole count of
/// hundredths, halves away from zero.
pub open spec fn spec_round2(units: int) -> int {
    if units >= 0 {
        (units + 50) / 100
    } else {
        -((-units + 50) / 100)
    }
}

/// Two decimal digit bytes for `0 <= f < 100`.
pub open spec fn two_digits(f: int) -> Seq<u8> {
    seq![(48 + f / 10) as u8, (48 + f % 10) as u8]
}

/// The canonical two-decimal-place rendering of `units` ten-thousandths:
/// an optional minus sign, the whole part without leading zeros, a point,
/// and exactly two fractional digits.
pub open spec fn spec_fmt2(units: int) -> Seq<u8> {
    let h = spec_round2(units);
    let a = if h >= 0 {
        h
    } else {
        -h
    };
    let sign: Seq<u8> = if h < 0 {
        seq![45u8]
    } else {
        Seq::empty()
    };
    sign + dec_digits((a / 100) as nat) + seq![46u8] + two_digits(a % 100)
}

/// Append the two-decimal-place rendering of `units` ten-thousandths.
pub fn append_fmt2(out: &mut Vec<u8>, units: i64)
    ensures
        final(out)@ == old(out)@ + spec_fmt2(units as int),
{
    let hu: u64 = if units == i64::MIN {
        92233720368547758u64
    } else if units < 0 {
        (((-units) as u64) + 50) / 100
    } else {
        ((units as u64) + 50) / 100
    };
    let ghost h = spec_round2(units as int);
    proof {
        assert(hu == (if h >= 0 {
            h
        } else {
            -h
        }));
    }
    if units <= -50 {
        out.push(45);
        proof {
            assert(h < 0);
        }
    } else {
        proof {
            assert(h >= 0);
        }
    }
    append_u64(out, hu / 100);
    out.push(46);
    let f: u64 = hu % 100;
    out.push(48 + (f / 10) as u8);
    out.push(48 + (f % 10) as u8);
    proof {
        assert(out@ =~= old(out)@ + spec_fmt2(units as int));
    }
}

/// Every byte of a two-decimal-place rendering is a digit, a minus sign,
/// or a point; the rendering is at least four bytes long and does not
/// start with a plus sign.
pub proof fn lemma_fmt2_form(units: int)
    ensures
        spec_fmt2(units).len() >= 4,
        forall|k: int|
            0 <= k < spec_fmt2(units).len() ==> (is_digit(spec_fmt2(units)[k]) || spec_fmt2(
                units,
            )[k] == 45u8 || spec_fmt2(units)[k] == 46u8),
{
    let h = spec_round2(units);
    let a = if h >= 0 {
        h
    } else {
        -h
    };
    lemma_dec_digits_form((a / 100) as nat);
}

/// Parsing a two-decimal-place rendering gives back exactly the value
/// that was rendered, provided the value was a whole count of hundredths
/// in range, and no further digit follows the rendering.
pub proof fn lemma_fmt2_roundtrip(s: Seq<u8>, i: int, end: int, units: int)
    requires
        matches_at(s, i, spec_fmt2(units)),
        units % 100 == 0,
        -1_000_000_000_000_000_000 < units < 1_000_000_000_000_000_000,
        i + spec_fmt2(units).len() <= end <= s.len(),
        i + spec_fmt2(units).len() == end || !is_digit(s[i + spec_fmt2(units).len()]),
    ensures
        spec_parse_number(s, i, end) == Some((units, i + spec_fmt2(units).len())),
{
    let d = spec_fmt2(units);
    let h = spec_round2(units);
    assert(100 * (units / 100) == units);
    assert(h == units / 100);
    let a = if h >= 0 {
        h
    } else {
        -h
    };
    let sl: int = if h < 0 {
        1
    } else {
        0
    };
    let w = dec_digits((a / 100) as nat);
    let wl = w.len() as int;
    let td = two_digits(a % 100);
    lemma_dec_digits_form((a / 100) as nat);
    assert(pow10(14) == 100_000_000_000_000) by {
        reveal_with_fuel(pow10, 15);
    }
    lemma_dec_digits_len((a / 100) as nat, 14);
    let ll = d.len();
    assert(ll == sl + wl + 3);
    assert(forall|t: int| 0 <= t < ll ==> s[i + t] == d[t]) by {
        assert(forall|t: int| 0 <= t < ll ==> #[trigger] d[t] == s.subrange(i, i + ll)[t]);
    }
    assert(forall|q: int| 0 <= q < wl ==> d[sl + q] == w[q]);
    assert(d[sl + wl] == 46u8);
    assert(d[sl + wl + 1] == td[0]);
    assert(d[sl + wl + 2] == td[1]);
    // the sign
    let neg = i < end && s[i] == 45u8;
    let i1 = i + sl;
    if h < 0 {
        assert(d[0] == 45u8);
        assert(neg);
    } else {
        assert(d[0] == w[0]);
        assert(is_digit(s[i]));
        assert(!neg && s[i] != 43u8);
    }
    // the whole part is exactly the emitted digit run
    let j = i1 + wl;
    assert forall|k: int| i1 <= k < j implies is_digit(s[k]) by {
        assert(s[k] == d[k - i]);
        assert(d[k - i] == w[k - i1]);
        assert(is_digit(w[k - i1]));
    }
    assert(s[j] == 46u8 && !is_digit(s[j]));
    lemma_digit_run_exact(s, i1, j, end);
    // leading zeros only when the whole part is zero
    let z = spec_skip_zeros(s, i1, j);
    if a / 100 > 0 {
        assert(s[i1] == w[0] && w[0] != 48u8);
        lemma_skip_zeros_exact(s, i1, i1, j);
        assert(z == i1);
    } else {
        assert(w =~= seq![48u8]);
        assert(s[i1] == d[sl]);
        assert(d[sl] == w[0]);
        assert(wl == 1 && s[i1] == 48u8);
        lemma_skip_zeros_exact(s, i1, j, j);
        assert(z == j);
    }
    assert(j - z <= max_whole_digits());
    // the whole part reads back
    assert(s.subrange(i1, i1 + wl) =~= w);
    lemma_dec_digits_val(s, i1, (a / 100) as nat);
    crate::parser_utils::lemma_digits_val_skip_zeros(s, i1, z, j);
    assert(digits_val(s, z, j) == a / 100);
    // the fraction is exactly two digits
    let k = spec_digit_run_end(s, j + 1, end);
    assert(is_digit(s[j + 1]) && is_digit(s[j + 2]));
    lemma_digit_run_exact(s, j + 1, j + 3, end);
    assert(k == j + 3);
    assert(!(exists|t: int| j + 5 <= t < k && s[t] != 48u8));
    // and reads back scaled to ten-thousandths
    assert(digits_val(s, j + 1, j + 1) == 0);
    assert(digits_val(s, j + 1, j + 2) == (s[j + 1] - 48));
    assert(digits_val(s, j + 1, j + 3) == digits_val(s, j + 1, j + 2) * 10 + (s[j + 2] - 48));
    assert(s[j + 1] == 48 + (a % 100) / 10);
    assert(s[j + 2] == 48 + (a % 100) % 10);
    assert(digits_val(s, j + 1, j + 3) == a % 100);
    assert(pow10(2) == 100) by {
        reveal_with_fuel(pow10, 3);
    }
    assert(frac4_val(s, j + 1, k) == (a % 100) * 100);
    // reassemble
    assert((a / 100) * 10000 + (a % 100) * 100 == 100 * a) by {
        assert(a == 100 * (a / 100) + a % 100);
    }
    if h < 0 {
        assert(-((a / 100) * 10000 + frac4_val(s, j + 1, k)) == units);
    } else {
        assert((a / 100) * 10000 + frac4_val(s, j + 1, k) == units);
    }
    assert(spec_parse_number(s, i, end) == Some((units, i + ll)));
}

/// Parsing a whole number at the position the leading whitespace skip
/// reaches gives back exactly the digits that were written.
pub proof fn lemma_uint_at(s: Seq<u8>, i0: int, i: int, end: int, n: nat, max: int)
    requires
        0 <= i0 <= end <= s.len(),
        spec_skip_ws(s, i0, end) == i,
        matches_at(s, i, dec_digits(n)),
        i + dec_digits(n).len() <= end,
        i + dec_digits(n).len() == end || !is_digit(s[i + dec_digits(n).len()]),
        n < 1_000_000_000,
        n <= max,
    ensures
        crate::parser_utils::spec_parse_uint(s, i0, end, max) == Some(
            (n as int, spec_skip_ws(s, i + dec_digits(n).len(), end)),
        ),
{
    let d = dec_digits(n);
    let j = i + d.len();
    lemma_dec_digits_form(n);
    crate::parser_utils::lemma_match_bytes(s, i, d);
    crate::parser_utils::lemma_skip_ws(s, i0, end);
    assert forall|k: int| i <= k < j implies is_digit(s[k]) by {
        assert(s[i + (k - i)] == d[k - i]);
        assert(is_digit(d[k - i]));
    }
    crate::parser_utils::lemma_digit_run_exact(s, i, j, end);
    let z = spec_skip_zeros(s, i, j);
    if n > 0 {
        assert(s[i + 0] == d[0]);
        crate::parser_utils::lemma_skip_zeros_exact(s, i, i, j);
    } else {
        assert(d =~= seq![48u8]);
        assert(s[i + 0] == d[0]);
        assert(s[i] == 48u8);
        crate::parser_utils::lemma_skip_zeros_exact(s, i, j, j);
    }
    assert(pow10(9) == 1_000_000_000) by {
        reveal_with_fuel(pow10, 10);
    }
    lemma_dec_digits_len(n, 9);
    assert(s.subrange(i, i + d.len()) =~= d);
    lemma_dec_digits_val(s, i, n);
    crate::parser_utils::lemma_digits_val_skip_zeros(s, i, z, j);
    assert(digits_val(s, z, j) == n);
}

/// Parsing a decimal at the position the leading whitespace skip
/// reaches gives back exactly the value that was rendered.
pub proof fn lemma_decimal_ws_at(s: Seq<u8>, i0: int, i: int, end: int, units: int)
    requires
        0 <= i0 <= end <= s.len(),
        spec_skip_ws(s, i0, end) == i,
        matches_at(s, i, spec_fmt2(units)),
        units % 100 == 0,
        -1_000_000_000_000_000_000 < units < 1_000_000_000_000_000_000,
        i + spec_fmt2(units).len() <= end,
        i + spec_fmt2(units).len() == end || !is_digit(s[i + spec_fmt2(units).len()]),
    ensures
        crate::parser_utils::spec_parse_decimal_ws(s, i0, end) == Some(
            (units, spec_skip_ws(s, i + spec_fmt2(units).len(), end)),
        ),
{
    lemma_fmt2_roundtrip(s, i, end, units);
}

} // verus!
