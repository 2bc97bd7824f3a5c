//! The survey-data grammar.
//!
//! A survey-data file is a sequence of blocks with no separator token:
//! cave-name line, `SURVEY NAME:` line, `SURVEY DATE:` line with an
//! optional `COMMENT:` tail, `SURVEY TEAM:` marker line and team line, a
//! parameters line, a column-label line beginning with `FROM`, shot
//! lines, and trailing whitespace or form feeds.  Each form is defined
//! by a specification function over the byte sequence; the executable
//! parser returns exactly what the specification says.
use vstd::prelude::*;

verus! {

use crate::common_types::{Date, Decimal};
use crate::parser_utils::{
    expect_tag, lit_bytes, matches_at, parse_decimal_ws, parse_uint, skip_ws, spec_alpha_run_end,
    spec_name_run_end, spec_parse_decimal_ws, spec_parse_uint, spec_skip_ws, spec_take_line,
    spec_trimmed, alpha_run_end, copy_range, copy_trimmed, name_run_end, take_line,
};
use crate::survey::{
    BackSightCorrectionFactors, CorrectionFactors, Parameters, Shot, ShotV, Survey, SurveyV,
    view_opt_bytes,
};

/// The cave-name line: the first terminated line, trimmed.
pub open spec fn spec_parse_cave_line(s: Seq<u8>, i: int) -> Option<(Seq<u8>, int)> {
    match spec_take_line(s, i) {
        Some((le, n)) => Some((spec_trimmed(s, i, le), n)),
        None => None,
    }
}

/// Parse the cave-name line.
pub fn parse_cave_line(s: &[u8], i: usize) -> (r: Option<(Vec<u8>, usize)>)
    requires
        i <= s@.len(),
    ensures
        (match r {
            Some((v, n)) => spec_parse_cave_line(s@, i as int) == Some((v@, n as int)) && i < n
                <= s@.len(),
            None => spec_parse_cave_line(s@, i as int) is None,
        }),
{
    match take_line(s, i) {
        Some((le, n)) => {
            let v = copy_trimmed(s, i, le);
            Some((v, n))
        },
        None => None,
    }
}

/// The `SURVEY NAME:` line: the keyword, then a station-name token.
pub open spec fn spec_parse_name_line(s: Seq<u8>, i: int) -> Option<(Seq<u8>, int)> {
    match spec_take_line(s, i) {
        Some((le, n)) => {
            let tag = lit_bytes("SURVEY NAME:"@);
            if matches_at(s, i, tag) && i + tag.len() <= le {
                let a = spec_skip_ws(s, i + tag.len(), le);
                let j = spec_name_run_end(s, a, le);
                if j > a {
                    Some((s.subrange(a, j), n))
                } else {
                    None
                }
            } else {
                None
            }
        },
        None => None,
    }
}

/// Parse the `SURVEY NAME:` line.
pub fn parse_name_line(s: &[u8], i: usize) -> (r: Option<(Vec<u8>, usize)>)
    requires
        i <= s@.len(),
    ensures
        (match r {
            Some((v, n)) => spec_parse_name_line(s@, i as int) == Some((v@, n as int)) && i < n
                <= s@.len(),
            None => spec_parse_name_line(s@, i as int) is None,
        }),
{
    proof {
        reveal_strlit("SURVEY NAME:");
    }
    match take_line(s, i) {
        Some((le, n)) => {
            match expect_tag(s, i, "SURVEY NAME:") {
                Some(p0) => {
                    if p0 <= le {
                        let a = skip_ws(s, p0, le);
                        let j = name_run_end(s, a, le);
                        if j > a {
                            Some((copy_range(s, a, j), n))
                        } else {
                            None
                        }
                    } else {
                        None
                    }
                },
                None => None,
            }
        },
        None => None,
    }
}

/// The `SURVEY DATE:` line: the keyword, month, day and year, and an
/// optional `COMMENT:` tail taken verbatim to the end of the line.
pub open spec fn spec_parse_date_line(s: Seq<u8>, i: int) -> Option<
    ((Date, Option<Seq<u8>>), int),
> {
    match spec_take_line(s, i) {
        Some((le, n)) => {
            let tag = lit_bytes("SURVEY DATE:"@);
            if matches_at(s, i, tag) && i + tag.len() <= le {
                match spec_parse_uint(s, i + tag.len(), le, 255) {
                    Some((m, p1)) => match spec_parse_uint(s, p1, le, 255) {
                        Some((d, p2)) => match spec_parse_uint(s, p2, le, 65535) {
                            Some((y, p3)) => {
                                let date = Date {
                                    month: m as u8,
                                    day: d as u8,
                                    year: y as u16,
                                };
                                let ctag = lit_bytes("COMMENT:"@);
                                if matches_at(s, p3, ctag) && p3 + ctag.len() <= le {
                                    Some(((date, Some(s.subrange(p3 + ctag.len(), le))), n))
                                } else {
                                    Some(((date, None), n))
                                }
                            },
                            None => None,
                        },
                        None => None,
                    },
                    None => None,
                }
            } else {
                None
            }
        },
        None => None,
    }
}

/// Parse the `SURVEY DATE:` line.
pub fn parse_date_line(s: &[u8], i: usize) -> (r: Option<(Date, Option<Vec<u8>>, usize)>)
    requires
        i <= s@.len(),
    ensures
        (match r {
            Some((d, c, n)) => spec_parse_date_line(s@, i as int) == Some(
                ((d, view_opt_bytes(c)), n as int),
            ) && i < n <= s@.len(),
            None => spec_parse_date_line(s@, i as int) is None,
        }),
{
    proof {
        reveal_strlit("SURVEY DATE:");
        reveal_strlit("COMMENT:");
    }
    let (le, n) = match take_line(s, i) {
        Some(p) => p,
        None => {
            return None;
        },
    };
    let p0 = match expect_tag(s, i, "SURVEY DATE:") {
        Some(p) => p,
        None => {
            return None;
        },
    };
    if p0 > le {
        return None;
    }
    let (m, p1) = match parse_uint(s, p0, le, 255) {
        Some(p) => p,
        None => {
            return None;
        },
    };
    let (d, p2) = match parse_uint(s, p1, le, 255) {
        Some(p) => p,
        None => {
            return None;
        },
    };
    let (y, p3) = match parse_uint(s, p2, le, 65535) {
        Some(p) => p,
        None => {
            return None;
        },
    };
    let date = Date { month: m as u8, day: d as u8, year: y as u16 };
    match expect_tag(s, p3, "COMMENT:") {
        Some(c0) => {
            if c0 <= le {
                Some((date, Some(copy_range(s, c0, le)), n))
            } else {
                Some((date, None, n))
            }
        },
        None => Some((date, None, n)),
    }
}

/// The `SURVEY TEAM:` marker line followed by the team line, taken
/// verbatim.
pub open spec fn spec_parse_team_lines(s: Seq<u8>, i: int) -> Option<(Seq<u8>, int)> {
    match spec_take_line(s, i) {
        Some((le1, n1)) => {
            if matches_at(s, i, lit_bytes("SURVEY TEAM:"@)) {
                match spec_take_line(s, n1) {
                    Some((le2, n2)) => Some((s.subrange(n1, le2), n2)),
                    None => None,
                }
            } else {
                None
            }
        },
        None => None,
    }
}

/// Parse the team marker line and the team line.
pub fn parse_team_lines(s: &[u8], i: usize) -> (r: Option<(Vec<u8>, usize)>)
    requires
        i <= s@.len(),
    ensures
        (match r {
            Some((v, n)) => spec_parse_team_lines(s@, i as int) == Some((v@, n as int)) && i < n
                <= s@.len(),
            None => spec_parse_team_lines(s@, i as int) is None,
        }),
{
    proof {
        reveal_strlit("SURVEY TEAM:");
    }
    let (_le1, n1) = match take_line(s, i) {
        Some(p) => p,
        None => {
            return None;
        },
    };
    if !crate::parser_utils::match_tag(s, i, "SURVEY TEAM:") {
        return None;
    }
    match take_line(s, n1) {
        Some((le2, n2)) => Some((copy_range(s, n1, le2), n2)),
        None => None,
    }
}

/// An optional `CORRECTIONS:` clause of three decimals; on any mismatch
/// no value is taken and the position is left unchanged.
pub open spec fn spec_parse_corrections(s: Seq<u8>, i: int, le: int) -> (
    Option<CorrectionFactors>,
    int,
) {
    let tag = lit_bytes("CORRECTIONS:"@);
    if matches_at(s, i, tag) && i + tag.len() <= le {
        match spec_parse_decimal_ws(s, i + tag.len(), le) {
            Some((az, p1)) => match spec_parse_decimal_ws(s, p1, le) {
                Some((inc, p2)) => match spec_parse_decimal_ws(s, p2, le) {
                    Some((ln, p3)) => (
                        Some(
                            CorrectionFactors {
                                azimuth: Decimal { units: az as i64 },
                                inclination: Decimal { units: inc as i64 },
                                length: Decimal { units: ln as i64 },
                            },
                        ),
                        p3,
                    ),
                    None => (None, i),
                },
                None => (None, i),
            },
            None => (None, i),
        }
    } else {
        (None, i)
    }
}

/// Parse an optional `CORRECTIONS:` clause.
pub fn parse_corrections(s: &[u8], i: usize, le: usize) -> (r: (Option<CorrectionFactors>, usize))
    requires
        i <= le <= s@.len(),
    ensures
        spec_parse_corrections(s@, i as int, le as int) == (r.0, r.1 as int),
        i <= r.1 <= le,
{
    proof {
        reveal_strlit("CORRECTIONS:");
    }
    let p0 = match expect_tag(s, i, "CORRECTIONS:") {
        Some(p) => p,
        None => {
            return (None, i);
        },
    };
    if p0 > le {
        return (None, i);
    }
    let (az, p1) = match parse_decimal_ws(s, p0, le) {
        Some(p) => p,
        None => {
            return (None, i);
        },
    };
    let (inc, p2) = match parse_decimal_ws(s, p1, le) {
        Some(p) => p,
        None => {
            return (None, i);
        },
    };
    let (ln, p3) = match parse_decimal_ws(s, p2, le) {
        Some(p) => p,
        None => {
            return (None, i);
        },
    };
    (
        Some(
            CorrectionFactors {
                azimuth: Decimal::from_units(az),
                inclination: Decimal::from_units(inc),
                length: Decimal::from_units(ln),
            },
        ),
        p3,
    )
}

/// An optional `CORRECTIONS2:` clause of two decimals; on any mismatch
/// no value is taken and the position is left unchanged.
pub open spec fn spec_parse_corrections2(s: Seq<u8>, i: int, le: int) -> (
    Option<BackSightCorrectionFactors>,
    int,
) {
    let tag = lit_bytes("CORRECTIONS2:"@);
    if matches_at(s, i, tag) && i + tag.len() <= le {
        match spec_parse_decimal_ws(s, i + tag.len(), le) {
            Some((az, p1)) => match spec_parse_decimal_ws(s, p1, le) {
                Some((inc, p2)) => (
                    Some(
                        BackSightCorrectionFactors {
                            azimuth: Decimal { units: az as i64 },
                            inclination: Decimal { units: inc as i64 },
                        },
                    ),
                    p2,
                ),
                None => (None, i),
            },
            None => (None, i),
        }
    } else {
        (None, i)
    }
}

/// Parse an optional `CORRECTIONS2:` clause.
pub fn parse_corrections2(s: &[u8], i: usize, le: usize) -> (r: (
    Option<BackSightCorrectionFactors>,
    usize,
))
    requires
        i <= le <= s@.len(),
    ensures
        spec_parse_corrections2(s@, i as int, le as int) == (r.0, r.1 as int),
        i <= r.1 <= le,
{
    proof {
        reveal_strlit("CORRECTIONS2:");
    }
    let p0 = match expect_tag(s, i, "CORRECTIONS2:") {
        Some(p) => p,
        None => {
            return (None, i);
        },
    };
    if p0 > le {
        return (None, i);
    }
    let (az, p1) = match parse_decimal_ws(s, p0, le) {
        Some(p) => p,
        None => {
            return (None, i);
        },
    };
    let (inc, p2) = match parse_decimal_ws(s, p1, le) {
        Some(p) => p,
        None => {
            return (None, i);
        },
    };
    (
        Some(
            BackSightCorrectionFactors {
                azimuth: Decimal::from_units(az),
                inclination: Decimal::from_units(inc),
            },
        ),
        p2,
    )
}

/// The parameters line: `DECLINATION:` and its decimal, `FORMAT:` and an
/// opaque letters-only token that is consumed and discarded, then the
/// two independently optional correction clauses.
pub open spec fn spec_parse_params_line(s: Seq<u8>, i: int) -> Option<(Parameters, int)> {
    match spec_take_line(s, i) {
        Some((le, n)) => {
            let dtag = lit_bytes("DECLINATION:"@);
            if matches_at(s, i, dtag) && i + dtag.len() <= le {
                match spec_parse_decimal_ws(s, i + dtag.len(), le) {
                    Some((decl, p1)) => {
                        let ftag = lit_bytes("FORMAT:"@);
                        if matches_at(s, p1, ftag) && p1 + ftag.len() <= le {
                            let a2 = spec_skip_ws(s, p1 + ftag.len(), le);
                            let j2 = spec_alpha_run_end(s, a2, le);
                            if j2 > a2 {
                                let p3 = spec_skip_ws(s, j2, le);
                                let (cf, p4) = spec_parse_corrections(s, p3, le);
                                let (bcf, p5) = spec_parse_corrections2(s, p4, le);
                                Some(
                                    (
                                        Parameters {
                                            declination: Decimal { units: decl as i64 },
                                            correction_factors: cf,
                                            backsight_correction_factors: bcf,
                                        },
                                        n,
                                    ),
                                )
                            } else {
                                None
                            }
                        } else {
                            None
                        }
                    },
                    None => None,
                }
            } else {
                None
            }
        },
        None => None,
    }
}

/// Parse the parameters line.
#[verifier::rlimit(100)]
#[verifier::spinoff_prover]
pub fn parse_params_line(s: &[u8], i: usize) -> (r: Option<(Parameters, usize)>)
    requires
        i <= s@.len(),
    ensures
        (match r {
            Some((p, n)) => spec_parse_params_line(s@, i as int) == Some((p, n as int)) && i < n
                <= s@.len(),
            None => spec_parse_params_line(s@, i as int) is None,
        }),
{
    proof {
        reveal_strlit("DECLINATION:");
        reveal_strlit("FORMAT:");
    }
    let (le, n) = match take_line(s, i) {
        Some(p) => p,
        None => {
            return None;
        },
    };
    let p0 = match expect_tag(s, i, "DECLINATION:") {
        Some(p) => p,
        None => {
            return None;
        },
    };
    if p0 > le {
        return None;
    }
    let (decl, p1) = match parse_decimal_ws(s, p0, le) {
        Some(p) => p,
        None => {
            return None;
        },
    };
    let p2 = match expect_tag(s, p1, "FORMAT:") {
        Some(p) => p,
        None => {
            return None;
        },
    };
    if p2 > le {
        return None;
    }
    let a2 = skip_ws(s, p2, le);
    let j2 = alpha_run_end(s, a2, le);
    if j2 == a2 {
        return None;
    }
    let p3 = skip_ws(s, j2, le);
    let (cf, p4) = parse_corrections(s, p3, le);
    let (bcf, _p5) = parse_corrections2(s, p4, le);
    Some(
        (
            Parameters {
                declination: Decimal::from_units(decl),
                correction_factors: cf,
                backsight_correction_factors: bcf,
            },
            n,
        ),
    )
}

/// The column-label line: any whitespace, the word `FROM`, and the rest
/// of its line, all discarded, together with any following whitespace.
pub open spec fn spec_skip_labels(s: Seq<u8>, i: int) -> Option<int> {
    if !(0 <= i <= s.len()) {
        None
    } else {
        let a = spec_skip_ws(s, i, s.len() as int);
        if matches_at(s, a, lit_bytes("FROM"@)) {
            let le = crate::parser_utils::spec_line_end(s, a);
            Some(spec_skip_ws(s, le, s.len() as int))
        } else {
            None
        }
    }
}

/// Skip the column-label line.
pub fn skip_labels(s: &[u8], i: usize) -> (r: Option<usize>)
    requires
        i <= s@.len(),
    ensures
        (match r {
            Some(n) => spec_skip_labels(s@, i as int) == Some(n as int) && i <= n <= s@.len(),
            None => spec_skip_labels(s@, i as int) is None,
        }),
{
    proof {
        reveal_strlit("FROM");
    }
    let a = skip_ws(s, i, s.len());
    if !crate::parser_utils::match_tag(s, a, "FROM") {
        return None;
    }
    let le = crate::parser_utils::find_line_end(s, a);
    Some(skip_ws(s, le, s.len()))
}

/// One shot line: from- and to-station names and seven decimals in
/// column order (length, azimuth, inclination, left, up, down, right);
/// anything after the ninth field on the line is ignored.
#[verifier::opaque]
pub open spec fn spec_parse_shot(s: Seq<u8>, i: int) -> Option<(ShotV, int)> {
    match spec_take_line(s, i) {
        Some((le, n)) => {
            let a0 = spec_skip_ws(s, i, le);
            let j0 = spec_name_run_end(s, a0, le);
            if j0 > a0 {
                let a1 = spec_skip_ws(s, j0, le);
                let j1 = spec_name_run_end(s, a1, le);
                if j1 > a1 {
                    match spec_parse_decimal_ws(s, j1, le) {
                        Some((ln, q1)) => match spec_parse_decimal_ws(s, q1, le) {
                            Some((az, q2)) => match spec_parse_decimal_ws(s, q2, le) {
                                Some((inc, q3)) => match spec_parse_decimal_ws(s, q3, le) {
                                    Some((lf, q4)) => match spec_parse_decimal_ws(s, q4, le) {
                                        Some((up, q5)) => match spec_parse_decimal_ws(
                                            s,
                                            q5,
                                            le,
                                        ) {
                                            Some((dn, q6)) => match spec_parse_decimal_ws(
                                                s,
                                                q6,
                                                le,
                                            ) {
                                                Some((rt, _q7)) => Some(
                                                    (
                                                        ShotV {
                                                            from: s.subrange(a0, j0),
                                                            to: s.subrange(a1, j1),
                                                            length: Decimal { units: ln as i64 },
                                                            azimuth: Decimal {
                                                                units: az as i64,
                                                            },
                                                            inclination: Decimal {
                                                                units: inc as i64,
                                                            },
                                                            up: Decimal { units: up as i64 },
                                                            down: Decimal { units: dn as i64 },
                                                            left: Decimal { units: lf as i64 },
                                                            right: Decimal { units: rt as i64 },
                                                            flags: None,
                                                            comment: None,
                                                        },
                                                        n,
                                                    ),
                                                ),
                                                None => None,
                                            },
                                            None => None,
                                        },
                                        None => None,
                                    },
                                    None => None,
                                },
                                None => None,
                            },
                            None => None,
                        },
                        None => None,
                    }
                } else {
                    None
                }
            } else {
                None
            }
        },
        None => None,
    }
}

/// Parse one shot line.
pub fn parse_shot(s: &[u8], i: usize) -> (r: Option<(Shot, usize)>)
    requires
        i <= s@.len(),
    ensures
        (match r {
            Some((sh, n)) => spec_parse_shot(s@, i as int) == Some((sh@, n as int)) && i < n
                <= s@.len(),
            None => spec_parse_shot(s@, i as int) is None,
        }),
{
    proof {
        reveal(spec_parse_shot);
    }
    let (le, n) = match take_line(s, i) {
        Some(p) => p,
        None => {
            return None;
        },
    };
    let a0 = skip_ws(s, i, le);
    let j0 = name_run_end(s, a0, le);
    if j0 == a0 {
        return None;
    }
    let a1 = skip_ws(s, j0, le);
    let j1 = name_run_end(s, a1, le);
    if j1 == a1 {
        return None;
    }
    let (ln, q1) = match parse_decimal_ws(s, j1, le) {
        Some(p) => p,
        None => {
            return None;
        },
    };
    let (az, q2) = match parse_decimal_ws(s, q1, le) {
        Some(p) => p,
        None => {
            return None;
        },
    };
    let (inc, q3) = match parse_decimal_ws(s, q2, le) {
        Some(p) => p,
        None => {
            return None;
        },
    };
    let (lf, q4) = match parse_decimal_ws(s, q3, le) {
        Some(p) => p,
        None => {
            return None;
        },
    };
    let (up, q5) = match parse_decimal_ws(s, q4, le) {
        Some(p) => p,
        None => {
            return None;
        },
    };
    let (dn, q6) = match parse_decimal_ws(s, q5, le) {
        Some(p) => p,
        None => {
            return None;
        },
    };
    let (rt, _q7) = match parse_decimal_ws(s, q6, le) {
        Some(p) => p,
        None => {
            return None;
        },
    };
    let sh = Shot {
        from: copy_range(s, a0, j0),
        to: copy_range(s, a1, j1),
        length: Decimal::from_units(ln),
        azimuth: Decimal::from_units(az),
        inclination: Decimal::from_units(inc),
        up: Decimal::from_units(up),
        down: Decimal::from_units(dn),
        left: Decimal::from_units(lf),
        right: Decimal::from_units(rt),
        flags: None,
        comment: None,
    };
    Some((sh, n))
}

/// As many shot lines as parse, and the offset where the first
/// non-matching line starts.
pub open spec fn spec_parse_shots(s: Seq<u8>, i: int) -> (Seq<ShotV>, int)
    decreases s.len() - i,
{
    if !(0 <= i <= s.len()) {
        (Seq::empty(), i)
    } else {
        match spec_parse_shot(s, i) {
            Some((sh, n)) => {
                if i < n <= s.len() {
                    let (rest, fin) = spec_parse_shots(s, n);
                    (seq![sh] + rest, fin)
                } else {
                    (seq![sh], n)
                }
            },
            None => (Seq::empty(), i),
        }
    }
}

/// Parse shot lines until one does not match.
pub fn parse_shots(s: &[u8], i: usize) -> (r: (Vec<Shot>, usize))
    requires
        i <= s@.len(),
    ensures
        r.0@.map_values(|sh: Shot| sh@) == spec_parse_shots(s@, i as int).0,
        r.1 as int == spec_parse_shots(s@, i as int).1,
        i <= r.1 <= s@.len(),
{
    let mut shots: Vec<Shot> = Vec::new();
    let mut cur: usize = i;
    loop
        invariant
            i <= cur <= s@.len(),
            spec_parse_shots(s@, i as int).0 == shots@.map_values(|sh: Shot| sh@)
                + spec_parse_shots(s@, cur as int).0,
            spec_parse_shots(s@, i as int).1 == spec_parse_shots(s@, cur as int).1,
        ensures
            spec_parse_shot(s@, cur as int) is None,
        decreases s@.len() - cur,
    {
        match parse_shot(s, cur) {
            Some((sh, n)) => {
                proof {
                    let shv = sh@;
                    let prev = shots@.map_values(|x: Shot| x@);
                    assert(shots@.push(sh).map_values(|x: Shot| x@) =~= prev.push(shv));
                    assert(spec_parse_shots(s@, cur as int).0 == seq![shv] + spec_parse_shots(
                        s@,
                        n as int,
                    ).0);
                    assert(prev.push(shv) + spec_parse_shots(s@, n as int).0 =~= prev + (
                    seq![shv] + spec_parse_shots(s@, n as int).0));
                }
                shots.push(sh);
                cur = n;
            },
            None => {
                break ;
            },
        }
    }
    proof {
        assert(spec_parse_shots(s@, cur as int).0 =~= Seq::<ShotV>::empty());
        assert(shots@.map_values(|sh: Shot| sh@) + Seq::<ShotV>::empty() =~= shots@.map_values(
            |sh: Shot| sh@,
        ));
    }
    (shots, cur)
}

/// One whole survey block, ending after trailing whitespace and form
/// feeds.
pub open spec fn spec_parse_survey(s: Seq<u8>, i: int) -> Option<(SurveyV, int)> {
    match spec_parse_cave_line(s, i) {
        Some((cave, n1)) => match spec_parse_name_line(s, n1) {
            Some((nm, n2)) => match spec_parse_date_line(s, n2) {
                Some(((date, cmt), n3)) => match spec_parse_team_lines(s, n3) {
                    Some((team, n4)) => match spec_parse_params_line(s, n4) {
                        Some((params, n5)) => match spec_skip_labels(s, n5) {
                            Some(n6) => {
                                let (shots, n7) = spec_parse_shots(s, n6);
                                let n8 = spec_skip_ws(s, n7, s.len() as int);
                                Some(
                                    (
                                        SurveyV {
                                            cave_name: cave,
                                            name: nm,
                                            date: date,
                                            comment: cmt,
                                            team: team,
                                            parameters: params,
                                            shots: shots,
                                        },
                                        n8,
                                    ),
                                )
                            },
                            None => None,
                        },
                        None => None,
                    },
                    None => None,
                },
                None => None,
            },
            None => None,
        },
        None => None,
    }
}

/// Parse one survey block.
pub fn parse_survey(s: &[u8], i: usize) -> (r: Option<(Survey, usize)>)
    requires
        i <= s@.len(),
    ensures
        (match r {
            Some((sv, n)) => spec_parse_survey(s@, i as int) == Some((sv@, n as int)) && i < n
                <= s@.len(),
            None => spec_parse_survey(s@, i as int) is None,
        }),
{
    let (cave, n1) = match parse_cave_line(s, i) {
        Some(p) => p,
        None => {
            return None;
        },
    };
    let (nm, n2) = match parse_name_line(s, n1) {
        Some(p) => p,
        None => {
            return None;
        },
    };
    let (date, cmt, n3) = match parse_date_line(s, n2) {
        Some(p) => p,
        None => {
            return None;
        },
    };
    let (team, n4) = match parse_team_lines(s, n3) {
        Some(p) => p,
        None => {
            return None;
        },
    };
    let (params, n5) = match parse_params_line(s, n4) {
        Some(p) => p,
        None => {
            return None;
        },
    };
    let n6 = match skip_labels(s, n5) {
        Some(p) => p,
        None => {
            return None;
        },
    };
    let (shots, n7) = parse_shots(s, n6);
    let n8 = skip_ws(s, n7, s.len());
    let sv = Survey {
        cave_name: cave,
        name: nm,
        date,
        comment: cmt,
        team,
        parameters: params,
        shots,
    };
    proof {
        assert(sv@.shots =~= spec_parse_shots(s@, n6 as int).0);
    }
    Some((sv, n8))
}

/// As many survey blocks as parse, and the offset where the unconsumed
/// remainder starts.
pub open spec fn spec_parse_dat(s: Seq<u8>, i: int) -> (Seq<SurveyV>, int)
    decreases s.len() - i,
{
    if !(0 <= i <= s.len()) {
        (Seq::empty(), i)
    } else {
        match spec_parse_survey(s, i) {
            Some((sv, n)) => {
                if i < n <= s.len() {
                    let (rest, fin) = spec_parse_dat(s, n);
                    (seq![sv] + rest, fin)
                } else {
                    (seq![sv], n)
                }
            },
            None => (Seq::empty(), i),
        }
    }
}

/// Parse a whole survey-data file: every block that parses, in order,
/// and the offset of the unconsumed remainder.
pub fn parse_dat_file(s: &[u8]) -> (r: (Vec<Survey>, usize))
    ensures
        r.0@.map_values(|sv: Survey| sv@) == spec_parse_dat(s@, 0).0,
        r.1 as int == spec_parse_dat(s@, 0).1,
        r.1 <= s@.len(),
{
    let mut surveys: Vec<Survey> = Vec::new();
    let mut cur: usize = 0;
    loop
        invariant
            cur <= s@.len(),
            spec_parse_dat(s@, 0).0 == surveys@.map_values(|sv: Survey| sv@) + spec_parse_dat(
                s@,
                cur as int,
            ).0,
            spec_parse_dat(s@, 0).1 == spec_parse_dat(s@, cur as int).1,
        ensures
            spec_parse_survey(s@, cur as int) is None,
        decreases s@.len() - cur,
    {
        match parse_survey(s, cur) {
            Some((sv, n)) => {
                proof {
                    let svv = sv@;
                    let prev = surveys@.map_values(|x: Survey| x@);
                    assert(surveys@.push(sv).map_values(|x: Survey| x@) =~= prev.push(svv));
                    assert(spec_parse_dat(s@, cur as int).0 == seq![svv] + spec_parse_dat(
                        s@,
                        n as int,
                    ).0);
                    assert(prev.push(svv) + spec_parse_dat(s@, n as int).0 =~= prev + (seq![svv]
                        + spec_parse_dat(s@, n as int).0));
                }
                surveys.push(sv);
                cur = n;
            },
            None => {
                break ;
            },
        }
    }
    proof {
        assert(spec_parse_dat(s@, cur as int).0 =~= Seq::<SurveyV>::empty());
        assert(surveys@.map_values(|sv: Survey| sv@) + Seq::<SurveyV>::empty()
            =~= surveys@.map_values(|sv: Survey| sv@));
    }
    (surveys, cur)
}

} // verus!
