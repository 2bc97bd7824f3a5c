//! The project-directive grammar.
//!
//! A project file is a stream of directives, each opened by a marker
//! byte and closed by a semicolon: `@` base location, `&` datum, `/`
//! comment, `#` survey-data file with optional fixed stations, `[name;`
//! folder push, `];` folder pop, `$` zone override; line breaks and
//! other whitespace pass freely between directives.  Parsing folds the
//! directive stream into an accumulator; it succeeds once no further
//! directive matches, provided a base location and a datum were both
//! seen, and fails outright on a folder pop with no open folder.
use vstd::prelude::*;

verus! {

use crate::common_types::{
    COORD_UNITS_MAX, Decimal, EastNorthElevation, UtmLocation, spec_from_feet, spec_from_meters,
};
use crate::error::Error;
use crate::parser_utils::{
    expect_tag, is_line_break, is_ws, lit_bytes, match_tag, matches_at, parse_decimal_ws,
    parse_uint, skip_ws, spec_name_run_end, spec_parse_decimal_ws, spec_parse_uint, spec_skip_ws,
    spec_trimmed, copy_trimmed, name_run_end,
};
use crate::project::{Datum, Project, ProjectV, Station, StationV, SurveyFile, SurveyFileV,
    Unloaded};

/// A coordinate component that both unit conversions can scale without
/// overflowing.
pub open spec fn in_coord_range(v: int) -> bool {
    -COORD_UNITS_MAX <= v <= COORD_UNITS_MAX
}

/// One recognized project directive, reduced to what the fold needs:
/// comments, folder names and whitespace carry nothing.
pub enum ProjectElement {
    BaseLocation(UtmLocation),
    Comment,
    Datum(Datum),
    File(SurveyFileV),
    PushFolder,
    PopFolder,
    UtmZone(u8),
    Whitespace,
}

/// First offset at or after `i` holding a byte that ends a comment: a
/// slash or a line break; or the length of `s`.
pub open spec fn spec_comment_end(s: Seq<u8>, i: int) -> int
    decreases s.len() - i,
{
    if 0 <= i && i < s.len() && !(s[i] == 47u8 || is_line_break(s[i])) {
        spec_comment_end(s, i + 1)
    } else {
        i
    }
}

/// Advance to the byte that ends a comment.
pub fn comment_end(s: &[u8], i: usize) -> (r: usize)
    requires
        i <= s@.len(),
    ensures
        r == spec_comment_end(s@, i as int),
        i <= r <= s@.len(),
{
    let mut j: usize = i;
    while j < s.len() && s[j] != 47 && s[j] != 10 && s[j] != 13
        invariant
            i <= j <= s@.len(),
            spec_comment_end(s@, i as int) == spec_comment_end(s@, j as int),
        decreases s@.len() - j,
    {
        j += 1;
    }
    j
}

/// First offset at or after `i` holding a comma or semicolon, or the
/// length of `s`: the end of a file path.
pub open spec fn spec_path_end(s: Seq<u8>, i: int) -> int
    decreases s.len() - i,
{
    if 0 <= i && i < s.len() && !(s[i] == 44u8 || s[i] == 59u8) {
        spec_path_end(s, i + 1)
    } else {
        i
    }
}

/// Advance to the comma or semicolon that ends a file path.
pub fn path_end(s: &[u8], i: usize) -> (r: usize)
    requires
        i <= s@.len(),
    ensures
        r == spec_path_end(s@, i as int),
        i <= r <= s@.len(),
{
    let mut j: usize = i;
    while j < s.len() && s[j] != 44 && s[j] != 59
        invariant
            i <= j <= s@.len(),
            spec_path_end(s@, i as int) == spec_path_end(s@, j as int),
        decreases s@.len() - j,
    {
        j += 1;
    }
    j
}

/// First offset at or after `i` holding a semicolon, or the length of
/// `s`.
pub open spec fn spec_semi_end(s: Seq<u8>, i: int) -> int
    decreases s.len() - i,
{
    if 0 <= i && i < s.len() && s[i] != 59u8 {
        spec_semi_end(s, i + 1)
    } else {
        i
    }
}

/// Advance to the next semicolon.
pub fn semi_end(s: &[u8], i: usize) -> (r: usize)
    requires
        i <= s@.len(),
    ensures
        r == spec_semi_end(s@, i as int),
        i <= r <= s@.len(),
{
    let mut j: usize = i;
    while j < s.len() && s[j] != 59
        invariant
            i <= j <= s@.len(),
            spec_semi_end(s@, i as int) == spec_semi_end(s@, j as int),
        decreases s@.len() - j,
    {
        j += 1;
    }
    j
}

/// The `@` base-location directive: east, north and elevation in
/// meters, the zone, and the convergence angle, comma-separated and
/// closed by a semicolon.  A coordinate too large to convert exactly is
/// a failed parse.
pub open spec fn spec_parse_base_location(s: Seq<u8>, i: int) -> Option<(UtmLocation, int)> {
    if !(0 <= i && i < s.len() && s[i] == 64u8) {
        None
    } else {
        let end = s.len() as int;
        match spec_parse_decimal_ws(s, i + 1, end) {
            Some((e, p1)) => if p1 < end && s[p1] == 44u8 {
                match spec_parse_decimal_ws(s, p1 + 1, end) {
                    Some((nn, p2)) => if p2 < end && s[p2] == 44u8 {
                        match spec_parse_decimal_ws(s, p2 + 1, end) {
                            Some((el, p3)) => if p3 < end && s[p3] == 44u8 {
                                match spec_parse_uint(s, p3 + 1, end, 255) {
                                    Some((z, p4)) => if p4 < end && s[p4] == 44u8 {
                                        match spec_parse_decimal_ws(s, p4 + 1, end) {
                                            Some((cv, p5)) => if p5 < end && s[p5] == 59u8
                                                && in_coord_range(e) && in_coord_range(nn)
                                                && in_coord_range(el) {
                                                Some(
                                                    (
                                                        UtmLocation {
                                                            east_north_elevation: spec_from_meters(
                                                                e as i64,
                                                                nn as i64,
                                                                el as i64,
                                                            ),
                                                            zone: z as u8,
                                                            convergence_angle: Decimal {
                                                                units: cv as i64,
                                                            },
                                                        },
                                                        p5 + 1,
                                                    ),
                                                )
                                            } else {
                                                None
                                            },
                                            None => None,
                                        }
                                    } else {
                                        None
                                    },
                                    None => None,
                                }
                            } else {
                                None
                            },
                            None => None,
                        }
                    } else {
                        None
                    },
                    None => None,
                }
            } else {
                None
            },
            None => None,
        }
    }
}

/// Parse the `@` base-location directive.
#[verifier::rlimit(100)]
#[verifier::spinoff_prover]
pub fn parse_base_location(s: &[u8], i: usize) -> (r: Option<(UtmLocation, usize)>)
    requires
        i < s@.len(),
        s@[i as int] == 64u8,
    ensures
        (match r {
            Some((loc, n)) => spec_parse_base_location(s@, i as int) == Some((loc, n as int))
                && i < n <= s@.len(),
            None => spec_parse_base_location(s@, i as int) is None,
        }),
{
    let end = s.len();
    let (e, p1) = match parse_decimal_ws(s, i + 1, end) {
        Some(p) => p,
        None => {
            return None;
        },
    };
    if !(p1 < end && s[p1] == 44) {
        return None;
    }
    let (nn, p2) = match parse_decimal_ws(s, p1 + 1, end) {
        Some(p) => p,
        None => {
            return None;
        },
    };
    if !(p2 < end && s[p2] == 44) {
        return None;
    }
    let (el, p3) = match parse_decimal_ws(s, p2 + 1, end) {
        Some(p) => p,
        None => {
            return None;
        },
    };
    if !(p3 < end && s[p3] == 44) {
        return None;
    }
    let (z, p4) = match parse_uint(s, p3 + 1, end, 255) {
        Some(p) => p,
        None => {
            return None;
        },
    };
    if !(p4 < end && s[p4] == 44) {
        return None;
    }
    let (cv, p5) = match parse_decimal_ws(s, p4 + 1, end) {
        Some(p) => p,
        None => {
            return None;
        },
    };
    if !(p5 < end && s[p5] == 59) {
        return None;
    }
    if e < -COORD_UNITS_MAX || e > COORD_UNITS_MAX || nn < -COORD_UNITS_MAX || nn
        > COORD_UNITS_MAX || el < -COORD_UNITS_MAX || el > COORD_UNITS_MAX {
        return None;
    }
    let loc = UtmLocation {
        east_north_elevation: EastNorthElevation::from_meters(
            Decimal::from_units(e),
            Decimal::from_units(nn),
            Decimal::from_units(el),
        ),
        zone: z as u8,
        convergence_angle: Decimal::from_units(cv),
    };
    Some((loc, p5 + 1))
}

/// The name written for each datum in a project file.
pub open spec fn spec_datum_name(d: Datum) -> Seq<u8> {
    match d {
        Datum::Adindan => lit_bytes("Adindan"@),
        Datum::Arc1950 => lit_bytes("Arc 1950"@),
        Datum::Arc1960 => lit_bytes("Arc 1960"@),
        Datum::Australian1966 => lit_bytes("Australian 1966"@),
        Datum::Australian1984 => lit_bytes("Australian 1984"@),
        Datum::CampAreaAstro => lit_bytes("Camp Area Astro"@),
        Datum::Cape => lit_bytes("Cape"@),
        Datum::European1950 => lit_bytes("European 1950"@),
        Datum::European1979 => lit_bytes("European 1979"@),
        Datum::Geodetic1949 => lit_bytes("Geodetic 1949"@),
        Datum::HongKong1963 => lit_bytes("HongKong 1963"@),
        Datum::HuTzuShan => lit_bytes("HuTzuShan"@),
        Datum::Indian => lit_bytes("Indian"@),
        Datum::NorthAmerican1927 => lit_bytes("North American 1927"@),
        Datum::NorthAmerican1983 => lit_bytes("North American 1983"@),
        Datum::Oman => lit_bytes("Oman"@),
        Datum::OrdinanceSurvey1936 => lit_bytes("Ordinance Survey 1936"@),
        Datum::Pulkovo1942 => lit_bytes("Pulkovo 1942"@),
        Datum::SouthAmerican1956 => lit_bytes("South American 1956"@),
        Datum::SouthAmerican1969 => lit_bytes("South American 1969"@),
        Datum::Tokyo => lit_bytes("Tokyo"@),
        Datum::Wgs1972 => lit_bytes("Wgs 1972"@),
        Datum::Wgs1984 => lit_bytes("Wgs 1984"@),
    }
}

/// The datum whose name occurs at `i`, tried in a fixed order.
pub open spec fn spec_match_datum(s: Seq<u8>, i: int) -> Option<(Datum, int)> {
    if matches_at(s, i, spec_datum_name(Datum::Adindan)) {
        Some((Datum::Adindan, i + spec_datum_name(Datum::Adindan).len()))
    } else if matches_at(s, i, spec_datum_name(Datum::Arc1950)) {
        Some((Datum::Arc1950, i + spec_datum_name(Datum::Arc1950).len()))
    } else if matches_at(s, i, spec_datum_name(Datum::Arc1960)) {
        Some((Datum::Arc1960, i + spec_datum_name(Datum::Arc1960).len()))
    } else if matches_at(s, i, spec_datum_name(Datum::Australian1966)) {
        Some((Datum::Australian1966, i + spec_datum_name(Datum::Australian1966).len()))
    } else if matches_at(s, i, spec_datum_name(Datum::Australian1984)) {
        Some((Datum::Australian1984, i + spec_datum_name(Datum::Australian1984).len()))
    } else if matches_at(s, i, spec_datum_name(Datum::CampAreaAstro)) {
        Some((Datum::CampAreaAstro, i + spec_datum_name(Datum::CampAreaAstro).len()))
    } else if matches_at(s, i, spec_datum_name(Datum::Cape)) {
        Some((Datum::Cape, i + spec_datum_name(Datum::Cape).len()))
    } else if matches_at(s, i, spec_datum_name(Datum::European1950)) {
        Some((Datum::European1950, i + spec_datum_name(Datum::European1950).len()))
    } else if matches_at(s, i, spec_datum_name(Datum::European1979)) {
        Some((Datum::European1979, i + spec_datum_name(Datum::European1979).len()))
    } else if matches_at(s, i, spec_datum_name(Datum::Geodetic1949)) {
        Some((Datum::Geodetic1949, i + spec_datum_name(Datum::Geodetic1949).len()))
    } else if matches_at(s, i, spec_datum_name(Datum::HongKong1963)) {
        Some((Datum::HongKong1963, i + spec_datum_name(Datum::HongKong1963).len()))
    } else if matches_at(s, i, spec_datum_name(Datum::HuTzuShan)) {
        Some((Datum::HuTzuShan, i + spec_datum_name(Datum::HuTzuShan).len()))
    } else if matches_at(s, i, spec_datum_name(Datum::Indian)) {
        Some((Datum::Indian, i + spec_datum_name(Datum::Indian).len()))
    } else if matches_at(s, i, spec_datum_name(Datum::NorthAmerican1927)) {
        Some((Datum::NorthAmerican1927, i + spec_datum_name(Datum::NorthAmerican1927).len()))
    } else if matches_at(s, i, spec_datum_name(Datum::NorthAmerican1983)) {
        Some((Datum::NorthAmerican1983, i + spec_datum_name(Datum::NorthAmerican1983).len()))
    } else if matches_at(s, i, spec_datum_name(Datum::Oman)) {
        Some((Datum::Oman, i + spec_datum_name(Datum::Oman).len()))
    } else if matches_at(s, i, spec_datum_name(Datum::OrdinanceSurvey1936)) {
        Some((Datum::OrdinanceSurvey1936, i + spec_datum_name(Datum::OrdinanceSurvey1936).len()))
    } else if matches_at(s, i, spec_datum_name(Datum::Pulkovo1942)) {
        Some((Datum::Pulkovo1942, i + spec_datum_name(Datum::Pulkovo1942).len()))
    } else if matches_at(s, i, spec_datum_name(Datum::SouthAmerican1956)) {
        Some((Datum::SouthAmerican1956, i + spec_datum_name(Datum::SouthAmerican1956).len()))
    } else if matches_at(s, i, spec_datum_name(Datum::SouthAmerican1969)) {
        Some((Datum::SouthAmerican1969, i + spec_datum_name(Datum::SouthAmerican1969).len()))
    } else if matches_at(s, i, spec_datum_name(Datum::Tokyo)) {
        Some((Datum::Tokyo, i + spec_datum_name(Datum::Tokyo).len()))
    } else if matches_at(s, i, spec_datum_name(Datum::Wgs1972)) {
        Some((Datum::Wgs1972, i + spec_datum_name(Datum::Wgs1972).len()))
    } else if matches_at(s, i, spec_datum_name(Datum::Wgs1984)) {
        Some((Datum::Wgs1984, i + spec_datum_name(Datum::Wgs1984).len()))
    } else {
        None
    }
}

/// The `&` datum directive: one of the fixed names, closed by a
/// semicolon.
pub open spec fn spec_parse_datum(s: Seq<u8>, i: int) -> Option<(Datum, int)> {
    if !(0 <= i && i < s.len() && s[i] == 38u8) {
        None
    } else {
        match spec_match_datum(s, i + 1) {
            Some((d, p)) => if p < s.len() && s[p] == 59u8 {
                Some((d, p + 1))
            } else {
                None
            },
            None => None,
        }
    }
}

/// Parse the name of one datum.
#[verifier::rlimit(100)]
#[verifier::spinoff_prover]
pub fn match_datum(s: &[u8], i: usize) -> (r: Option<(Datum, usize)>)
    requires
        i <= s@.len(),
    ensures
        (match r {
            Some((d, n)) => spec_match_datum(s@, i as int) == Some((d, n as int)) && i <= n
                <= s@.len(),
            None => spec_match_datum(s@, i as int) is None,
        }),
{
    proof {
        reveal_strlit("Adindan");
        reveal_strlit("Arc 1950");
        reveal_strlit("Arc 1960");
        reveal_strlit("Australian 1966");
        reveal_strlit("Australian 1984");
        reveal_strlit("Camp Area Astro");
        reveal_strlit("Cape");
        reveal_strlit("European 1950");
        reveal_strlit("European 1979");
        reveal_strlit("Geodetic 1949");
        reveal_strlit("HongKong 1963");
        reveal_strlit("HuTzuShan");
        reveal_strlit("Indian");
        reveal_strlit("North American 1927");
        reveal_strlit("North American 1983");
        reveal_strlit("Oman");
        reveal_strlit("Ordinance Survey 1936");
        reveal_strlit("Pulkovo 1942");
        reveal_strlit("South American 1956");
        reveal_strlit("South American 1969");
        reveal_strlit("Tokyo");
        reveal_strlit("Wgs 1972");
        reveal_strlit("Wgs 1984");
    }
    if let Some(n) = expect_tag(s, i, "Adindan") {
        Some((Datum::Adindan, n))
    } else if let Some(n) = expect_tag(s, i, "Arc 1950") {
        Some((Datum::Arc1950, n))
    } else if let Some(n) = expect_tag(s, i, "Arc 1960") {
        Some((Datum::Arc1960, n))
    } else if let Some(n) = expect_tag(s, i, "Australian 1966") {
        Some((Datum::Australian1966, n))
    } else if let Some(n) = expect_tag(s, i, "Australian 1984") {
        Some((Datum::Australian1984, n))
    } else if let Some(n) = expect_tag(s, i, "Camp Area Astro") {
        Some((Datum::CampAreaAstro, n))
    } else if let Some(n) = expect_tag(s, i, "Cape") {
        Some((Datum::Cape, n))
    } else if let Some(n) = expect_tag(s, i, "European 1950") {
        Some((Datum::European1950, n))
    } else if let Some(n) = expect_tag(s, i, "European 1979") {
        Some((Datum::European1979, n))
    } else if let Some(n) = expect_tag(s, i, "Geodetic 1949") {
        Some((Datum::Geodetic1949, n))
    } else if let Some(n) = expect_tag(s, i, "HongKong 1963") {
        Some((Datum::HongKong1963, n))
    } else if let Some(n) = expect_tag(s, i, "HuTzuShan") {
        Some((Datum::HuTzuShan, n))
    } else if let Some(n) = expect_tag(s, i, "Indian") {
        Some((Datum::Indian, n))
    } else if let Some(n) = expect_tag(s, i, "North American 1927") {
        Some((Datum::NorthAmerican1927, n))
    } else if let Some(n) = expect_tag(s, i, "North American 1983") {
        Some((Datum::NorthAmerican1983, n))
    } else if let Some(n) = expect_tag(s, i, "Oman") {
        Some((Datum::Oman, n))
    } else if let Some(n) = expect_tag(s, i, "Ordinance Survey 1936") {
        Some((Datum::OrdinanceSurvey1936, n))
    } else if let Some(n) = expect_tag(s, i, "Pulkovo 1942") {
        Some((Datum::Pulkovo1942, n))
    } else if let Some(n) = expect_tag(s, i, "South American 1956") {
        Some((Datum::SouthAmerican1956, n))
    } else if let Some(n) = expect_tag(s, i, "South American 1969") {
        Some((Datum::SouthAmerican1969, n))
    } else if let Some(n) = expect_tag(s, i, "Tokyo") {
        Some((Datum::Tokyo, n))
    } else if let Some(n) = expect_tag(s, i, "Wgs 1972") {
        Some((Datum::Wgs1972, n))
    } else if let Some(n) = expect_tag(s, i, "Wgs 1984") {
        Some((Datum::Wgs1984, n))
    } else {
        None
    }
}

/// Parse the `&` datum directive.
pub fn parse_datum(s: &[u8], i: usize) -> (r: Option<(Datum, usize)>)
    requires
        i < s@.len(),
        s@[i as int] == 38u8,
    ensures
        (match r {
            Some((d, n)) => spec_parse_datum(s@, i as int) == Some((d, n as int)) && i < n
                <= s@.len(),
            None => spec_parse_datum(s@, i as int) is None,
        }),
{
    let slen: usize = s.len();
    let (d, p) = match match_datum(s, i + 1) {
        Some(p) => p,
        None => {
            return None;
        },
    };
    if p < s.len() && s[p] == 59 {
        Some((d, p + 1))
    } else {
        None
    }
}

/// Skip whitespace and `/`-opened comments between stations.
pub open spec fn spec_skip_station_junk(s: Seq<u8>, i: int) -> int
    decreases s.len() - i,
{
    if !(0 <= i && i < s.len()) {
        i
    } else if is_ws(s[i]) {
        spec_skip_station_junk(s, i + 1)
    } else if s[i] == 47u8 {
        let j = spec_comment_end(s, i + 1);
        if i < j <= s.len() {
            spec_skip_station_junk(s, j)
        } else {
            j
        }
    } else {
        i
    }
}

/// Advance past whitespace and comments between stations.
pub fn skip_station_junk(s: &[u8], i: usize) -> (r: usize)
    requires
        i <= s@.len(),
    ensures
        r == spec_skip_station_junk(s@, i as int),
        i <= r <= s@.len(),
{
    let mut j: usize = i;
    loop
        invariant
            i <= j <= s@.len(),
            spec_skip_station_junk(s@, i as int) == spec_skip_station_junk(s@, j as int),
        ensures
            j <= s@.len(),
            spec_skip_station_junk(s@, i as int) == j,
        decreases s@.len() - j,
    {
        if j < s.len() && (s[j] == 32 || (9 <= s[j] && s[j] <= 13)) {
            j += 1;
        } else if j < s.len() && s[j] == 47 {
            let c = comment_end(s, j + 1);
            proof {
                assert(spec_skip_station_junk(s@, j as int) == spec_skip_station_junk(
                    s@,
                    c as int,
                ));
            }
            j = c;
        } else {
            break ;
        }
    }
    j
}

/// A bracketed coordinate fix: a case-insensitive unit tag (`m` meters,
/// `f` feet), then east, north and elevation, comma-separated and
/// closed by a bracket.  A component too large to convert exactly is a
/// failed parse.
pub open spec fn spec_parse_station_fix(s: Seq<u8>, i: int) -> Option<(EastNorthElevation, int)> {
    if !(0 <= i && i < s.len() && s[i] == 91u8) {
        None
    } else {
        let end = s.len() as int;
        let a = spec_skip_ws(s, i + 1, end);
        if a < end && (s[a] == 109u8 || s[a] == 77u8 || s[a] == 102u8 || s[a] == 70u8) {
            let b = spec_skip_ws(s, a + 1, end);
            if b < end && s[b] == 44u8 {
                match spec_parse_decimal_ws(s, b + 1, end) {
                    Some((e, p1)) => if p1 < end && s[p1] == 44u8 {
                        match spec_parse_decimal_ws(s, p1 + 1, end) {
                            Some((nn, p2)) => if p2 < end && s[p2] == 44u8 {
                                match spec_parse_decimal_ws(s, p2 + 1, end) {
                                    Some((u, p3)) => if p3 < end && s[p3] == 93u8
                                        && in_coord_range(e) && in_coord_range(nn)
                                        && in_coord_range(u) {
                                        let c = if s[a] == 109u8 || s[a] == 77u8 {
                                            spec_from_meters(e as i64, nn as i64, u as i64)
                                        } else {
                                            spec_from_feet(e as i64, nn as i64, u as i64)
                                        };
                                        Some((c, p3 + 1))
                                    } else {
                                        None
                                    },
                                    None => None,
                                }
                            } else {
                                None
                            },
                            None => None,
                        }
                    } else {
                        None
                    },
                    None => None,
                }
            } else {
                None
            }
        } else {
            None
        }
    }
}

/// Parse a bracketed coordinate fix.
#[verifier::rlimit(100)]
#[verifier::spinoff_prover]
pub fn parse_station_fix(s: &[u8], i: usize) -> (r: Option<(EastNorthElevation, usize)>)
    requires
        i <= s@.len(),
    ensures
        (match r {
            Some((c, n)) => spec_parse_station_fix(s@, i as int) == Some((c, n as int)) && i < n
                <= s@.len(),
            None => spec_parse_station_fix(s@, i as int) is None,
        }),
{
    if !(i < s.len() && s[i] == 91) {
        return None;
    }
    let end = s.len();
    let a = skip_ws(s, i + 1, end);
    if !(a < end && (s[a] == 109 || s[a] == 77 || s[a] == 102 || s[a] == 70)) {
        return None;
    }
    let meters = s[a] == 109 || s[a] == 77;
    let b = skip_ws(s, a + 1, end);
    if !(b < end && s[b] == 44) {
        return None;
    }
    let (e, p1) = match parse_decimal_ws(s, b + 1, end) {
        Some(p) => p,
        None => {
            return None;
        },
    };
    if !(p1 < end && s[p1] == 44) {
        return None;
    }
    let (nn, p2) = match parse_decimal_ws(s, p1 + 1, end) {
        Some(p) => p,
        None => {
            return None;
        },
    };
    if !(p2 < end && s[p2] == 44) {
        return None;
    }
    let (u, p3) = match parse_decimal_ws(s, p2 + 1, end) {
        Some(p) => p,
        None => {
            return None;
        },
    };
    if !(p3 < end && s[p3] == 93) {
        return None;
    }
    if e < -COORD_UNITS_MAX || e > COORD_UNITS_MAX || nn < -COORD_UNITS_MAX || nn
        > COORD_UNITS_MAX || u < -COORD_UNITS_MAX || u > COORD_UNITS_MAX {
        return None;
    }
    let c = if meters {
        EastNorthElevation::from_meters(
            Decimal::from_units(e),
            Decimal::from_units(nn),
            Decimal::from_units(u),
        )
    } else {
        EastNorthElevation::from_feet(
            Decimal::from_units(e),
            Decimal::from_units(nn),
            Decimal::from_units(u),
        )
    };
    Some((c, p3 + 1))
}

/// One station declaration: a comma, optional whitespace and comments,
/// a possibly empty station name, and an optional coordinate fix; a
/// bracket that fails to parse as a fix leaves the position on the
/// bracket, with no fix taken.
pub open spec fn spec_parse_station(s: Seq<u8>, i: int) -> Option<(StationV, int)> {
    if !(0 <= i && i < s.len() && s[i] == 44u8) {
        None
    } else {
        let a = spec_skip_station_junk(s, i + 1);
        let j0 = spec_name_run_end(s, a, s.len() as int);
        let b = spec_skip_ws(s, j0, s.len() as int);
        let name = s.subrange(a, j0);
        match spec_parse_station_fix(s, b) {
            Some((c, p)) => Some((StationV { name: name, location: Some(c) }, p)),
            None => Some((StationV { name: name, location: None }, b)),
        }
    }
}

/// Parse one station declaration.
pub fn parse_station(s: &[u8], i: usize) -> (r: Option<(Station, usize)>)
    requires
        i <= s@.len(),
    ensures
        (match r {
            Some((st, n)) => spec_parse_station(s@, i as int) == Some((st@, n as int)) && i < n
                <= s@.len(),
            None => spec_parse_station(s@, i as int) is None,
        }),
{
    if !(i < s.len() && s[i] == 44) {
        return None;
    }
    let a = skip_station_junk(s, i + 1);
    let j0 = name_run_end(s, a, s.len());
    let b = skip_ws(s, j0, s.len());
    let name = crate::parser_utils::copy_range(s, a, j0);
    match parse_station_fix(s, b) {
        Some((c, p)) => Some((Station { name, location: Some(c) }, p)),
        None => Some((Station { name, location: None }, b)),
    }
}

/// As many station declarations as parse, and the offset after them.
pub open spec fn spec_parse_stations(s: Seq<u8>, i: int) -> (Seq<StationV>, int)
    decreases s.len() - i,
{
    if !(0 <= i <= s.len()) {
        (Seq::empty(), i)
    } else {
        match spec_parse_station(s, i) {
            Some((st, n)) => {
                if i < n <= s.len() {
                    let (rest, fin) = spec_parse_stations(s, n);
                    (seq![st] + rest, fin)
                } else {
                    (seq![st], n)
                }
            },
            None => (Seq::empty(), i),
        }
    }
}

/// Parse station declarations until one does not match.
pub fn parse_stations(s: &[u8], i: usize) -> (r: (Vec<Station>, usize))
    requires
        i <= s@.len(),
    ensures
        r.0@.map_values(|st: Station| st@) == spec_parse_stations(s@, i as int).0,
        r.1 as int == spec_parse_stations(s@, i as int).1,
        i <= r.1 <= s@.len(),
{
    let mut stations: Vec<Station> = Vec::new();
    let mut cur: usize = i;
    loop
        invariant
            i <= cur <= s@.len(),
            spec_parse_stations(s@, i as int).0 == stations@.map_values(|st: Station| st@)
                + spec_parse_stations(s@, cur as int).0,
            spec_parse_stations(s@, i as int).1 == spec_parse_stations(s@, cur as int).1,
        ensures
            spec_parse_station(s@, cur as int) is None,
        decreases s@.len() - cur,
    {
        match parse_station(s, cur) {
            Some((st, n)) => {
                proof {
                    let stv = st@;
                    let prev = stations@.map_values(|x: Station| x@);
                    assert(stations@.push(st).map_values(|x: Station| x@) =~= prev.push(stv));
                    assert(spec_parse_stations(s@, cur as int).0 == seq![stv]
                        + spec_parse_stations(s@, n as int).0);
                    assert(prev.push(stv) + spec_parse_stations(s@, n as int).0 =~= prev + (
                    seq![stv] + spec_parse_stations(s@, n as int).0));
                }
                stations.push(st);
                cur = n;
            },
            None => {
                break ;
            },
        }
    }
    proof {
        assert(spec_parse_stations(s@, cur as int).0 =~= Seq::<StationV>::empty());
        assert(stations@.map_values(|st: Station| st@) + Seq::<StationV>::empty()
            =~= stations@.map_values(|st: Station| st@));
    }
    (stations, cur)
}

/// The `#` survey-data file directive: a path running to the next comma
/// or semicolon (trimmed), station declarations, and the closing
/// semicolon.
pub open spec fn spec_parse_file(s: Seq<u8>, i: int) -> Option<(SurveyFileV, int)> {
    if !(0 <= i && i < s.len() && s[i] == 35u8) {
        None
    } else {
        let a = spec_skip_ws(s, i + 1, s.len() as int);
        let j = spec_path_end(s, a);
        if j == a {
            None
        } else {
            let path = spec_trimmed(s, a, j);
            let (stations, p) = spec_parse_stations(s, j);
            if p < s.len() && s[p] == 59u8 {
                Some(
                    (
                        SurveyFileV {
                            file_path: path,
                            project_stations: stations,
                            surveys: Seq::empty(),
                        },
                        p + 1,
                    ),
                )
            } else {
                None
            }
        }
    }
}

/// Parse the `#` survey-data file directive.
pub fn parse_file_entry(s: &[u8], i: usize) -> (r: Option<(SurveyFile<Unloaded>, usize)>)
    requires
        i < s@.len(),
        s@[i as int] == 35u8,
    ensures
        (match r {
            Some((f, n)) => spec_parse_file(s@, i as int) == Some((f@, n as int)) && i < n
                <= s@.len(),
            None => spec_parse_file(s@, i as int) is None,
        }),
{
    let slen: usize = s.len();
    let a = skip_ws(s, i + 1, slen);
    let j = path_end(s, a);
    if j == a {
        return None;
    }
    let path = copy_trimmed(s, a, j);
    let (stations, p) = parse_stations(s, j);
    if p < s.len() && s[p] == 59 {
        let f = SurveyFile::<Unloaded>::new(path, stations);
        proof {
            assert(f@ =~= spec_parse_file(s@, i as int).unwrap().0);
        }
        Some((f, p + 1))
    } else {
        None
    }
}

/// The `[` folder-push directive: at least one byte of folder name,
/// then the closing semicolon.
pub open spec fn spec_parse_push(s: Seq<u8>, i: int) -> Option<int> {
    if !(0 <= i && i < s.len() && s[i] == 91u8) {
        None
    } else {
        let j = spec_semi_end(s, i + 1);
        if j < s.len() && j > i + 1 {
            Some(j + 1)
        } else {
            None
        }
    }
}

/// The `]` folder-pop directive: the closing semicolon must follow at
/// once.
pub open spec fn spec_parse_pop(s: Seq<u8>, i: int) -> Option<int> {
    if 0 <= i && i + 1 < s.len() && s[i] == 93u8 && s[i + 1] == 59u8 {
        Some(i + 2)
    } else {
        None
    }
}

/// The `$` zone-override directive: a zone number and the closing
/// semicolon.
pub open spec fn spec_parse_zone(s: Seq<u8>, i: int) -> Option<(u8, int)> {
    if !(0 <= i && i < s.len() && s[i] == 36u8) {
        None
    } else {
        match spec_parse_uint(s, i + 1, s.len() as int, 255) {
            Some((z, p)) => if p < s.len() && s[p] == 59u8 {
                Some((z as u8, p + 1))
            } else {
                None
            },
            None => None,
        }
    }
}

/// Parse the `$` zone-override directive.
pub fn parse_zone(s: &[u8], i: usize) -> (r: Option<(u8, usize)>)
    requires
        i < s@.len(),
        s@[i as int] == 36u8,
    ensures
        (match r {
            Some((z, n)) => spec_parse_zone(s@, i as int) == Some((z, n as int)) && i < n
                <= s@.len(),
            None => spec_parse_zone(s@, i as int) is None,
        }),
{
    let (z, p) = match parse_uint(s, i + 1, s.len(), 255) {
        Some(p) => p,
        None => {
            return None;
        },
    };
    if p < s.len() && s[p] == 59 {
        Some((z as u8, p + 1))
    } else {
        None
    }
}

/// The next project directive at `i`, chosen by its marker byte, with
/// the offset just past it.  `None` when no directive matches.
pub open spec fn spec_parse_element(s: Seq<u8>, i: int) -> Option<(ProjectElement, int)> {
    if !(0 <= i && i < s.len()) {
        None
    } else if s[i] == 64u8 {
        match spec_parse_base_location(s, i) {
            Some((b, n)) => Some((ProjectElement::BaseLocation(b), n)),
            None => None,
        }
    } else if s[i] == 38u8 {
        match spec_parse_datum(s, i) {
            Some((d, n)) => Some((ProjectElement::Datum(d), n)),
            None => None,
        }
    } else if s[i] == 47u8 {
        Some((ProjectElement::Comment, spec_comment_end(s, i + 1)))
    } else if s[i] == 35u8 {
        match spec_parse_file(s, i) {
            Some((f, n)) => Some((ProjectElement::File(f), n)),
            None => None,
        }
    } else if s[i] == 91u8 {
        match spec_parse_push(s, i) {
            Some(n) => Some((ProjectElement::PushFolder, n)),
            None => None,
        }
    } else if s[i] == 93u8 {
        match spec_parse_pop(s, i) {
            Some(n) => Some((ProjectElement::PopFolder, n)),
            None => None,
        }
    } else if s[i] == 36u8 {
        match spec_parse_zone(s, i) {
            Some((z, n)) => Some((ProjectElement::UtmZone(z), n)),
            None => None,
        }
    } else if is_ws(s[i]) {
        Some((ProjectElement::Whitespace, spec_skip_ws(s, i, s.len() as int)))
    } else {
        None
    }
}

/// The running state of the directive fold.
pub struct ProjAcc {
    pub base: Option<UtmLocation>,
    pub datum: Option<Datum>,
    pub utm_zone: Option<u8>,
    pub files: Seq<SurveyFileV>,
    pub depth: int,
}

/// The fold's starting state: nothing seen, no folder open.
pub open spec fn init_acc() -> ProjAcc {
    ProjAcc { base: None, datum: None, utm_zone: None, files: Seq::empty(), depth: 0 }
}

/// Folding one directive into the running state.  Later base-location,
/// datum and zone directives replace earlier ones; file entries append
/// in order; pushes and pops only track folder depth.
pub open spec fn spec_apply_element(acc: ProjAcc, el: ProjectElement) -> ProjAcc {
    match el {
        ProjectElement::BaseLocation(b) => ProjAcc { base: Some(b), ..acc },
        ProjectElement::Datum(d) => ProjAcc { datum: Some(d), ..acc },
        ProjectElement::File(f) => ProjAcc { files: acc.files.push(f), ..acc },
        ProjectElement::PushFolder => ProjAcc { depth: acc.depth + 1, ..acc },
        ProjectElement::PopFolder => ProjAcc { depth: acc.depth - 1, ..acc },
        ProjectElement::UtmZone(z) => ProjAcc { utm_zone: Some(z), ..acc },
        ProjectElement::Comment => acc,
        ProjectElement::Whitespace => acc,
    }
}

/// How a directive fold ends: stopped at the first non-directive with
/// the final state, or failed on a folder pop with no open folder.
pub enum ProjectRun {
    Stopped(ProjAcc, int),
    Unbalanced(int),
}

/// Run the directive fold from offset `i` in state `acc`.
pub open spec fn spec_run_project(s: Seq<u8>, i: int, acc: ProjAcc) -> ProjectRun
    decreases s.len() - i,
{
    if !(0 <= i <= s.len()) {
        ProjectRun::Stopped(acc, i)
    } else {
        match spec_parse_element(s, i) {
            Some((el, n)) => {
                if el is PopFolder && acc.depth == 0 {
                    ProjectRun::Unbalanced(i)
                } else if i < n <= s.len() {
                    spec_run_project(s, n, spec_apply_element(acc, el))
                } else {
                    ProjectRun::Stopped(acc, i)
                }
            },
            None => ProjectRun::Stopped(acc, i),
        }
    }
}

/// The whole project parse: the fold from the start of the text,
/// requiring that a base location and a datum were both seen.  `Err`
/// carries the offset of the failure: the unbalanced pop, or where the
/// fold stopped with a mandatory field missing.
pub open spec fn spec_parse_compass_project(s: Seq<u8>) -> Result<(ProjectV, int), int> {
    match spec_run_project(s, 0, init_acc()) {
        ProjectRun::Unbalanced(p) => Err(p),
        ProjectRun::Stopped(acc, p) => match (acc.base, acc.datum) {
            (Some(b), Some(d)) => Ok(
                (
                    ProjectV {
                        file_path: Seq::empty(),
                        base_location: b,
                        datum: d,
                        utm_zone: acc.utm_zone,
                        survey_files: acc.files,
                    },
                    p,
                ),
            ),
            _ => Err(p),
        },
    }
}

/// Parse a whole project text.  On success the returned offset names
/// where the directive stream stopped; the caller may treat a non-empty
/// remainder as it pleases.
#[verifier::rlimit(100)]
#[verifier::spinoff_prover]
pub fn parse_compass_project(s: &[u8]) -> (r: Result<(Project<Unloaded>, usize), Error>)
    ensures
        (match spec_parse_compass_project(s@) {
            Ok((pv, n)) => r is Ok && r->Ok_0.0@ == pv && r->Ok_0.1 as int == n,
            Err(p) => r == Err::<(Project<Unloaded>, usize), Error>(
                Error::CouldntParseProject(p as usize),
            ),
        }),
{
    let mut base: Option<UtmLocation> = None;
    let mut datum: Option<Datum> = None;
    let mut utm_zone: Option<u8> = None;
    let mut files: Vec<SurveyFile<Unloaded>> = Vec::new();
    let mut depth: usize = 0;
    let mut cur: usize = 0;
    proof {
        assert(files@.map_values(|f: SurveyFile<Unloaded>| f@) =~= Seq::<SurveyFileV>::empty());
        assert(init_acc() == (ProjAcc {
            base: base,
            datum: datum,
            utm_zone: utm_zone,
            files: files@.map_values(|f: SurveyFile<Unloaded>| f@),
            depth: depth as int,
        }));
    }
    loop
        invariant
            cur <= s@.len(),
            depth <= cur,
            spec_run_project(s@, 0, init_acc()) == spec_run_project(
                s@,
                cur as int,
                ProjAcc {
                    base: base,
                    datum: datum,
                    utm_zone: utm_zone,
                    files: files@.map_values(|f: SurveyFile<Unloaded>| f@),
                    depth: depth as int,
                },
            ),
        ensures
            spec_run_project(s@, 0, init_acc()) == ProjectRun::Stopped(
                ProjAcc {
                    base: base,
                    datum: datum,
                    utm_zone: utm_zone,
                    files: files@.map_values(|f: SurveyFile<Unloaded>| f@),
                    depth: depth as int,
                },
                cur as int,
            ),
        decreases s@.len() - cur,
    {
        let ghost acc = ProjAcc {
            base: base,
            datum: datum,
            utm_zone: utm_zone,
            files: files@.map_values(|f: SurveyFile<Unloaded>| f@),
            depth: depth as int,
        };
        if cur >= s.len() {
            break ;
        }
        let b = s[cur];
        if b == 64 {
            match parse_base_location(s, cur) {
                Some((loc, n)) => {
                    base = Some(loc);
                    cur = n;
                },
                None => {
                    break ;
                },
            }
        } else if b == 38 {
            match parse_datum(s, cur) {
                Some((d, n)) => {
                    datum = Some(d);
                    cur = n;
                },
                None => {
                    break ;
                },
            }
        } else if b == 47 {
            let n = comment_end(s, cur + 1);
            cur = n;
        } else if b == 35 {
            match parse_file_entry(s, cur) {
                Some((f, n)) => {
                    proof {
                        assert(files@.push(f).map_values(|x: SurveyFile<Unloaded>| x@)
                            =~= acc.files.push(f@));
                    }
                    files.push(f);
                    cur = n;
                },
                None => {
                    break ;
                },
            }
        } else if b == 91 {
            let j = semi_end(s, cur + 1);
            if j < s.len() && j > cur + 1 {
                depth += 1;
                cur = j + 1;
            } else {
                break ;
            }
        } else if b == 93 {
            if cur + 1 < s.len() && s[cur + 1] == 59 {
                if depth == 0 {
                    proof {
                        assert(spec_run_project(s@, cur as int, acc) == ProjectRun::Unbalanced(
                            cur as int,
                        ));
                    }
                    return Err(Error::CouldntParseProject(cur));
                }
                depth -= 1;
                cur = cur + 2;
            } else {
                break ;
            }
        } else if b == 36 {
            match parse_zone(s, cur) {
                Some((z, n)) => {
                    utm_zone = Some(z);
                    cur = n;
                },
                None => {
                    break ;
                },
            }
        } else if b == 32 || (9 <= b && b <= 13) {
            let n = skip_ws(s, cur, s.len());
            proof {
                crate::parser_utils::lemma_skip_ws(s@, cur as int, s@.len() as int);
            }
            cur = n;
        } else {
            break ;
        }
    }
    if let (Some(b), Some(d)) = (base, datum) {
        let p: Project<Unloaded> = Project {
            file_path: Vec::new(),
            base_location: b,
            datum: d,
            utm_zone,
            survey_files: files,
            state: core::marker::PhantomData,
        };
        proof {
            assert(p@.file_path =~= Seq::<u8>::empty());
        }
        Ok((p, cur))
    } else {
        Err(Error::CouldntParseProject(cur))
    }
}

} // verus!
