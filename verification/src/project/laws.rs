//! Laws of the project grammar: the datum names parse exactly and
//! exclusively, coordinate units convert exactly, and folder nesting is
//! the one structural error.
use vstd::prelude::*;

verus! {

use crate::common_types::{spec_from_feet, spec_from_meters};
use crate::parser_utils::{matches_at, spec_parse_decimal_ws, spec_skip_ws};
use crate::project::Datum;
use crate::project::parser::{
    in_coord_range, init_acc, spec_apply_element, spec_datum_name, spec_match_datum,
    spec_parse_datum, spec_parse_element, spec_parse_station_fix, spec_run_project, ProjAcc,
    ProjectElement,
};

/// Two byte sequences that differ at index `t` cannot both occur at the
/// same offset.
proof fn lemma_name_mismatch(s: Seq<u8>, i: int, n1: Seq<u8>, n2: Seq<u8>, t: int)
    requires
        matches_at(s, i, n1),
        0 <= t < n1.len(),
        t < n2.len(),
        n1[t] != n2[t],
    ensures
        !matches_at(s, i, n2),
{
    assert(s.subrange(i, i + n1.len())[t] == s[i + t]);
    if matches_at(s, i, n2) {
        assert(s.subrange(i, i + n2.len())[t] == s[i + t]);
    }
}

/// Wherever the name of a datum occurs, the datum alternation yields
/// exactly that datum: no name is a prefix of another, so the fixed
/// matching order cannot pick a different one.
#[verifier::rlimit(100)]
#[verifier::spinoff_prover]
pub proof fn lemma_datum_name_complete(s: Seq<u8>, i: int, d: Datum)
    requires
        matches_at(s, i, spec_datum_name(d)),
    ensures
        spec_match_datum(s, i) == Some((d, i + spec_datum_name(d).len())),
{
    reveal_strlit("Adindan");
    reveal_strlit("Arc 1950");
    reveal_strlit("Arc 1960");
    reveal_strlit("Australian 1966");
    reveal_strlit("Australian 1984");
    reveal_strlit("Camp Area Astro");
    reveal_strlit("Cape");
    reveal_strlit("European 1950");
    reveal_strlit("European 1979");
    reveal_strlit("Geodetic 1949");
    reveal_strlit("HongKong 1963");
    reveal_strlit("HuTzuShan");
    reveal_strlit("Indian");
    reveal_strlit("North American 1927");
    reveal_strlit("North American 1983");
    reveal_strlit("Oman");
    reveal_strlit("Ordinance Survey 1936");
    reveal_strlit("Pulkovo 1942");
    reveal_strlit("South American 1956");
    reveal_strlit("South American 1969");
    reveal_strlit("Tokyo");
    reveal_strlit("Wgs 1972");
    reveal_strlit("Wgs 1984");
    match d {
        Datum::Adindan => {
            // first alternative: nothing to rule out
        },
        Datum::Arc1950 => {
            lemma_name_mismatch(s, i, spec_datum_name(Datum::Arc1950), spec_datum_name(Datum::Adindan), 1);
        },
        Datum::Arc1960 => {
            lemma_name_mismatch(s, i, spec_datum_name(Datum::Arc1960), spec_datum_name(Datum::Adindan), 1);
            lemma_name_mismatch(s, i, spec_datum_name(Datum::Arc1960), spec_datum_name(Datum::Arc1950), 6);
        },
        Datum::Australian1966 => {
            lemma_name_mismatch(s, i, spec_datum_name(Datum::Australian1966), spec_datum_name(Datum::Adindan), 1);
            lemma_name_mismatch(s, i, spec_datum_name(Datum::Australian1966), spec_datum_name(Datum::Arc1950), 1);
            lemma_name_mismatch(s, i, spec_datum_name(Datum::Australian1966), spec_datum_name(Datum::Arc1960), 1);
        },
        Datum::Australian1984 => {
            lemma_name_mismatch(s, i, spec_datum_name(Datum::Australian1984), spec_datum_name(Datum::Adindan), 1);
            lemma_name_mismatch(s, i, spec_datum_name(Datum::Australian1984), spec_datum_name(Datum::Arc1950), 1);
            lemma_name_mismatch(s, i, spec_datum_name(Datum::Australian1984), spec_datum_name(Datum::Arc1960), 1);
            lemma_name_mismatch(s, i, spec_datum_name(Datum::Australian1984), spec_datum_name(Datum::Australian1966), 13);
        },
        Datum::CampAreaAstro => {
            lemma_name_mismatch(s, i, spec_datum_name(Datum::CampAreaAstro), spec_datum_name(Datum::Adindan), 0);
            lemma_name_mismatch(s, i, spec_datum_name(Datum::CampAreaAstro), spec_datum_name(Datum::Arc1950), 0);
            lemma_name_mismatch(s, i, spec_datum_name(Datum::CampAreaAstro), spec_datum_name(Datum::Arc1960), 0);
            lemma_name_mismatch(s, i, spec_datum_name(Datum::CampAreaAstro), spec_datum_name(Datum::Australian1966), 0);
            lemma_name_mismatch(s, i, spec_datum_name(Datum::CampAreaAstro), spec_datum_name(Datum::Australian1984), 0);
        },
        Datum::Cape => {
            lemma_name_mismatch(s, i, spec_datum_name(Datum::Cape), spec_datum_name(Datum::Adindan), 0);
            lemma_name_mismatch(s, i, spec_datum_name(Datum::Cape), spec_datum_name(Datum::Arc1950), 0);
            lemma_name_mismatch(s, i, spec_datum_name(Datum::Cape), spec_datum_name(Datum::Arc1960), 0);
            lemma_name_mismatch(s, i, spec_datum_name(Datum::Cape), spec_datum_name(Datum::Australian1966), 0);
            lemma_name_mismatch(s, i, spec_datum_name(Datum::Cape), spec_datum_name(Datum::Australian1984), 0);
            lemma_name_mismatch(s, i, spec_datum_name(Datum::Cape), spec_datum_name(Datum::CampAreaAstro), 2);
        },
        Datum::European1950 => {
            lemma_name_mismatch(s, i, spec_datum_name(Datum::European1950), spec_datum_name(Datum::Adindan), 0);
            lemma_name_mismatch(s, i, spec_datum_name(Datum::European1950), spec_datum_name(Datum::Arc1950), 0);
            lemma_name_mismatch(s, i, spec_datum_name(Datum::European1950), spec_datum_name(Datum::Arc1960), 0);
            lemma_name_mismatch(s, i, spec_datum_name(Datum::European1950), spec_datum_name(Datum::Australian1966), 0);
            lemma_name_mismatch(s, i, spec_datum_name(Datum::European1950), spec_datum_name(Datum::Australian1984), 0);
            lemma_name_mismatch(s, i, spec_datum_name(Datum::European1950), spec_datum_name(Datum::CampAreaAstro), 0);
            lemma_name_mismatch(s, i, spec_datum_name(Datum::European1950), spec_datum_name(Datum::Cape), 0);
        },
        Datum::European1979 => {
            lemma_name_mismatch(s, i, spec_datum_name(Datum::European1979), spec_datum_name(Datum::Adindan), 0);
            lemma_name_mismatch(s, i, spec_datum_name(Datum::European1979), spec_datum_name(Datum::Arc1950), 0);
            lemma_name_mismatch(s, i, spec_datum_name(Datum::European1979), spec_datum_name(Datum::Arc1960), 0);
            lemma_name_mismatch(s, i, spec_datum_name(Datum::European1979), spec_datum_name(Datum::Australian1966), 0);
            lemma_name_mismatch(s, i, spec_datum_name(Datum::European1979), spec_datum_name(Datum::Australian1984), 0);
            lemma_name_mismatch(s, i, spec_datum_name(Datum::European1979), spec_datum_name(Datum::CampAreaAstro), 0);
            lemma_name_mismatch(s, i, spec_datum_name(Datum::European1979), spec_datum_name(Datum::Cape), 0);
            lemma_name_mismatch(s, i, spec_datum_name(Datum::European1979), spec_datum_name(Datum::European1950), 11);
        },
        Datum::Geodetic1949 => {
            lemma_name_mismatch(s, i, spec_datum_name(Datum::Geodetic1949), spec_datum_name(Datum::Adindan), 0);
            lemma_name_mismatch(s, i, spec_datum_name(Datum::Geodetic1949), spec_datum_name(Datum::Arc1950), 0);
            lemma_name_mismatch(s, i, spec_datum_name(Datum::Geodetic1949), spec_datum_name(Datum::Arc1960), 0);
            lemma_name_mismatch(s, i, spec_datum_name(Datum::Geodetic1949), spec_datum_name(Datum::Australian1966), 0);
            lemma_name_mismatch(s, i, spec_datum_name(Datum::Geodetic1949), spec_datum_name(Datum::Australian1984), 0);
            lemma_name_mismatch(s, i, spec_datum_name(Datum::Geodetic1949), spec_datum_name(Datum::CampAreaAstro), 0);
            lemma_name_mismatch(s, i, spec_datum_name(Datum::Geodetic1949), spec_datum_name(Datum::Cape), 0);
            lemma_name_mismatch(s, i, spec_datum_name(Datum::Geodetic1949), spec_datum_name(Datum::European1950), 0);
            lemma_name_mismatch(s, i, spec_datum_name(Datum::Geodetic1949), spec_datum_name(Datum::European1979), 0);
        },
        Datum::HongKong1963 => {
            lemma_name_mismatch(s, i, spec_datum_name(Datum::HongKong1963), spec_datum_name(Datum::Adindan), 0);
            lemma_name_mismatch(s, i, spec_datum_name(Datum::HongKong1963), spec_datum_name(Datum::Arc1950), 0);
            lemma_name_mismatch(s, i, spec_datum_name(Datum::HongKong1963), spec_datum_name(Datum::Arc1960), 0);
            lemma_name_mismatch(s, i, spec_datum_name(Datum::HongKong1963), spec_datum_name(Datum::Australian1966), 0);
            lemma_name_mismatch(s, i, spec_datum_name(Datum::HongKong1963), spec_datum_name(Datum::Australian1984), 0);
            lemma_name_mismatch(s, i, spec_datum_name(Datum::HongKong1963), spec_datum_name(Datum::CampAreaAstro), 0);
            lemma_name_mismatch(s, i, spec_datum_name(Datum::HongKong1963), spec_datum_name(Datum::Cape), 0);
            lemma_name_mismatch(s, i, spec_datum_name(Datum::HongKong1963), spec_datum_name(Datum::European1950), 0);
            lemma_name_mismatch(s, i, spec_datum_name(Datum::HongKong1963), spec_datum_name(Datum::European1979), 0);
            lemma_name_mismatch(s, i, spec_datum_name(Datum::HongKong1963), spec_datum_name(Datum::Geodetic1949), 0);
        },
        Datum::HuTzuShan => {
            lemma_name_mismatch(s, i, spec_datum_name(Datum::HuTzuShan), spec_datum_name(Datum::Adindan), 0);
            lemma_name_mismatch(s, i, spec_datum_name(Datum::HuTzuShan), spec_datum_name(Datum::Arc1950), 0);
            lemma_name_mismatch(s, i, spec_datum_name(Datum::HuTzuShan), spec_datum_name(Datum::Arc1960), 0);
            lemma_name_mismatch(s, i, spec_datum_name(Datum::HuTzuShan), spec_datum_name(Datum::Australian1966), 0);
            lemma_name_mismatch(s, i, spec_datum_name(Datum::HuTzuShan), spec_datum_name(Datum::Australian1984), 0);
            lemma_name_mismatch(s, i, spec_datum_name(Datum::HuTzuShan), spec_datum_name(Datum::CampAreaAstro), 0);
            lemma_name_mismatch(s, i, spec_datum_name(Datum::HuTzuShan), spec_datum_name(Datum::Cape), 0);
            lemma_name_mismatch(s, i, spec_datum_name(Datum::HuTzuShan), spec_datum_name(Datum::European1950), 0);
            lemma_name_mismatch(s, i, spec_datum_name(Datum::HuTzuShan), spec_datum_name(Datum::European1979), 0);
            lemma_name_mismatch(s, i, spec_datum_name(Datum::HuTzuShan), spec_datum_name(Datum::Geodetic1949), 0);
            lemma_name_mismatch(s, i, spec_datum_name(Datum::HuTzuShan), spec_datum_name(Datum::HongKong1963), 1);
        },
        Datum::Indian => {
            lemma_name_mismatch(s, i, spec_datum_name(Datum::Indian), spec_datum_name(Datum::Adindan), 0);
            lemma_name_mismatch(s, i, spec_datum_name(Datum::Indian), spec_datum_name(Datum::Arc1950), 0);
            lemma_name_mismatch(s, i, spec_datum_name(Datum::Indian), spec_datum_name(Datum::Arc1960), 0);
            lemma_name_mismatch(s, i, spec_datum_name(Datum::Indian), spec_datum_name(Datum::Australian1966), 0);
            lemma_name_mismatch(s, i, spec_datum_name(Datum::Indian), spec_datum_name(Datum::Australian1984), 0);
            lemma_name_mismatch(s, i, spec_datum_name(Datum::Indian), spec_datum_name(Datum::CampAreaAstro), 0);
            lemma_name_mismatch(s, i, spec_datum_name(Datum::Indian), spec_datum_name(Datum::Cape), 0);
            lemma_name_mismatch(s, i, spec_datum_name(Datum::Indian), spec_datum_name(Datum::European1950), 0);
            lemma_name_mismatch(s, i, spec_datum_name(Datum::Indian), spec_datum_name(Datum::European1979), 0);
            lemma_name_mismatch(s, i, spec_datum_name(Datum::Indian), spec_datum_name(Datum::Geodetic1949), 0);
            lemma_name_mismatch(s, i, spec_datum_name(Datum::Indian), spec_datum_name(Datum::HongKong1963), 0);
            lemma_name_mismatch(s, i, spec_datum_name(Datum::Indian), spec_datum_name(Datum::HuTzuShan), 0);
        },
        Datum::NorthAmerican1927 => {
            lemma_name_mismatch(s, i, spec_datum_name(Datum::NorthAmerican1927), spec_datum_name(Datum::Adindan), 0);
            lemma_name_mismatch(s, i, spec_datum_name(Datum::NorthAmerican1927), spec_datum_name(Datum::Arc1950), 0);
            lemma_name_mismatch(s, i, spec_datum_name(Datum::NorthAmerican1927), spec_datum_name(Datum::Arc1960), 0);
            lemma_name_mismatch(s, i, spec_datum_name(Datum::NorthAmerican1927), spec_datum_name(Datum::Australian1966), 0);
            lemma_name_mismatch(s, i, spec_datum_name(Datum::NorthAmerican1927), spec_datum_name(Datum::Australian1984), 0);
            lemma_name_mismatch(s, i, spec_datum_name(Datum::NorthAmerican1927), spec_datum_name(Datum::CampAreaAstro), 0);
            lemma_name_mismatch(s, i, spec_datum_name(Datum::NorthAmerican1927), spec_datum_name(Datum::Cape), 0);
            lemma_name_mismatch(s, i, spec_datum_name(Datum::NorthAmerican1927), spec_datum_name(Datum::European1950), 0);
            lemma_name_mismatch(s, i, spec_datum_name(Datum::NorthAmerican1927), spec_datum_name(Datum::European1979), 0);
            lemma_name_mismatch(s, i, spec_datum_name(Datum::NorthAmerican1927), spec_datum_name(Datum::Geodetic1949), 0);
            lemma_name_mismatch(s, i, spec_datum_name(Datum::NorthAmerican1927), spec_datum_name(Datum::HongKong1963), 0);
            lemma_name_mismatch(s, i, spec_datum_name(Datum::NorthAmerican1927), spec_datum_name(Datum::HuTzuShan), 0);
            lemma_name_mismatch(s, i, spec_datum_name(Datum::NorthAmerican1927), spec_datum_name(Datum::Indian), 0);
        },
        Datum::NorthAmerican1983 => {
            lemma_name_mismatch(s, i, spec_datum_name(Datum::NorthAmerican1983), spec_datum_name(Datum::Adindan), 0);
            lemma_name_mismatch(s, i, spec_datum_name(Datum::NorthAmerican1983), spec_datum_name(Datum::Arc1950), 0);
            lemma_name_mismatch(s, i, spec_datum_name(Datum::NorthAmerican1983), spec_datum_name(Datum::Arc1960), 0);
            lemma_name_mismatch(s, i, spec_datum_name(Datum::NorthAmerican1983), spec_datum_name(Datum::Australian1966), 0);
            lemma_name_mismatch(s, i, spec_datum_name(Datum::NorthAmerican1983), spec_datum_name(Datum::Australian1984), 0);
            lemma_name_mismatch(s, i, spec_datum_name(Datum::NorthAmerican1983), spec_datum_name(Datum::CampAreaAstro), 0);
            lemma_name_mismatch(s, i, spec_datum_name(Datum::NorthAmerican1983), spec_datum_name(Datum::Cape), 0);
            lemma_name_mismatch(s, i, spec_datum_name(Datum::NorthAmerican1983), spec_datum_name(Datum::European1950), 0);
            lemma_name_mismatch(s, i, spec_datum_name(Datum::NorthAmerican1983), spec_datum_name(Datum::European1979), 0);
            lemma_name_mismatch(s, i, spec_datum_name(Datum::NorthAmerican1983), spec_datum_name(Datum::Geodetic1949), 0);
            lemma_name_mismatch(s, i, spec_datum_name(Datum::NorthAmerican1983), spec_datum_name(Datum::HongKong1963), 0);
            lemma_name_mismatch(s, i, spec_datum_name(Datum::NorthAmerican1983), spec_datum_name(Datum::HuTzuShan), 0);
            lemma_name_mismatch(s, i, spec_datum_name(Datum::NorthAmerican1983), spec_datum_name(Datum::Indian), 0);
            lemma_name_mismatch(s, i, spec_datum_name(Datum::NorthAmerican1983), spec_datum_name(Datum::NorthAmerican1927), 17);
        },
        Datum::Oman => {
            lemma_name_mismatch(s, i, spec_datum_name(Datum::Oman), spec_datum_name(Datum::Adindan), 0);
            lemma_name_mismatch(s, i, spec_datum_name(Datum::Oman), spec_datum_name(Datum::Arc1950), 0);
            lemma_name_mismatch(s, i, spec_datum_name(Datum::Oman), spec_datum_name(Datum::Arc1960), 0);
            lemma_name_mismatch(s, i, spec_datum_name(Datum::Oman), spec_datum_name(Datum::Australian1966), 0);
            lemma_name_mismatch(s, i, spec_datum_name(Datum::Oman), spec_datum_name(Datum::Australian1984), 0);
            lemma_name_mismatch(s, i, spec_datum_name(Datum::Oman), spec_datum_name(Datum::CampAreaAstro), 0);
            lemma_name_mismatch(s, i, spec_datum_name(Datum::Oman), spec_datum_name(Datum::Cape), 0);
            lemma_name_mismatch(s, i, spec_datum_name(Datum::Oman), spec_datum_name(Datum::European1950), 0);
            lemma_name_mismatch(s, i, spec_datum_name(Datum::Oman), spec_datum_name(Datum::European1979), 0);
            lemma_name_mismatch(s, i, spec_datum_name(Datum::Oman), spec_datum_name(Datum::Geodetic1949), 0);
            lemma_name_mismatch(s, i, spec_datum_name(Datum::Oman), spec_datum_name(Datum::HongKong1963), 0);
            lemma_name_mismatch(s, i, spec_datum_name(Datum::Oman), spec_datum_name(Datum::HuTzuShan), 0);
            lemma_name_mismatch(s, i, spec_datum_name(Datum::Oman), spec_datum_name(Datum::Indian), 0);
            lemma_name_mismatch(s, i, spec_datum_name(Datum::Oman), spec_datum_name(Datum::NorthAmerican1927), 0);
            lemma_name_mismatch(s, i, spec_datum_name(Datum::Oman), spec_datum_name(Datum::NorthAmerican1983), 0);
        },
        Datum::OrdinanceSurvey1936 => {
            lemma_name_mismatch(s, i, spec_datum_name(Datum::OrdinanceSurvey1936), spec_datum_name(Datum::Adindan), 0);
            lemma_name_mismatch(s, i, spec_datum_name(Datum::OrdinanceSurvey1936), spec_datum_name(Datum::Arc1950), 0);
            lemma_name_mismatch(s, i, spec_datum_name(Datum::OrdinanceSurvey1936), spec_datum_name(Datum::Arc1960), 0);
            lemma_name_mismatch(s, i, spec_datum_name(Datum::OrdinanceSurvey1936), spec_datum_name(Datum::Australian1966), 0);
            lemma_name_mismatch(s, i, spec_datum_name(Datum::OrdinanceSurvey1936), spec_datum_name(Datum::Australian1984), 0);
            lemma_name_mismatch(s, i, spec_datum_name(Datum::OrdinanceSurvey1936), spec_datum_name(Datum::CampAreaAstro), 0);
            lemma_name_mismatch(s, i, spec_datum_name(Datum::OrdinanceSurvey1936), spec_datum_name(Datum::Cape), 0);
            lemma_name_mismatch(s, i, spec_datum_name(Datum::OrdinanceSurvey1936), spec_datum_name(Datum::European1950), 0);
            lemma_name_mismatch(s, i, spec_datum_name(Datum::OrdinanceSurvey1936), spec_datum_name(Datum::European1979), 0);
            lemma_name_mismatch(s, i, spec_datum_name(Datum::OrdinanceSurvey1936), spec_datum_name(Datum::Geodetic1949), 0);
            lemma_name_mismatch(s, i, spec_datum_name(Datum::OrdinanceSurvey1936), spec_datum_name(Datum::HongKong1963), 0);
            lemma_name_mismatch(s, i, spec_datum_name(Datum::OrdinanceSurvey1936), spec_datum_name(Datum::HuTzuShan), 0);
            lemma_name_mismatch(s, i, spec_datum_name(Datum::OrdinanceSurvey1936), spec_datum_name(Datum::Indian), 0);
            lemma_name_mismatch(s, i, spec_datum_name(Datum::OrdinanceSurvey1936), spec_datum_name(Datum::NorthAmerican1927), 0);
            lemma_name_mismatch(s, i, spec_datum_name(Datum::OrdinanceSurvey1936), spec_datum_name(Datum::NorthAmerican1983), 0);
            lemma_name_mismatch(s, i, spec_datum_name(Datum::OrdinanceSurvey1936), spec_datum_name(Datum::Oman), 1);
        },
        Datum::Pulkovo1942 => {
            lemma_name_mismatch(s, i, spec_datum_name(Datum::Pulkovo1942), spec_datum_name(Datum::Adindan), 0);
            lemma_name_mismatch(s, i, spec_datum_name(Datum::Pulkovo1942), spec_datum_name(Datum::Arc1950), 0);
            lemma_name_mismatch(s, i, spec_datum_name(Datum::Pulkovo1942), spec_datum_name(Datum::Arc1960), 0);
            lemma_name_mismatch(s, i, spec_datum_name(Datum::Pulkovo1942), spec_datum_name(Datum::Australian1966), 0);
            lemma_name_mismatch(s, i, spec_datum_name(Datum::Pulkovo1942), spec_datum_name(Datum::Australian1984), 0);
            lemma_name_mismatch(s, i, spec_datum_name(Datum::Pulkovo1942), spec_datum_name(Datum::CampAreaAstro), 0);
            lemma_name_mismatch(s, i, spec_datum_name(Datum::Pulkovo1942), spec_datum_name(Datum::Cape), 0);
            lemma_name_mismatch(s, i, spec_datum_name(Datum::Pulkovo1942), spec_datum_name(Datum::European1950), 0);
            lemma_name_mismatch(s, i, spec_datum_name(Datum::Pulkovo1942), spec_datum_name(Datum::European1979), 0);
            lemma_name_mismatch(s, i, spec_datum_name(Datum::Pulkovo1942), spec_datum_name(Datum::Geodetic1949), 0);
            lemma_name_mismatch(s, i, spec_datum_name(Datum::Pulkovo1942), spec_datum_name(Datum::HongKong1963), 0);
            lemma_name_mismatch(s, i, spec_datum_name(Datum::Pulkovo1942), spec_datum_name(Datum::HuTzuShan), 0);
            lemma_name_mismatch(s, i, spec_datum_name(Datum::Pulkovo1942), spec_datum_name(Datum::Indian), 0);
            lemma_name_mismatch(s, i, spec_datum_name(Datum::Pulkovo1942), spec_datum_name(Datum::NorthAmerican1927), 0);
            lemma_name_mismatch(s, i, spec_datum_name(Datum::Pulkovo1942), spec_datum_name(Datum::NorthAmerican1983), 0);
            lemma_name_mismatch(s, i, spec_datum_name(Datum::Pulkovo1942), spec_datum_name(Datum::Oman), 0);
            lemma_name_mismatch(s, i, spec_datum_name(Datum::Pulkovo1942), spec_datum_name(Datum::OrdinanceSurvey1936), 0);
        },
        Datum::SouthAmerican1956 => {
            lemma_name_mismatch(s, i, spec_datum_name(Datum::SouthAmerican1956), spec_datum_name(Datum::Adindan), 0);
            lemma_name_mismatch(s, i, spec_datum_name(Datum::SouthAmerican1956), spec_datum_name(Datum::Arc1950), 0);
            lemma_name_mismatch(s, i, spec_datum_name(Datum::SouthAmerican1956), spec_datum_name(Datum::Arc1960), 0);
            lemma_name_mismatch(s, i, spec_datum_name(Datum::SouthAmerican1956), spec_datum_name(Datum::Australian1966), 0);
            lemma_name_mismatch(s, i, spec_datum_name(Datum::SouthAmerican1956), spec_datum_name(Datum::Australian1984), 0);
            lemma_name_mismatch(s, i, spec_datum_name(Datum::SouthAmerican1956), spec_datum_name(Datum::CampAreaAstro), 0);
            lemma_name_mismatch(s, i, spec_datum_name(Datum::SouthAmerican1956), spec_datum_name(Datum::Cape), 0);
            lemma_name_mismatch(s, i, spec_datum_name(Datum::SouthAmerican1956), spec_datum_name(Datum::European1950), 0);
            lemma_name_mismatch(s, i, spec_datum_name(Datum::SouthAmerican1956), spec_datum_name(Datum::European1979), 0);
            lemma_name_mismatch(s, i, spec_datum_name(Datum::SouthAmerican1956), spec_datum_name(Datum::Geodetic1949), 0);
            lemma_name_mismatch(s, i, spec_datum_name(Datum::SouthAmerican1956), spec_datum_name(Datum::HongKong1963), 0);
            lemma_name_mismatch(s, i, spec_datum_name(Datum::SouthAmerican1956), spec_datum_name(Datum::HuTzuShan), 0);
            lemma_name_mismatch(s, i, spec_datum_name(Datum::SouthAmerican1956), spec_datum_name(Datum::Indian), 0);
            lemma_name_mismatch(s, i, spec_datum_name(Datum::SouthAmerican1956), spec_datum_name(Datum::NorthAmerican1927), 0);
            lemma_name_mismatch(s, i, spec_datum_name(Datum::SouthAmerican1956), spec_datum_name(Datum::NorthAmerican1983), 0);
            lemma_name_mismatch(s, i, spec_datum_name(Datum::SouthAmerican1956), spec_datum_name(Datum::Oman), 0);
            lemma_name_mismatch(s, i, spec_datum_name(Datum::SouthAmerican1956), spec_datum_name(Datum::OrdinanceSurvey1936), 0);
            lemma_name_mismatch(s, i, spec_datum_name(Datum::SouthAmerican1956), spec_datum_name(Datum::Pulkovo1942), 0);
        },
        Datum::SouthAmerican1969 => {
            lemma_name_mismatch(s, i, spec_datum_name(Datum::SouthAmerican1969), spec_datum_name(Datum::Adindan), 0);
            lemma_name_mismatch(s, i, spec_datum_name(Datum::SouthAmerican1969), spec_datum_name(Datum::Arc1950), 0);
            lemma_name_mismatch(s, i, spec_datum_name(Datum::SouthAmerican1969), spec_datum_name(Datum::Arc1960), 0);
            lemma_name_mismatch(s, i, spec_datum_name(Datum::SouthAmerican1969), spec_datum_name(Datum::Australian1966), 0);
            lemma_name_mismatch(s, i, spec_datum_name(Datum::SouthAmerican1969), spec_datum_name(Datum::Australian1984), 0);
            lemma_name_mismatch(s, i, spec_datum_name(Datum::SouthAmerican1969), spec_datum_name(Datum::CampAreaAstro), 0);
            lemma_name_mismatch(s, i, spec_datum_name(Datum::SouthAmerican1969), spec_datum_name(Datum::Cape), 0);
            lemma_name_mismatch(s, i, spec_datum_name(Datum::SouthAmerican1969), spec_datum_name(Datum::European1950), 0);
            lemma_name_mismatch(s, i, spec_datum_name(Datum::SouthAmerican1969), spec_datum_name(Datum::European1979), 0);
            lemma_name_mismatch(s, i, spec_datum_name(Datum::SouthAmerican1969), spec_datum_name(Datum::Geodetic1949), 0);
            lemma_name_mismatch(s, i, spec_datum_name(Datum::SouthAmerican1969), spec_datum_name(Datum::HongKong1963), 0);
            lemma_name_mismatch(s, i, spec_datum_name(Datum::SouthAmerican1969), spec_datum_name(Datum::HuTzuShan), 0);
            lemma_name_mismatch(s, i, spec_datum_name(Datum::SouthAmerican1969), spec_datum_name(Datum::Indian), 0);
            lemma_name_mismatch(s, i, spec_datum_name(Datum::SouthAmerican1969), spec_datum_name(Datum::NorthAmerican1927), 0);
            lemma_name_mismatch(s, i, spec_datum_name(Datum::SouthAmerican1969), spec_datum_name(Datum::NorthAmerican1983), 0);
            lemma_name_mismatch(s, i, spec_datum_name(Datum::SouthAmerican1969), spec_datum_name(Datum::Oman), 0);
            lemma_name_mismatch(s, i, spec_datum_name(Datum::SouthAmerican1969), spec_datum_name(Datum::OrdinanceSurvey1936), 0);
            lemma_name_mismatch(s, i, spec_datum_name(Datum::SouthAmerican1969), spec_datum_name(Datum::Pulkovo1942), 0);
            lemma_name_mismatch(s, i, spec_datum_name(Datum::SouthAmerican1969), spec_datum_name(Datum::SouthAmerican1956), 17);
        },
        Datum::Tokyo => {
            lemma_name_mismatch(s, i, spec_datum_name(Datum::Tokyo), spec_datum_name(Datum::Adindan), 0);
            lemma_name_mismatch(s, i, spec_datum_name(Datum::Tokyo), spec_datum_name(Datum::Arc1950), 0);
            lemma_name_mismatch(s, i, spec_datum_name(Datum::Tokyo), spec_datum_name(Datum::Arc1960), 0);
            lemma_name_mismatch(s, i, spec_datum_name(Datum::Tokyo), spec_datum_name(Datum::Australian1966), 0);
            lemma_name_mismatch(s, i, spec_datum_name(Datum::Tokyo), spec_datum_name(Datum::Australian1984), 0);
            lemma_name_mismatch(s, i, spec_datum_name(Datum::Tokyo), spec_datum_name(Datum::CampAreaAstro), 0);
            lemma_name_mismatch(s, i, spec_datum_name(Datum::Tokyo), spec_datum_name(Datum::Cape), 0);
            lemma_name_mismatch(s, i, spec_datum_name(Datum::Tokyo), spec_datum_name(Datum::European1950), 0);
            lemma_name_mismatch(s, i, spec_datum_name(Datum::Tokyo), spec_datum_name(Datum::European1979), 0);
            lemma_name_mismatch(s, i, spec_datum_name(Datum::Tokyo), spec_datum_name(Datum::Geodetic1949), 0);
            lemma_name_mismatch(s, i, spec_datum_name(Datum::Tokyo), spec_datum_name(Datum::HongKong1963), 0);
            lemma_name_mismatch(s, i, spec_datum_name(Datum::Tokyo), spec_datum_name(Datum::HuTzuShan), 0);
            lemma_name_mismatch(s, i, spec_datum_name(Datum::Tokyo), spec_datum_name(Datum::Indian), 0);
            lemma_name_mismatch(s, i, spec_datum_name(Datum::Tokyo), spec_datum_name(Datum::NorthAmerican1927), 0);
            lemma_name_mismatch(s, i, spec_datum_name(Datum::Tokyo), spec_datum_name(Datum::NorthAmerican1983), 0);
            lemma_name_mismatch(s, i, spec_datum_name(Datum::Tokyo), spec_datum_name(Datum::Oman), 0);
            lemma_name_mismatch(s, i, spec_datum_name(Datum::Tokyo), spec_datum_name(Datum::OrdinanceSurvey1936), 0);
            lemma_name_mismatch(s, i, spec_datum_name(Datum::Tokyo), spec_datum_name(Datum::Pulkovo1942), 0);
            lemma_name_mismatch(s, i, spec_datum_name(Datum::Tokyo), spec_datum_name(Datum::SouthAmerican1956), 0);
            lemma_name_mismatch(s, i, spec_datum_name(Datum::Tokyo), spec_datum_name(Datum::SouthAmerican1969), 0);
        },
        Datum::Wgs1972 => {
            lemma_name_mismatch(s, i, spec_datum_name(Datum::Wgs1972), spec_datum_name(Datum::Adindan), 0);
            lemma_name_mismatch(s, i, spec_datum_name(Datum::Wgs1972), spec_datum_name(Datum::Arc1950), 0);
            lemma_name_mismatch(s, i, spec_datum_name(Datum::Wgs1972), spec_datum_name(Datum::Arc1960), 0);
            lemma_name_mismatch(s, i, spec_datum_name(Datum::Wgs1972), spec_datum_name(Datum::Australian1966), 0);
            lemma_name_mismatch(s, i, spec_datum_name(Datum::Wgs1972), spec_datum_name(Datum::Australian1984), 0);
            lemma_name_mismatch(s, i, spec_datum_name(Datum::Wgs1972), spec_datum_name(Datum::CampAreaAstro), 0);
            lemma_name_mismatch(s, i, spec_datum_name(Datum::Wgs1972), spec_datum_name(Datum::Cape), 0);
            lemma_name_mismatch(s, i, spec_datum_name(Datum::Wgs1972), spec_datum_name(Datum::European1950), 0);
            lemma_name_mismatch(s, i, spec_datum_name(Datum::Wgs1972), spec_datum_name(Datum::European1979), 0);
            lemma_name_mismatch(s, i, spec_datum_name(Datum::Wgs1972), spec_datum_name(Datum::Geodetic1949), 0);
            lemma_name_mismatch(s, i, spec_datum_name(Datum::Wgs1972), spec_datum_name(Datum::HongKong1963), 0);
            lemma_name_mismatch(s, i, spec_datum_name(Datum::Wgs1972), spec_datum_name(Datum::HuTzuShan), 0);
            lemma_name_mismatch(s, i, spec_datum_name(Datum::Wgs1972), spec_datum_name(Datum::Indian), 0);
            lemma_name_mismatch(s, i, spec_datum_name(Datum::Wgs1972), spec_datum_name(Datum::NorthAmerican1927), 0);
            lemma_name_mismatch(s, i, spec_datum_name(Datum::Wgs1972), spec_datum_name(Datum::NorthAmerican1983), 0);
            lemma_name_mismatch(s, i, spec_datum_name(Datum::Wgs1972), spec_datum_name(Datum::Oman), 0);
            lemma_name_mismatch(s, i, spec_datum_name(Datum::Wgs1972), spec_datum_name(Datum::OrdinanceSurvey1936), 0);
            lemma_name_mismatch(s, i, spec_datum_name(Datum::Wgs1972), spec_datum_name(Datum::Pulkovo1942), 0);
            lemma_name_mismatch(s, i, spec_datum_name(Datum::Wgs1972), spec_datum_name(Datum::SouthAmerican1956), 0);
            lemma_name_mismatch(s, i, spec_datum_name(Datum::Wgs1972), spec_datum_name(Datum::SouthAmerican1969), 0);
            lemma_name_mismatch(s, i, spec_datum_name(Datum::Wgs1972), spec_datum_name(Datum::Tokyo), 0);
        },
        Datum::Wgs1984 => {
            lemma_name_mismatch(s, i, spec_datum_name(Datum::Wgs1984), spec_datum_name(Datum::Adindan), 0);
            lemma_name_mismatch(s, i, spec_datum_name(Datum::Wgs1984), spec_datum_name(Datum::Arc1950), 0);
            lemma_name_mismatch(s, i, spec_datum_name(Datum::Wgs1984), spec_datum_name(Datum::Arc1960), 0);
            lemma_name_mismatch(s, i, spec_datum_name(Datum::Wgs1984), spec_datum_name(Datum::Australian1966), 0);
            lemma_name_mismatch(s, i, spec_datum_name(Datum::Wgs1984), spec_datum_name(Datum::Australian1984), 0);
            lemma_name_mismatch(s, i, spec_datum_name(Datum::Wgs1984), spec_datum_name(Datum::CampAreaAstro), 0);
            lemma_name_mismatch(s, i, spec_datum_name(Datum::Wgs1984), spec_datum_name(Datum::Cape), 0);
            lemma_name_mismatch(s, i, spec_datum_name(Datum::Wgs1984), spec_datum_name(Datum::European1950), 0);
            lemma_name_mismatch(s, i, spec_datum_name(Datum::Wgs1984), spec_datum_name(Datum::European1979), 0);
            lemma_name_mismatch(s, i, spec_datum_name(Datum::Wgs1984), spec_datum_name(Datum::Geodetic1949), 0);
            lemma_name_mismatch(s, i, spec_datum_name(Datum::Wgs1984), spec_datum_name(Datum::HongKong1963), 0);
            lemma_name_mismatch(s, i, spec_datum_name(Datum::Wgs1984), spec_datum_name(Datum::HuTzuShan), 0);
            lemma_name_mismatch(s, i, spec_datum_name(Datum::Wgs1984), spec_datum_name(Datum::Indian), 0);
            lemma_name_mismatch(s, i, spec_datum_name(Datum::Wgs1984), spec_datum_name(Datum::NorthAmerican1927), 0);
            lemma_name_mismatch(s, i, spec_datum_name(Datum::Wgs1984), spec_datum_name(Datum::NorthAmerican1983), 0);
            lemma_name_mismatch(s, i, spec_datum_name(Datum::Wgs1984), spec_datum_name(Datum::Oman), 0);
            lemma_name_mismatch(s, i, spec_datum_name(Datum::Wgs1984), spec_datum_name(Datum::OrdinanceSurvey1936), 0);
            lemma_name_mismatch(s, i, spec_datum_name(Datum::Wgs1984), spec_datum_name(Datum::Pulkovo1942), 0);
            lemma_name_mismatch(s, i, spec_datum_name(Datum::Wgs1984), spec_datum_name(Datum::SouthAmerican1956), 0);
            lemma_name_mismatch(s, i, spec_datum_name(Datum::Wgs1984), spec_datum_name(Datum::SouthAmerican1969), 0);
            lemma_name_mismatch(s, i, spec_datum_name(Datum::Wgs1984), spec_datum_name(Datum::Tokyo), 0);
            lemma_name_mismatch(s, i, spec_datum_name(Datum::Wgs1984), spec_datum_name(Datum::Wgs1972), 6);
        },
    }
}

/// The datum alternation only ever succeeds on one of the fixed names,
/// consuming exactly that name.
pub proof fn lemma_datum_name_sound(s: Seq<u8>, i: int, d: Datum, n: int)
    requires
        spec_match_datum(s, i) == Some((d, n)),
    ensures
        matches_at(s, i, spec_datum_name(d)),
        n == i + spec_datum_name(d).len(),
{
}

/// A whole `&<Name>;` directive parses to exactly the named datum.
pub proof fn lemma_datum_directive_complete(s: Seq<u8>, i: int, d: Datum)
    requires
        0 <= i < s.len(),
        s[i] == 38u8,
        matches_at(s, i + 1, spec_datum_name(d)),
        i + 1 + spec_datum_name(d).len() < s.len(),
        s[i + 1 + spec_datum_name(d).len()] == 59u8,
    ensures
        spec_parse_datum(s, i) == Some((d, i + spec_datum_name(d).len() + 2)),
{
    lemma_datum_name_complete(s, i + 1, d);
}

/// A successful `&...;` directive consumed exactly an ampersand, one of
/// the fixed names, and a semicolon: no other text parses as a datum.
pub proof fn lemma_datum_directive_sound(s: Seq<u8>, i: int, d: Datum, n: int)
    requires
        spec_parse_datum(s, i) == Some((d, n)),
    ensures
        0 <= i < s.len() && s[i] == 38u8,
        matches_at(s, i + 1, spec_datum_name(d)),
        n == i + spec_datum_name(d).len() + 2,
        s[n - 1] == 59u8,
{
    let m = spec_match_datum(s, i + 1);
    lemma_datum_name_sound(s, i + 1, d, m.unwrap().1);
}

/// A base-location directive parses to the exact meters written in it:
/// each stored component is the written ten-thousandths of a meter
/// scaled by ten thousand, so re-deriving meters gives the written
/// numbers back unchanged.
pub proof fn lemma_base_location_units(
    s: Seq<u8>,
    i: int,
    loc: crate::common_types::UtmLocation,
    n: int,
)
    requires
        crate::project::parser::spec_parse_base_location(s, i) == Some((loc, n)),
    ensures
        exists|e: i64, nn: i64, el: i64|
            in_coord_range(e as int) && in_coord_range(nn as int) && in_coord_range(el as int)
                && loc.east_north_elevation == spec_from_meters(e, nn, el)
                && loc.east_north_elevation.easting == e * 10_000
                && loc.east_north_elevation.northing == nn * 10_000
                && loc.east_north_elevation.up == el * 10_000,
{
    let end = s.len() as int;
    let (e0, p1) = spec_parse_decimal_ws(s, i + 1, end).unwrap();
    let (n0, p2) = spec_parse_decimal_ws(s, p1 + 1, end).unwrap();
    let (u0, p3) = spec_parse_decimal_ws(s, p2 + 1, end).unwrap();
    let e = e0 as i64;
    let nn = n0 as i64;
    let el = u0 as i64;
    assert(loc.east_north_elevation == spec_from_meters(e, nn, el));
    assert(loc.east_north_elevation.easting == e * 10_000 && loc.east_north_elevation.northing
        == nn * 10_000 && loc.east_north_elevation.up == el * 10_000);
}

/// A station fix parses to the exact unit conversion of the decimals
/// written in it: with a meters tag each stored component is the written
/// ten-thousandths scaled by ten thousand, so re-deriving meters gives
/// the written numbers unchanged; with a feet tag it is the written
/// ten-thousandths scaled by 3048, which is exactly 0.3048 meters per
/// foot of the meters-built coordinate of the same numbers.
pub proof fn lemma_station_fix_units(
    s: Seq<u8>,
    i: int,
    c: crate::common_types::EastNorthElevation,
    n: int,
)
    requires
        spec_parse_station_fix(s, i) == Some((c, n)),
    ensures
        exists|e: i64, nn: i64, u: i64|
            in_coord_range(e as int) && in_coord_range(nn as int) && in_coord_range(u as int) && (
            (c == spec_from_meters(e, nn, u) && c.easting == e * 10_000 && c.northing == nn
                * 10_000 && c.up == u * 10_000) || (c == spec_from_feet(e, nn, u) && c.easting
                == e * 3048 && c.northing == nn * 3048 && c.up == u * 3048 && c.easting * 10_000
                == spec_from_meters(e, nn, u).easting * 3048)),
{
    let end = s.len() as int;
    let a = spec_skip_ws(s, i + 1, end);
    let b = spec_skip_ws(s, a + 1, end);
    let (e0, p1) = spec_parse_decimal_ws(s, b + 1, end).unwrap();
    let (n0, p2) = spec_parse_decimal_ws(s, p1 + 1, end).unwrap();
    let (u0, p3) = spec_parse_decimal_ws(s, p2 + 1, end).unwrap();
    let e = e0 as i64;
    let nn = n0 as i64;
    let u = u0 as i64;
    if s[a] == 109u8 || s[a] == 77u8 {
        assert(c == spec_from_meters(e, nn, u));
        assert(c.easting == e * 10_000 && c.northing == nn * 10_000 && c.up == u * 10_000);
    } else {
        crate::common_types::lemma_feet_to_meters_exact(e, nn, u);
        assert(c == spec_from_feet(e, nn, u));
        assert(c.easting == e * 3048 && c.northing == nn * 3048 && c.up == u * 3048);
    }
}

/// The directives recognized from offset `i` on, in the order the fold
/// consumes them, disregarding folder balance.
pub open spec fn spec_element_trace(s: Seq<u8>, i: int) -> Seq<ProjectElement>
    decreases s.len() - i,
{
    if !(0 <= i <= s.len()) {
        Seq::empty()
    } else {
        match spec_parse_element(s, i) {
            Some((el, n)) => {
                if i < n <= s.len() {
                    seq![el] + spec_element_trace(s, n)
                } else {
                    seq![el]
                }
            },
            None => Seq::empty(),
        }
    }
}

/// How many folder pushes a directive sequence holds.
pub open spec fn count_pushes(tr: Seq<ProjectElement>) -> int
    decreases tr.len(),
{
    if tr.len() == 0 {
        0
    } else {
        (if tr[0] is PushFolder {
            1int
        } else {
            0
        }) + count_pushes(tr.skip(1))
    }
}

/// How many folder pops a directive sequence holds.
pub open spec fn count_pops(tr: Seq<ProjectElement>) -> int
    decreases tr.len(),
{
    if tr.len() == 0 {
        0
    } else {
        (if tr[0] is PopFolder {
            1int
        } else {
            0
        }) + count_pops(tr.skip(1))
    }
}

/// In every prefix, folder pops never outnumber the pushes before them.
pub open spec fn folder_balanced(tr: Seq<ProjectElement>) -> bool {
    forall|k: int|
        0 <= k <= tr.len() ==> count_pops(#[trigger] tr.take(k)) <= count_pushes(tr.take(k))
}

proof fn lemma_count_cons(el: ProjectElement, x: Seq<ProjectElement>)
    ensures
        count_pushes(seq![el] + x) == (if el is PushFolder {
            1int
        } else {
            0
        }) + count_pushes(x),
        count_pops(seq![el] + x) == (if el is PopFolder {
            1int
        } else {
            0
        }) + count_pops(x),
{
    assert((seq![el] + x).skip(1) =~= x);
    assert((seq![el] + x)[0] == el);
}

/// When every prefix of the remaining directive trace keeps its excess
/// of pops over pushes within the open-folder depth, the fold stops
/// normally: it never reports an unbalanced pop.
proof fn lemma_run_balance(s: Seq<u8>, i: int, acc: ProjAcc)
    requires
        0 <= i <= s.len(),
        forall|k: int|
            0 <= k <= spec_element_trace(s, i).len() ==> count_pops(
                #[trigger] spec_element_trace(s, i).take(k),
            ) - count_pushes(spec_element_trace(s, i).take(k)) <= acc.depth,
    ensures
        spec_run_project(s, i, acc) is Stopped,
    decreases s.len() - i,
{
    let tr = spec_element_trace(s, i);
    assert(tr.take(0) =~= Seq::<ProjectElement>::empty());
    assert(acc.depth >= 0);
    match spec_parse_element(s, i) {
        Some((el, n)) => {
            let pop0: int = if el is PopFolder {
                1
            } else {
                0
            };
            let push0: int = if el is PushFolder {
                1
            } else {
                0
            };
            if i < n <= s.len() {
                let tr2 = spec_element_trace(s, n);
                assert(tr == seq![el] + tr2);
                assert(tr.take(1) =~= seq![el] + tr2.take(0));
                lemma_count_cons(el, tr2.take(0));
                assert(count_pops(tr.take(1)) - count_pushes(tr.take(1)) <= acc.depth);
                if el is PopFolder {
                    assert(count_pops(tr.take(1)) == 1 && count_pushes(tr.take(1)) == 0);
                    assert(acc.depth >= 1);
                }
                let acc2 = spec_apply_element(acc, el);
                assert(acc2.depth == acc.depth + push0 - pop0);
                assert forall|k: int| 0 <= k <= tr2.len() implies count_pops(
                    #[trigger] tr2.take(k),
                ) - count_pushes(tr2.take(k)) <= acc2.depth by {
                    assert(tr.take(k + 1) =~= seq![el] + tr2.take(k));
                    lemma_count_cons(el, tr2.take(k));
                    assert(count_pops(tr.take(k + 1)) - count_pushes(tr.take(k + 1))
                        <= acc.depth);
                }
                lemma_run_balance(s, n, acc2);
            }
        },
        None => {},
    }
}

/// When some prefix of the remaining directive trace has more pops than
/// the open-folder depth can absorb, the fold reports an unbalanced
/// pop.
proof fn lemma_run_unbalanced(s: Seq<u8>, i: int, acc: ProjAcc)
    requires
        0 <= i <= s.len(),
        acc.depth >= 0,
        exists|k: int|
            0 <= k <= spec_element_trace(s, i).len() && count_pops(
                #[trigger] spec_element_trace(s, i).take(k),
            ) - count_pushes(spec_element_trace(s, i).take(k)) > acc.depth,
    ensures
        spec_run_project(s, i, acc) is Unbalanced,
    decreases s.len() - i,
{
    let tr = spec_element_trace(s, i);
    let k = choose|k: int|
        0 <= k <= tr.len() && count_pops(#[trigger] tr.take(k)) - count_pushes(tr.take(k))
            > acc.depth;
    assert(tr.take(0) =~= Seq::<ProjectElement>::empty());
    assert(k >= 1);
    match spec_parse_element(s, i) {
        Some((el, n)) => {
            let pop0: int = if el is PopFolder {
                1
            } else {
                0
            };
            let push0: int = if el is PushFolder {
                1
            } else {
                0
            };
            if el is PopFolder && acc.depth == 0 {
            } else {
                if i < n <= s.len() {
                    let tr2 = spec_element_trace(s, n);
                    assert(tr == seq![el] + tr2);
                    let acc2 = spec_apply_element(acc, el);
                    assert(acc2.depth == acc.depth + push0 - pop0);
                    assert(acc2.depth >= 0);
                    assert(tr.take(k) =~= seq![el] + tr2.take(k - 1));
                    lemma_count_cons(el, tr2.take(k - 1));
                    assert(count_pops(tr2.take(k - 1)) - count_pushes(tr2.take(k - 1))
                        > acc2.depth);
                    lemma_run_unbalanced(s, n, acc2);
                } else {
                    assert(tr =~= seq![el]);
                    assert(tr.take(k) =~= tr);
                    lemma_count_cons(el, Seq::empty());
                    assert(tr.skip(1) =~= Seq::<ProjectElement>::empty());
                    assert(count_pops(tr) - count_pushes(tr) <= 1);
                    assert(false);
                }
            }
        },
        None => {
            assert(tr.take(k) =~= tr);
            assert(false);
        },
    }
}

/// A project body whose folder pushes and pops nest properly parses
/// without structural error: the directive fold runs to its normal
/// stop.
pub proof fn lemma_balanced_no_structural_error(s: Seq<u8>)
    requires
        folder_balanced(spec_element_trace(s, 0)),
    ensures
        spec_run_project(s, 0, init_acc()) is Stopped,
{
    lemma_run_balance(s, 0, init_acc());
}

/// A pop with no prior matching push fails the parse: as soon as some
/// prefix of the directives holds more pops than pushes, the fold
/// reports an unbalanced pop.
pub proof fn lemma_excess_pop_fails(s: Seq<u8>)
    requires
        exists|k: int|
            0 <= k <= spec_element_trace(s, 0).len() && count_pops(
                #[trigger] spec_element_trace(s, 0).take(k),
            ) > count_pushes(spec_element_trace(s, 0).take(k)),
    ensures
        spec_run_project(s, 0, init_acc()) is Unbalanced,
{
    let tr = spec_element_trace(s, 0);
    let k = choose|k: int|
        0 <= k <= tr.len() && count_pops(#[trigger] tr.take(k)) > count_pushes(tr.take(k));
    assert(count_pops(tr.take(k)) - count_pushes(tr.take(k)) > init_acc().depth);
    lemma_run_unbalanced(s, 0, init_acc());
}

} // verus!
