//! Laws of the survey grammar, chief among them the round-trip law:
//! parsing a serialized survey gives back exactly the survey that was
//! serialized, for every survey in the canonical value range of the
//! text form.
use vstd::prelude::*;

verus! {

use crate::common_types::Decimal;
use crate::fmt::{
    dec_digits, lemma_dec_digits_form, lemma_decimal_ws_at, lemma_uint_at, spec_fmt2,
    lemma_fmt2_form,
};
use crate::parser_utils::{
    is_digit, is_line_break, is_name_byte, is_ws, lemma_line_end_exact, lemma_match_bytes,
    lemma_mismatch_at, lemma_name_run_exact, lemma_skip_ws_exact, lemma_split_match,
    lemma_trim_end_exact, lit_bytes, matches_at, spec_skip_ws, spec_take_line,
};
use crate::survey::{
    crlf, fmt2d, spec_label_line, spec_serialize_params, spec_serialize_shot,
    spec_serialize_shots, spec_serialize_survey, CorrectionFactors, Parameters, ShotV, SurveyV,
};
use crate::survey::parser::{
    spec_parse_cave_line, spec_parse_corrections, spec_parse_corrections2, spec_parse_date_line,
    spec_parse_name_line, spec_parse_params_line, spec_parse_shot, spec_parse_shots,
    spec_parse_survey, spec_parse_team_lines, spec_skip_labels,
};

/// A non-empty run of station-name bytes.
pub open spec fn is_token(b: Seq<u8>) -> bool {
    b.len() > 0 && forall|k: int| 0 <= k < b.len() ==> is_name_byte(#[trigger] b[k])
}

/// Free of line breaks: fits on one line.
pub open spec fn is_line_text(b: Seq<u8>) -> bool {
    forall|k: int| 0 <= k < b.len() ==> !is_line_break(#[trigger] b[k])
}

/// A measurement the two-decimal-place text form carries exactly: a
/// whole count of hundredths, small enough to parse back.
pub open spec fn canonical_value(d: Decimal) -> bool {
    d.units % 100 == 0 && -1_000_000_000_000_000_000 < d.units < 1_000_000_000_000_000_000
}

/// Parameters whose text form carries every field exactly.
pub open spec fn canonical_params(p: Parameters) -> bool {
    canonical_value(p.declination) && (match p.correction_factors {
        Some(c) => canonical_value(c.azimuth) && canonical_value(c.inclination)
            && canonical_value(c.length),
        None => true,
    }) && (match p.backsight_correction_factors {
        Some(c) => canonical_value(c.azimuth) && canonical_value(c.inclination),
        None => true,
    })
}

/// A survey whose text form carries every field exactly: a non-empty
/// trimmed cave name, a station-name survey name, single-line comment
/// and team text, and canonical parameters and shots.
pub open spec fn canonical_survey(sv: SurveyV) -> bool {
    sv.cave_name.len() > 0 && is_line_text(sv.cave_name) && !is_ws(sv.cave_name[0]) && !is_ws(
        sv.cave_name[sv.cave_name.len() - 1],
    ) && is_token(sv.name) && (match sv.comment {
        Some(c) => is_line_text(c),
        None => true,
    }) && is_line_text(sv.team) && canonical_params(sv.parameters) && (forall|k: int|
        0 <= k < sv.shots.len() ==> canonical_shot_text(#[trigger] sv.shots[k]))
}

/// The serialized survey, segment by segment, grouped from the right.
pub open spec fn seg_cave(sv: SurveyV) -> Seq<u8> {
    sv.cave_name + crlf()
}

pub open spec fn seg_name(sv: SurveyV) -> Seq<u8> {
    lit_bytes("SURVEY NAME: "@) + sv.name + crlf()
}

pub open spec fn seg_date(sv: SurveyV) -> Seq<u8> {
    lit_bytes("SURVEY DATE: "@) + dec_digits(sv.date.month as nat) + seq![32u8] + dec_digits(
        sv.date.day as nat,
    ) + seq![32u8] + dec_digits(sv.date.year as nat) + (match sv.comment {
        Some(c) => lit_bytes(" COMMENT:"@) + c,
        None => Seq::empty(),
    }) + crlf()
}

pub open spec fn seg_team(sv: SurveyV) -> Seq<u8> {
    lit_bytes("SURVEY TEAM:"@) + crlf() + sv.team + crlf()
}

pub open spec fn seg_labels() -> Seq<u8> {
    spec_label_line() + crlf()
}

pub open spec fn seg_fin() -> Seq<u8> {
    seq![12u8, 13u8, 10u8]
}

/// The serialized survey is its segments, in order.
#[verifier::rlimit(100)]
#[verifier::spinoff_prover]
pub proof fn lemma_ser_structure(sv: SurveyV)
    ensures
        spec_serialize_survey(sv) == seg_cave(sv) + (seg_name(sv) + (seg_date(sv) + (seg_team(sv)
            + (spec_serialize_params(sv.parameters) + (seg_labels() + (spec_serialize_shots(
            sv.shots,
        ) + seg_fin())))))),
{
    assert(spec_serialize_survey(sv) =~= seg_cave(sv) + (seg_name(sv) + (seg_date(sv) + (
    seg_team(sv) + (spec_serialize_params(sv.parameters) + (seg_labels() + (spec_serialize_shots(
        sv.shots,
    ) + seg_fin())))))));
}

/// A body of line text followed by a terminator is one line.
proof fn lemma_line_shape(s: Seq<u8>, i: int, body: Seq<u8>)
    requires
        0 <= i,
        matches_at(s, i, body + crlf()),
        is_line_text(body),
    ensures
        spec_take_line(s, i) == Some((i + body.len(), i + body.len() + 2)),
        forall|t: int| 0 <= t < body.len() ==> s[i + t] == #[trigger] body[t],
        s.subrange(i, i + body.len()) == body,
        s[i + body.len()] == 13u8,
        i + body.len() + 2 <= s.len(),
{
    lemma_split_match(s, i, body, crlf());
    lemma_match_bytes(s, i, body);
    lemma_match_bytes(s, i + body.len(), crlf());
    assert(crlf()[0] == 13u8 && crlf()[1] == 10u8);
    assert(s[i + body.len()] == 13u8);
    assert(s[i + body.len() + 1] == 10u8);
    assert forall|t: int| i <= t < i + body.len() implies !is_line_break(s[t]) by {
        assert(s[i + (t - i)] == body[t - i]);
        assert(!is_line_break(body[t - i]));
    }
    lemma_line_end_exact(s, i, i + body.len());
}

/// The cave-name line reads back exactly.
proof fn lemma_cave_line_rt(s: Seq<u8>, i: int, sv: SurveyV)
    requires
        0 <= i,
        matches_at(s, i, seg_cave(sv)),
        canonical_survey(sv),
    ensures
        spec_parse_cave_line(s, i) == Some((sv.cave_name, i + seg_cave(sv).len())),
{
    let body = sv.cave_name;
    lemma_line_shape(s, i, body);
    let le = i + body.len();
    assert(!is_ws(s[le - 1])) by {
        assert(s[i + (body.len() - 1)] == body[body.len() - 1]);
    }
    lemma_trim_end_exact(s, i, le, le);
    assert(!is_ws(s[i])) by {
        assert(s[i + 0] == body[0]);
    }
    lemma_skip_ws_exact(s, i, i, le);
    assert(crate::parser_utils::spec_trimmed(s, i, le) == body);
}

/// The survey-name line reads back exactly.
#[verifier::rlimit(100)]
#[verifier::spinoff_prover]
proof fn lemma_name_line_rt(s: Seq<u8>, i: int, sv: SurveyV)
    requires
        0 <= i,
        matches_at(s, i, seg_name(sv)),
        canonical_survey(sv),
    ensures
        spec_parse_name_line(s, i) == Some((sv.name, i + seg_name(sv).len())),
{
    reveal_strlit("SURVEY NAME: ");
    reveal_strlit("SURVEY NAME:");
    let tag13 = lit_bytes("SURVEY NAME: "@);
    let tag12 = lit_bytes("SURVEY NAME:"@);
    let body = tag13 + sv.name;
    assert(seg_name(sv) =~= body + crlf());
    assert forall|t: int| 0 <= t < body.len() implies !is_line_break(#[trigger] body[t]) by {
        if t < 13 {
            assert(body[t] == tag13[t]);
        } else {
            assert(body[t] == sv.name[t - 13]);
            assert(is_name_byte(sv.name[t - 13]));
        }
    }
    lemma_line_shape(s, i, body);
    let le = i + body.len();
    // the keyword is the first twelve bytes
    assert(matches_at(s, i, tag12)) by {
        assert forall|t: int| 0 <= t < 12 implies s.subrange(i, i + 12)[t] == tag12[t] by {
            assert(s[i + t] == body[t]);
            assert(body[t] == tag13[t]);
            assert(s.subrange(i, i + 12)[t] == s[i + t]);
        }
        assert(s.subrange(i, i + 12) =~= tag12);
    }
    // one space, then the name token, then the terminator
    assert(s[i + 12] == body[12] && body[12] == tag13[12] && tag13[12] == 32u8);
    assert(s[i + 13] == body[13] && body[13] == sv.name[0]);
    assert(!is_ws(sv.name[0]));
    lemma_skip_ws_exact(s, i + 12, i + 13, le);
    assert forall|t: int| i + 13 <= t < le implies is_name_byte(s[t]) by {
        assert(s[i + (t - i)] == body[t - i]);
        assert(body[t - i] == sv.name[t - i - 13]);
    }
    assert(!is_name_byte(13u8));
    lemma_name_run_exact(s, i + 13, le, le);
    assert(s.subrange(i + 13, le) =~= sv.name) by {
        assert forall|t: int| 0 <= t < sv.name.len() implies s.subrange(i + 13, le)[t]
            == sv.name[t] by {
            assert(s.subrange(i + 13, le)[t] == s[i + 13 + t]);
            assert(s[i + (13 + t)] == body[13 + t]);
        }
    }
}

/// The survey-date line reads back exactly: date fields and the
/// optional comment.
#[verifier::rlimit(100)]
#[verifier::spinoff_prover]
proof fn lemma_date_line_rt(s: Seq<u8>, i: int, sv: SurveyV)
    requires
        0 <= i,
        matches_at(s, i, seg_date(sv)),
        canonical_survey(sv),
    ensures
        spec_parse_date_line(s, i) == Some(((sv.date, sv.comment), i + seg_date(sv).len())),
{
    reveal_strlit("SURVEY DATE: ");
    reveal_strlit("SURVEY DATE:");
    reveal_strlit(" COMMENT:");
    reveal_strlit("COMMENT:");
    let tag13 = lit_bytes("SURVEY DATE: "@);
    let tag12 = lit_bytes("SURVEY DATE:"@);
    let dm = dec_digits(sv.date.month as nat);
    let dd = dec_digits(sv.date.day as nat);
    let dy = dec_digits(sv.date.year as nat);
    let cmt: Seq<u8> = match sv.comment {
        Some(c) => lit_bytes(" COMMENT:"@) + c,
        None => Seq::empty(),
    };
    let body = tag13 + dm + seq![32u8] + dd + seq![32u8] + dy + cmt;
    assert(seg_date(sv) =~= body + crlf());
    lemma_dec_digits_form(sv.date.month as nat);
    lemma_dec_digits_form(sv.date.day as nat);
    lemma_dec_digits_form(sv.date.year as nat);
    assert forall|t: int| 0 <= t < body.len() implies !is_line_break(#[trigger] body[t]) by {
        if t < 13 {
            assert(body[t] == tag13[t]);
        } else if t < 13 + dm.len() {
            assert(body[t] == dm[t - 13]);
            assert(is_digit(dm[t - 13]));
        } else if t == 13 + dm.len() {
            assert(body[t] == 32u8);
        } else if t < 14 + dm.len() + dd.len() {
            assert(body[t] == dd[t - 14 - dm.len()]);
            assert(is_digit(dd[t - 14 - dm.len()]));
        } else if t == 14 + dm.len() + dd.len() {
            assert(body[t] == 32u8);
        } else if t < 15 + dm.len() + dd.len() + dy.len() {
            assert(body[t] == dy[t - 15 - dm.len() - dd.len()]);
            assert(is_digit(dy[t - 15 - dm.len() - dd.len()]));
        } else {
            let u = t - 15 - dm.len() - dd.len() - dy.len();
            assert(body[t] == cmt[u]);
            match sv.comment {
                Some(c) => {
                    if u < 9 {
                        assert(cmt[u] == lit_bytes(" COMMENT:"@)[u]);
                    } else {
                        assert(cmt[u] == c[u - 9]);
                    }
                },
                None => {},
            }
        }
    }
    lemma_line_shape(s, i, body);
    let le = i + body.len();
    assert(matches_at(s, i, tag12)) by {
        assert forall|t: int| 0 <= t < 12 implies s.subrange(i, i + 12)[t] == tag12[t] by {
            assert(s[i + t] == body[t]);
            assert(body[t] == tag13[t]);
            assert(s.subrange(i, i + 12)[t] == s[i + t]);
        }
        assert(s.subrange(i, i + 12) =~= tag12);
    }
    // month
    let om = i + 13;
    assert(s[i + 12] == body[12] && body[12] == tag13[12] && tag13[12] == 32u8);
    assert(s[i + 13] == body[13] && body[13] == dm[0]);
    lemma_skip_ws_exact(s, i + 12, om, le);
    assert(matches_at(s, om, dm)) by {
        assert forall|t: int| 0 <= t < dm.len() implies s.subrange(om, om + dm.len())[t]
            == dm[t] by {
            assert(s[i + (13 + t)] == body[13 + t]);
            assert(s.subrange(om, om + dm.len())[t] == s[om + t]);
        }
        assert(s.subrange(om, om + dm.len()) =~= dm);
    }
    let em = om + dm.len();
    assert(s[i + (em - i)] == body[em - i] && body[em - i] == 32u8);
    lemma_uint_at(s, i + 12, om, le, sv.date.month as nat, 255);
    // day
    let od = em + 1;
    assert(s[i + (od - i)] == body[od - i] && body[od - i] == dd[0]);
    lemma_skip_ws_exact(s, em, od, le);
    assert(matches_at(s, od, dd)) by {
        assert forall|t: int| 0 <= t < dd.len() implies s.subrange(od, od + dd.len())[t]
            == dd[t] by {
            assert(s[i + (od - i + t)] == body[od - i + t]);
            assert(s.subrange(od, od + dd.len())[t] == s[od + t]);
        }
        assert(s.subrange(od, od + dd.len()) =~= dd);
    }
    let ed = od + dd.len();
    assert(s[i + (ed - i)] == body[ed - i] && body[ed - i] == 32u8);
    lemma_uint_at(s, em, od, le, sv.date.day as nat, 255);
    // year
    let oy = ed + 1;
    assert(s[i + (oy - i)] == body[oy - i] && body[oy - i] == dy[0]);
    lemma_skip_ws_exact(s, ed, oy, le);
    assert(matches_at(s, oy, dy)) by {
        assert forall|t: int| 0 <= t < dy.len() implies s.subrange(oy, oy + dy.len())[t]
            == dy[t] by {
            assert(s[i + (oy - i + t)] == body[oy - i + t]);
            assert(s.subrange(oy, oy + dy.len())[t] == s[oy + t]);
        }
        assert(s.subrange(oy, oy + dy.len()) =~= dy);
    }
    let ey = oy + dy.len();
    match sv.comment {
        Some(c) => {
            assert(s[i + (ey - i)] == body[ey - i] && body[ey - i] == cmt[0] && cmt[0] == 32u8);
            assert(!is_digit(s[ey]));
            lemma_uint_at(s, ed, oy, le, sv.date.year as nat, 65535);
            let p3 = ey + 1;
            assert(s[i + (p3 - i)] == body[p3 - i] && body[p3 - i] == cmt[1]);
            assert(cmt[1] == lit_bytes(" COMMENT:"@)[1]);
            assert(!is_ws(s[p3]));
            lemma_skip_ws_exact(s, ey, p3, le);
            let ctag = lit_bytes("COMMENT:"@);
            assert(matches_at(s, p3, ctag)) by {
                assert forall|t: int| 0 <= t < 8 implies s.subrange(p3, p3 + 8)[t] == ctag[t] by {
                    assert(s[i + (p3 - i + t)] == body[p3 - i + t]);
                    assert(body[p3 - i + t] == cmt[1 + t]);
                    assert(cmt[1 + t] == lit_bytes(" COMMENT:"@)[1 + t]);
                    assert(s.subrange(p3, p3 + 8)[t] == s[p3 + t]);
                }
                assert(s.subrange(p3, p3 + 8) =~= ctag);
            }
            assert(p3 + 8 <= le);
            assert(s.subrange(p3 + 8, le) =~= c) by {
                assert forall|t: int| 0 <= t < c.len() implies s.subrange(p3 + 8, le)[t]
                    == c[t] by {
                    assert(s[i + (p3 + 8 - i + t)] == body[p3 + 8 - i + t]);
                    assert(body[p3 + 8 - i + t] == cmt[9 + t]);
                    assert(cmt[9 + t] == c[t]);
                    assert(s.subrange(p3 + 8, le)[t] == s[p3 + 8 + t]);
                }
            }
        },
        None => {
            assert(ey == le);
            lemma_uint_at(s, ed, oy, le, sv.date.year as nat, 65535);
            lemma_skip_ws_exact(s, ey, le, le);
        },
    }
}

/// The team marker line and team line read back exactly.
proof fn lemma_team_lines_rt(s: Seq<u8>, i: int, sv: SurveyV)
    requires
        0 <= i,
        matches_at(s, i, seg_team(sv)),
        canonical_survey(sv),
    ensures
        spec_parse_team_lines(s, i) == Some((sv.team, i + seg_team(sv).len())),
{
    reveal_strlit("SURVEY TEAM:");
    let tag12 = lit_bytes("SURVEY TEAM:"@);
    assert(seg_team(sv) =~= (tag12 + crlf()) + (sv.team + crlf()));
    lemma_split_match(s, i, tag12 + crlf(), sv.team + crlf());
    assert forall|t: int| 0 <= t < tag12.len() implies !is_line_break(#[trigger] tag12[t]) by {}
    lemma_line_shape(s, i, tag12);
    let n1 = i + 14;
    lemma_line_shape(s, n1, sv.team);
    lemma_split_match(s, i, tag12, crlf());
}

/// The `CORRECTIONS:` clause as serialized, without its leading space.
pub open spec fn cf_seg(c: CorrectionFactors) -> Seq<u8> {
    lit_bytes("CORRECTIONS: "@) + fmt2d(c.azimuth) + seq![32u8] + fmt2d(c.inclination)
        + seq![32u8] + fmt2d(c.length)
}

/// The `CORRECTIONS2:` clause as serialized, without its leading space.
pub open spec fn bcf_seg(b: crate::survey::BackSightCorrectionFactors) -> Seq<u8> {
    lit_bytes("CORRECTIONS2: "@) + fmt2d(b.azimuth) + seq![32u8] + fmt2d(b.inclination)
}

/// A serialized `CORRECTIONS:` clause reads back exactly.
#[verifier::rlimit(100)]
#[verifier::spinoff_prover]
proof fn lemma_cf_at(s: Seq<u8>, p3: int, le: int, c: CorrectionFactors)
    requires
        0 <= p3,
        matches_at(s, p3, cf_seg(c)),
        canonical_value(c.azimuth) && canonical_value(c.inclination) && canonical_value(c.length),
        p3 + cf_seg(c).len() <= le <= s.len(),
        p3 + cf_seg(c).len() == le || !is_digit(s[p3 + cf_seg(c).len()]),
    ensures
        spec_parse_corrections(s, p3, le) == (
            Some(c),
            spec_skip_ws(s, p3 + cf_seg(c).len(), le),
        ),
{
    reveal_strlit("CORRECTIONS: ");
    reveal_strlit("CORRECTIONS:");
    let seg = cf_seg(c);
    let l13 = lit_bytes("CORRECTIONS: "@);
    let tag = lit_bytes("CORRECTIONS:"@);
    let f1 = fmt2d(c.azimuth);
    let f2 = fmt2d(c.inclination);
    let f3 = fmt2d(c.length);
    lemma_fmt2_form(c.azimuth.units as int);
    lemma_fmt2_form(c.inclination.units as int);
    lemma_fmt2_form(c.length.units as int);
    lemma_match_bytes(s, p3, seg);
    assert(matches_at(s, p3, tag)) by {
        assert forall|t: int| 0 <= t < 12 implies s.subrange(p3, p3 + 12)[t] == tag[t] by {
            assert(s[p3 + t] == seg[t]);
            assert(seg[t] == l13[t]);
            assert(s.subrange(p3, p3 + 12)[t] == s[p3 + t]);
        }
        assert(s.subrange(p3, p3 + 12) =~= tag);
    }
    let o1 = p3 + 13;
    assert(s[p3 + 12] == seg[12] && seg[12] == l13[12] && l13[12] == 32u8);
    assert(s[p3 + 13] == seg[13] && seg[13] == f1[0]);
    assert(!is_ws(f1[0]));
    lemma_skip_ws_exact(s, p3 + 12, o1, le);
    let e1 = o1 + f1.len();
    assert(matches_at(s, o1, f1)) by {
        assert forall|t: int| 0 <= t < f1.len() implies s.subrange(o1, e1)[t] == f1[t] by {
            assert(s[p3 + (13 + t)] == seg[13 + t]);
            assert(s.subrange(o1, e1)[t] == s[o1 + t]);
        }
        assert(s.subrange(o1, e1) =~= f1);
    }
    assert(s[p3 + (e1 - p3)] == seg[e1 - p3] && seg[e1 - p3] == 32u8);
    lemma_decimal_ws_at(s, p3 + 12, o1, le, c.azimuth.units as int);
    let o2 = e1 + 1;
    assert(s[p3 + (o2 - p3)] == seg[o2 - p3] && seg[o2 - p3] == f2[0]);
    assert(!is_ws(f2[0]));
    lemma_skip_ws_exact(s, e1, o2, le);
    let e2 = o2 + f2.len();
    assert(matches_at(s, o2, f2)) by {
        assert forall|t: int| 0 <= t < f2.len() implies s.subrange(o2, e2)[t] == f2[t] by {
            assert(s[p3 + (o2 - p3 + t)] == seg[o2 - p3 + t]);
            assert(s.subrange(o2, e2)[t] == s[o2 + t]);
        }
        assert(s.subrange(o2, e2) =~= f2);
    }
    assert(s[p3 + (e2 - p3)] == seg[e2 - p3] && seg[e2 - p3] == 32u8);
    lemma_decimal_ws_at(s, e1, o2, le, c.inclination.units as int);
    let o3 = e2 + 1;
    assert(s[p3 + (o3 - p3)] == seg[o3 - p3] && seg[o3 - p3] == f3[0]);
    assert(!is_ws(f3[0]));
    lemma_skip_ws_exact(s, e2, o3, le);
    let e3 = o3 + f3.len();
    assert(matches_at(s, o3, f3)) by {
        assert forall|t: int| 0 <= t < f3.len() implies s.subrange(o3, e3)[t] == f3[t] by {
            assert(s[p3 + (o3 - p3 + t)] == seg[o3 - p3 + t]);
            assert(s.subrange(o3, e3)[t] == s[o3 + t]);
        }
        assert(s.subrange(o3, e3) =~= f3);
    }
    lemma_decimal_ws_at(s, e2, o3, le, c.length.units as int);
    assert(e3 == p3 + seg.len());
    assert(c == (CorrectionFactors {
        azimuth: Decimal { units: c.azimuth.units },
        inclination: Decimal { units: c.inclination.units },
        length: Decimal { units: c.length.units },
    }));
}

/// A serialized `CORRECTIONS2:` clause reads back exactly.
#[verifier::rlimit(100)]
#[verifier::spinoff_prover]
proof fn lemma_bcf_at(s: Seq<u8>, p4: int, le: int, b: crate::survey::BackSightCorrectionFactors)
    requires
        0 <= p4,
        matches_at(s, p4, bcf_seg(b)),
        canonical_value(b.azimuth) && canonical_value(b.inclination),
        p4 + bcf_seg(b).len() <= le <= s.len(),
        p4 + bcf_seg(b).len() == le || !is_digit(s[p4 + bcf_seg(b).len()]),
    ensures
        spec_parse_corrections2(s, p4, le) == (
            Some(b),
            spec_skip_ws(s, p4 + bcf_seg(b).len(), le),
        ),
{
    reveal_strlit("CORRECTIONS2: ");
    reveal_strlit("CORRECTIONS2:");
    let seg = bcf_seg(b);
    let l14 = lit_bytes("CORRECTIONS2: "@);
    let tag = lit_bytes("CORRECTIONS2:"@);
    let g1 = fmt2d(b.azimuth);
    let g2 = fmt2d(b.inclination);
    lemma_fmt2_form(b.azimuth.units as int);
    lemma_fmt2_form(b.inclination.units as int);
    lemma_match_bytes(s, p4, seg);
    assert(matches_at(s, p4, tag)) by {
        assert forall|t: int| 0 <= t < 13 implies s.subrange(p4, p4 + 13)[t] == tag[t] by {
            assert(s[p4 + t] == seg[t]);
            assert(seg[t] == l14[t]);
            assert(s.subrange(p4, p4 + 13)[t] == s[p4 + t]);
        }
        assert(s.subrange(p4, p4 + 13) =~= tag);
    }
    let o1 = p4 + 14;
    assert(s[p4 + 13] == seg[13] && seg[13] == l14[13] && l14[13] == 32u8);
    assert(s[p4 + 14] == seg[14] && seg[14] == g1[0]);
    assert(!is_ws(g1[0]));
    lemma_skip_ws_exact(s, p4 + 13, o1, le);
    let e1 = o1 + g1.len();
    assert(matches_at(s, o1, g1)) by {
        assert forall|t: int| 0 <= t < g1.len() implies s.subrange(o1, e1)[t] == g1[t] by {
            assert(s[p4 + (14 + t)] == seg[14 + t]);
            assert(s.subrange(o1, e1)[t] == s[o1 + t]);
        }
        assert(s.subrange(o1, e1) =~= g1);
    }
    assert(s[p4 + (e1 - p4)] == seg[e1 - p4] && seg[e1 - p4] == 32u8);
    lemma_decimal_ws_at(s, p4 + 13, o1, le, b.azimuth.units as int);
    let o2 = e1 + 1;
    assert(s[p4 + (o2 - p4)] == seg[o2 - p4] && seg[o2 - p4] == g2[0]);
    assert(!is_ws(g2[0]));
    lemma_skip_ws_exact(s, e1, o2, le);
    let e2 = o2 + g2.len();
    assert(matches_at(s, o2, g2)) by {
        assert forall|t: int| 0 <= t < g2.len() implies s.subrange(o2, e2)[t] == g2[t] by {
            assert(s[p4 + (o2 - p4 + t)] == seg[o2 - p4 + t]);
            assert(s.subrange(o2, e2)[t] == s[o2 + t]);
        }
        assert(s.subrange(o2, e2) =~= g2);
    }
    lemma_decimal_ws_at(s, e1, o2, le, b.inclination.units as int);
    assert(e2 == p4 + seg.len());
    assert(b == (crate::survey::BackSightCorrectionFactors {
        azimuth: Decimal { units: b.azimuth.units },
        inclination: Decimal { units: b.inclination.units },
    }));
}

/// After the format token, the correction clauses read back in every
/// combination: either, both, or neither.
#[verifier::rlimit(100)]
#[verifier::spinoff_prover]
proof fn lemma_params_tail_rt(s: Seq<u8>, j2: int, le: int, p: Parameters)
    requires
        0 <= j2,
        canonical_params(p),
        matches_at(
            s,
            j2,
            (match p.correction_factors {
                Some(c) => seq![32u8] + cf_seg(c),
                None => Seq::empty(),
            }) + (match p.backsight_correction_factors {
                Some(b) => seq![32u8] + bcf_seg(b),
                None => Seq::empty(),
            }),
        ),
        j2 + ((match p.correction_factors {
            Some(c) => seq![32u8] + cf_seg(c),
            None => Seq::empty(),
        }) + (match p.backsight_correction_factors {
            Some(b) => seq![32u8] + bcf_seg(b),
            None => Seq::empty(),
        })).len() == le,
        le <= s.len(),
    ensures
        ({
            let (cfr, p4) = spec_parse_corrections(s, spec_skip_ws(s, j2, le), le);
            let (bcfr, _p5) = spec_parse_corrections2(s, p4, le);
            cfr == p.correction_factors && bcfr == p.backsight_correction_factors
        }),
{
    reveal_strlit("CORRECTIONS: ");
    reveal_strlit("CORRECTIONS:");
    reveal_strlit("CORRECTIONS2: ");
    reveal_strlit("CORRECTIONS2:");
    let cfp: Seq<u8> = match p.correction_factors {
        Some(c) => seq![32u8] + cf_seg(c),
        None => Seq::empty(),
    };
    let bcfp: Seq<u8> = match p.backsight_correction_factors {
        Some(b) => seq![32u8] + bcf_seg(b),
        None => Seq::empty(),
    };
    match p.correction_factors {
        Some(c) => {
            lemma_fmt2_form(c.azimuth.units as int);
            lemma_fmt2_form(c.inclination.units as int);
            lemma_fmt2_form(c.length.units as int);
        },
        None => {},
    }
    match p.backsight_correction_factors {
        Some(b) => {
            lemma_fmt2_form(b.azimuth.units as int);
            lemma_fmt2_form(b.inclination.units as int);
        },
        None => {},
    }
    lemma_match_bytes(s, j2, cfp + bcfp);
    let tseg = cfp + bcfp;
    let p3 = spec_skip_ws(s, j2, le);
    match p.correction_factors {
        Some(c) => {
            assert(tseg[0] == cfp[0] && cfp[0] == 32u8);
            assert(tseg[1] == cfp[1] && cfp[1] == cf_seg(c)[0]);
            assert(s[j2 + 0] == tseg[0]);
            assert(s[j2 + 1] == tseg[1]);
            assert(!is_ws(cf_seg(c)[0]));
            lemma_skip_ws_exact(s, j2, j2 + 1, le);
            assert(p3 == j2 + 1);
            let e3 = p3 + cf_seg(c).len();
            assert(matches_at(s, p3, cf_seg(c))) by {
                assert forall|t: int| 0 <= t < cf_seg(c).len() implies s.subrange(p3, e3)[t]
                    == cf_seg(c)[t] by {
                    assert(s[j2 + (1 + t)] == tseg[1 + t]);
                    assert(tseg[1 + t] == cfp[1 + t]);
                    assert(s.subrange(p3, e3)[t] == s[p3 + t]);
                }
                assert(s.subrange(p3, e3) =~= cf_seg(c));
            }
            match p.backsight_correction_factors {
                Some(b) => {
                    assert(s[j2 + (e3 - j2)] == tseg[e3 - j2] && tseg[e3 - j2] == bcfp[0]
                        && bcfp[0] == 32u8);
                    assert(!is_digit(32u8));
                    lemma_cf_at(s, p3, le, c);
                    let p4 = e3 + 1;
                    assert(s[j2 + (p4 - j2)] == tseg[p4 - j2] && tseg[p4 - j2] == bcfp[1]
                        && bcfp[1] == bcf_seg(b)[0]);
                    assert(!is_ws(bcf_seg(b)[0]));
                    lemma_skip_ws_exact(s, e3, p4, le);
                    let e4 = p4 + bcf_seg(b).len();
                    assert(e4 == le);
                    assert(matches_at(s, p4, bcf_seg(b))) by {
                        assert forall|t: int| 0 <= t < bcf_seg(b).len() implies s.subrange(
                            p4,
                            e4,
                        )[t] == bcf_seg(b)[t] by {
                            assert(s[j2 + (p4 - j2 + t)] == tseg[p4 - j2 + t]);
                            assert(tseg[p4 - j2 + t] == bcfp[1 + t]);
                            assert(s.subrange(p4, e4)[t] == s[p4 + t]);
                        }
                        assert(s.subrange(p4, e4) =~= bcf_seg(b));
                    }
                    lemma_bcf_at(s, p4, le, b);
                },
                None => {
                    assert(e3 == le);
                    lemma_cf_at(s, p3, le, c);
                    lemma_skip_ws_exact(s, e3, le, le);
                },
            }
        },
        None => {
            match p.backsight_correction_factors {
                Some(b) => {
                    assert(tseg[0] == bcfp[0] && bcfp[0] == 32u8);
                    assert(tseg[1] == bcfp[1] && bcfp[1] == bcf_seg(b)[0]);
                    assert(s[j2 + 0] == tseg[0]);
                    assert(s[j2 + 1] == tseg[1]);
                    assert(!is_ws(bcf_seg(b)[0]));
                    lemma_skip_ws_exact(s, j2, j2 + 1, le);
                    assert(p3 == j2 + 1);
                    let e4 = p3 + bcf_seg(b).len();
                    assert(e4 == le);
                    assert(matches_at(s, p3, bcf_seg(b))) by {
                        assert forall|t: int| 0 <= t < bcf_seg(b).len() implies s.subrange(
                            p3,
                            e4,
                        )[t] == bcf_seg(b)[t] by {
                            assert(s[j2 + (1 + t)] == tseg[1 + t]);
                            assert(tseg[1 + t] == bcfp[1 + t]);
                            assert(s.subrange(p3, e4)[t] == s[p3 + t]);
                        }
                        assert(s.subrange(p3, e4) =~= bcf_seg(b));
                    }
                    assert(lit_bytes("CORRECTIONS2: "@)[11] == 50u8);
                    assert(lit_bytes("CORRECTIONS:"@)[11] == 58u8);
                    assert(bcf_seg(b) =~= lit_bytes("CORRECTIONS2: "@) + (fmt2d(b.azimuth)
                        + seq![32u8] + fmt2d(b.inclination)));
                    lemma_split_match(
                        s,
                        p3,
                        lit_bytes("CORRECTIONS2: "@),
                        fmt2d(b.azimuth) + seq![32u8] + fmt2d(b.inclination),
                    );
                    lemma_mismatch_at(
                        s,
                        p3,
                        lit_bytes("CORRECTIONS2: "@),
                        lit_bytes("CORRECTIONS:"@),
                        11,
                    );
                    lemma_bcf_at(s, p3, le, b);
                },
                None => {
                    assert(j2 == le);
                    lemma_skip_ws_exact(s, j2, le, le);
                    assert(p3 == le);
                },
            }
        },
    }
}

/// The parameters line reads back exactly: the declination, and each
/// correction clause present if and only if it was written — either,
/// both, or neither, independently.
#[verifier::rlimit(100)]
#[verifier::spinoff_prover]
pub proof fn lemma_params_line_rt(s: Seq<u8>, i: int, p: Parameters)
    requires
        0 <= i,
        matches_at(s, i, spec_serialize_params(p)),
        canonical_params(p),
    ensures
        spec_parse_params_line(s, i) == Some((p, i + spec_serialize_params(p).len())),
{
    reveal_strlit("DECLINATION: ");
    reveal_strlit("DECLINATION:");
    reveal_strlit(" FORMAT: DMMDLRUD");
    reveal_strlit("FORMAT:");
    reveal_strlit(" CORRECTIONS: ");
    reveal_strlit("CORRECTIONS: ");
    reveal_strlit("CORRECTIONS:");
    reveal_strlit(" CORRECTIONS2: ");
    reveal_strlit("CORRECTIONS2: ");
    reveal_strlit("CORRECTIONS2:");
    let l13d = lit_bytes("DECLINATION: "@);
    let l17 = lit_bytes(" FORMAT: DMMDLRUD"@);
    let fd = fmt2d(p.declination);
    let cfp: Seq<u8> = match p.correction_factors {
        Some(c) => seq![32u8] + cf_seg(c),
        None => Seq::empty(),
    };
    let bcfp: Seq<u8> = match p.backsight_correction_factors {
        Some(b) => seq![32u8] + bcf_seg(b),
        None => Seq::empty(),
    };
    let body = l13d + fd + l17 + cfp + bcfp;
    assert(spec_serialize_params(p) =~= body + crlf());
    lemma_fmt2_form(p.declination.units as int);
    match p.correction_factors {
        Some(c) => {
            lemma_fmt2_form(c.azimuth.units as int);
            lemma_fmt2_form(c.inclination.units as int);
            lemma_fmt2_form(c.length.units as int);
        },
        None => {},
    }
    match p.backsight_correction_factors {
        Some(b) => {
            lemma_fmt2_form(b.azimuth.units as int);
            lemma_fmt2_form(b.inclination.units as int);
        },
        None => {},
    }
    let ld = fd.len() as int;
    let lcf = cfp.len() as int;
    assert forall|t: int| 0 <= t < body.len() implies !is_line_break(#[trigger] body[t]) by {
        if t < 13 {
            assert(body[t] == l13d[t]);
        } else if t < 13 + ld {
            assert(body[t] == fd[t - 13]);
        } else if t < 13 + ld + 17 {
            assert(body[t] == l17[t - 13 - ld]);
        } else if t < 13 + ld + 17 + lcf {
            let u = t - 13 - ld - 17;
            assert(body[t] == cfp[u]);
            match p.correction_factors {
                Some(c) => {
                    if u == 0 {
                    } else {
                        let w = u - 1;
                        let sg = cf_seg(c);
                        assert(cfp[u] == sg[w]);
                        if w < 13 {
                            assert(sg[w] == lit_bytes("CORRECTIONS: "@)[w]);
                        } else if w < 13 + fmt2d(c.azimuth).len() {
                            assert(sg[w] == fmt2d(c.azimuth)[w - 13]);
                        } else if w == 13 + fmt2d(c.azimuth).len() {
                            assert(sg[w] == 32u8);
                        } else if w < 14 + fmt2d(c.azimuth).len() + fmt2d(
                            c.inclination,
                        ).len() {
                            assert(sg[w] == fmt2d(c.inclination)[w - 14 - fmt2d(
                                c.azimuth,
                            ).len()]);
                        } else if w == 14 + fmt2d(c.azimuth).len() + fmt2d(
                            c.inclination,
                        ).len() {
                            assert(sg[w] == 32u8);
                        } else {
                            assert(sg[w] == fmt2d(c.length)[w - 15 - fmt2d(c.azimuth).len()
                                - fmt2d(c.inclination).len()]);
                        }
                    }
                },
                None => {},
            }
        } else {
            let u = t - 13 - ld - 17 - lcf;
            assert(body[t] == bcfp[u]);
            match p.backsight_correction_factors {
                Some(b) => {
                    if u == 0 {
                    } else {
                        let w = u - 1;
                        let sg = bcf_seg(b);
                        assert(bcfp[u] == sg[w]);
                        if w < 14 {
                            assert(sg[w] == lit_bytes("CORRECTIONS2: "@)[w]);
                        } else if w < 14 + fmt2d(b.azimuth).len() {
                            assert(sg[w] == fmt2d(b.azimuth)[w - 14]);
                        } else if w == 14 + fmt2d(b.azimuth).len() {
                            assert(sg[w] == 32u8);
                        } else {
                            assert(sg[w] == fmt2d(b.inclination)[w - 15 - fmt2d(
                                b.azimuth,
                            ).len()]);
                        }
                    }
                },
                None => {},
            }
        }
    }
    lemma_line_shape(s, i, body);
    let le = i + body.len();
    // DECLINATION keyword and value
    let dtag = lit_bytes("DECLINATION:"@);
    assert(matches_at(s, i, dtag)) by {
        assert forall|t: int| 0 <= t < 12 implies s.subrange(i, i + 12)[t] == dtag[t] by {
            assert(s[i + t] == body[t]);
            assert(body[t] == l13d[t]);
            assert(s.subrange(i, i + 12)[t] == s[i + t]);
        }
        assert(s.subrange(i, i + 12) =~= dtag);
    }
    let od = i + 13;
    assert(s[i + 12] == body[12] && body[12] == l13d[12] && l13d[12] == 32u8);
    assert(s[i + 13] == body[13] && body[13] == fd[0]);
    assert(!is_ws(fd[0]));
    lemma_skip_ws_exact(s, i + 12, od, le);
    let of = od + ld;
    assert(matches_at(s, od, fd)) by {
        assert forall|t: int| 0 <= t < ld implies s.subrange(od, of)[t] == fd[t] by {
            assert(s[i + (13 + t)] == body[13 + t]);
            assert(s.subrange(od, of)[t] == s[od + t]);
        }
        assert(s.subrange(od, of) =~= fd);
    }
    assert(s[i + (of - i)] == body[of - i] && body[of - i] == l17[0] && l17[0] == 32u8);
    lemma_decimal_ws_at(s, i + 12, od, le, p.declination.units as int);
    let p1 = of + 1;
    assert(s[i + (p1 - i)] == body[p1 - i] && body[p1 - i] == l17[1]);
    assert(!is_ws(l17[1]));
    lemma_skip_ws_exact(s, of, p1, le);
    // FORMAT keyword and token
    let ftag = lit_bytes("FORMAT:"@);
    assert(matches_at(s, p1, ftag)) by {
        assert forall|t: int| 0 <= t < 7 implies s.subrange(p1, p1 + 7)[t] == ftag[t] by {
            assert(s[i + (p1 - i + t)] == body[p1 - i + t]);
            assert(body[p1 - i + t] == l17[1 + t]);
            assert(s.subrange(p1, p1 + 7)[t] == s[p1 + t]);
        }
        assert(s.subrange(p1, p1 + 7) =~= ftag);
    }
    let a2 = of + 9;
    assert(s[i + (of + 8 - i)] == body[of + 8 - i] && body[of + 8 - i] == l17[8] && l17[8]
        == 32u8);
    assert(s[i + (a2 - i)] == body[a2 - i] && body[a2 - i] == l17[9]);
    assert(!is_ws(l17[9]));
    lemma_skip_ws_exact(s, of + 8, a2, le);
    let j2 = of + 17;
    assert forall|t: int| a2 <= t < j2 implies crate::parser_utils::is_alpha(s[t]) by {
        assert(s[i + (t - i)] == body[t - i]);
        assert(body[t - i] == l17[t - of]);
        assert(crate::parser_utils::is_alpha(l17[t - of]));
    }
    if 13 + ld + 17 < body.len() {
        assert(s[i + (j2 - i)] == body[j2 - i]);
    }
    crate::parser_utils::lemma_alpha_run_exact(s, a2, j2, le);
    // the correction clauses, in every combination
    assert(matches_at(s, j2, cfp + bcfp)) by {
        assert forall|t: int| 0 <= t < (cfp + bcfp).len() implies s.subrange(
            j2,
            j2 + (cfp + bcfp).len(),
        )[t] == (cfp + bcfp)[t] by {
            assert(s[i + (j2 - i + t)] == body[j2 - i + t]);
            assert(body[j2 - i + t] == (cfp + bcfp)[t]);
            assert(s.subrange(j2, j2 + (cfp + bcfp).len())[t] == s[j2 + t]);
        }
        assert(s.subrange(j2, j2 + (cfp + bcfp).len()) =~= cfp + bcfp);
    }
    lemma_params_tail_rt(s, j2, le, p);
    assert(p == (Parameters {
        declination: Decimal { units: p.declination.units },
        correction_factors: p.correction_factors,
        backsight_correction_factors: p.backsight_correction_factors,
    }));
}

/// A measurement small enough for its two-decimal-place rendering to
/// leave at least one space of padding in a nine-byte column.
pub open spec fn field_value(d: Decimal) -> bool {
    d.units % 100 == 0 && -100_000_000 < d.units < 1_000_000_000
}

proof fn lemma_fmt2_len8(units: int)
    requires
        -100_000_000 < units < 1_000_000_000,
        units % 100 == 0,
    ensures
        4 <= spec_fmt2(units).len() <= 8,
{
    let h = crate::fmt::spec_round2(units);
    let a = if h >= 0 {
        h
    } else {
        -h
    };
    lemma_dec_digits_form((a / 100) as nat);
    lemma_pow10_vals();
    assert(100 * (units / 100) == units);
    assert(h == units / 100);
    if h >= 0 {
        assert(a / 100 < 100_000);
        crate::fmt::lemma_dec_digits_len((a / 100) as nat, 5);
    } else {
        assert(units >= -99_999_900);
        assert(a <= 999_999);
        assert(a / 100 < 10_000);
        crate::fmt::lemma_dec_digits_len((a / 100) as nat, 4);
    }
}

/// Concrete powers of ten the column proofs need.
pub open spec fn pow10_vals() -> bool {
    crate::parser_utils::pow10(4) == 10_000 && crate::parser_utils::pow10(5) == 100_000
        && crate::parser_utils::pow10(9) == 1_000_000_000
}

pub proof fn lemma_pow10_vals()
    ensures
        pow10_vals(),
{
    reveal_with_fuel(crate::parser_utils::pow10, 10);
}

/// One nine-byte measurement column reads back exactly, whether the
/// parse enters at the column start or at the number itself.
#[verifier::rlimit(100)]
#[verifier::spinoff_prover]
proof fn lemma_field9_at(s: Seq<u8>, oc: int, le: int, d: Decimal)
    requires
        0 <= oc,
        field_value(d),
        oc + 9 <= le <= s.len(),
        matches_at(s, oc, crate::fmt::spec_pad_left(fmt2d(d), 9)),
        oc + 9 == le || !is_digit(s[oc + 9]),
    ensures
        spec_skip_ws(s, oc, le) == oc + 9 - fmt2d(d).len(),
        crate::parser_utils::spec_parse_decimal_ws(s, oc, le) == Some(
            (d.units as int, spec_skip_ws(s, oc + 9, le)),
        ),
        crate::parser_utils::spec_parse_decimal_ws(s, oc + 9 - fmt2d(d).len(), le) == Some(
            (d.units as int, spec_skip_ws(s, oc + 9, le)),
        ),
{
    lemma_pow10_vals();
    lemma_fmt2_len8(d.units as int);
    let f = fmt2d(d);
    let pad = 9 - f.len();
    let om = oc + pad;
    let chunk = crate::fmt::spec_pad_left(f, 9);
    crate::fmt::lemma_spaces_ws(pad);
    lemma_match_bytes(s, oc, chunk);
    lemma_fmt2_form(d.units as int);
    assert forall|t: int| oc <= t < om implies is_ws(s[t]) by {
        assert(s[oc + (t - oc)] == chunk[t - oc]);
        assert(chunk[t - oc] == crate::fmt::spaces(pad)[t - oc]);
    }
    assert(s[oc + pad] == chunk[pad] && chunk[pad] == f[0]);
    assert(!is_ws(f[0]));
    lemma_skip_ws_exact(s, oc, om, le);
    lemma_skip_ws_exact(s, om, om, le);
    assert(matches_at(s, om, f)) by {
        assert forall|t: int| 0 <= t < f.len() implies s.subrange(om, oc + 9)[t] == f[t] by {
            assert(s[oc + (pad + t)] == chunk[pad + t]);
            assert(chunk[pad + t] == f[t]);
            assert(s.subrange(om, oc + 9)[t] == s[om + t]);
        }
        assert(s.subrange(om, oc + 9) =~= f);
    }
    lemma_decimal_ws_at(s, oc, om, le, d.units as int);
    lemma_decimal_ws_at(s, om, om, le, d.units as int);
}

/// One shot line reads back exactly, from any start within its leading
/// padding.
#[verifier::rlimit(100)]
#[verifier::spinoff_prover]
proof fn lemma_shot_rt(s: Seq<u8>, i: int, p: int, sh: ShotV)
    requires
        0 <= i <= p,
        matches_at(s, i, spec_serialize_shot(sh)),
        canonical_shot_text(sh),
        p <= i + 13 - sh.from.len(),
    ensures
        spec_parse_shot(s, p) == Some((sh, i + spec_serialize_shot(sh).len())),
{
    reveal(spec_serialize_shot);
    reveal(spec_parse_shot);
    lemma_pow10_vals();
    let c1 = crate::fmt::spec_pad_left(sh.from, 13);
    let c2 = crate::fmt::spec_pad_left(sh.to, 13);
    let g1 = crate::fmt::spec_pad_left(fmt2d(sh.length), 9);
    let g2 = crate::fmt::spec_pad_left(fmt2d(sh.azimuth), 9);
    let g3 = crate::fmt::spec_pad_left(fmt2d(sh.inclination), 9);
    let g4 = crate::fmt::spec_pad_left(fmt2d(sh.left), 9);
    let g5 = crate::fmt::spec_pad_left(fmt2d(sh.up), 9);
    let g6 = crate::fmt::spec_pad_left(fmt2d(sh.down), 9);
    let g7 = crate::fmt::spec_pad_left(fmt2d(sh.right), 9);
    lemma_fmt2_len8(sh.length.units as int);
    lemma_fmt2_len8(sh.azimuth.units as int);
    lemma_fmt2_len8(sh.inclination.units as int);
    lemma_fmt2_len8(sh.left.units as int);
    lemma_fmt2_len8(sh.up.units as int);
    lemma_fmt2_len8(sh.down.units as int);
    lemma_fmt2_len8(sh.right.units as int);
    crate::fmt::lemma_spaces_ws(13 - sh.from.len());
    crate::fmt::lemma_spaces_ws(13 - sh.to.len());
    crate::fmt::lemma_spaces_ws(9 - fmt2d(sh.length).len());
    crate::fmt::lemma_spaces_ws(9 - fmt2d(sh.azimuth).len());
    crate::fmt::lemma_spaces_ws(9 - fmt2d(sh.inclination).len());
    crate::fmt::lemma_spaces_ws(9 - fmt2d(sh.left).len());
    crate::fmt::lemma_spaces_ws(9 - fmt2d(sh.up).len());
    crate::fmt::lemma_spaces_ws(9 - fmt2d(sh.down).len());
    crate::fmt::lemma_spaces_ws(9 - fmt2d(sh.right).len());
    assert(spec_serialize_shot(sh) =~= c1 + (c2 + (g1 + (g2 + (g3 + (g4 + (g5 + (g6 + (g7
        + crlf())))))))));
    lemma_split_match(s, i, c1, c2 + (g1 + (g2 + (g3 + (g4 + (g5 + (g6 + (g7 + crlf()))))))));
    lemma_split_match(s, i + 13, c2, g1 + (g2 + (g3 + (g4 + (g5 + (g6 + (g7 + crlf())))))));
    lemma_split_match(s, i + 26, g1, g2 + (g3 + (g4 + (g5 + (g6 + (g7 + crlf()))))));
    lemma_split_match(s, i + 35, g2, g3 + (g4 + (g5 + (g6 + (g7 + crlf())))));
    lemma_split_match(s, i + 44, g3, g4 + (g5 + (g6 + (g7 + crlf()))));
    lemma_split_match(s, i + 53, g4, g5 + (g6 + (g7 + crlf())));
    lemma_split_match(s, i + 62, g5, g6 + (g7 + crlf()));
    lemma_split_match(s, i + 71, g6, g7 + crlf());
    lemma_split_match(s, i + 80, g7, crlf());
    lemma_match_bytes(s, i, c1);
    lemma_match_bytes(s, i + 13, c2);
    lemma_match_bytes(s, i + 26, g1);
    lemma_match_bytes(s, i + 35, g2);
    lemma_match_bytes(s, i + 44, g3);
    lemma_match_bytes(s, i + 53, g4);
    lemma_match_bytes(s, i + 62, g5);
    lemma_match_bytes(s, i + 71, g6);
    lemma_match_bytes(s, i + 80, g7);
    lemma_match_bytes(s, i + 89, crlf());
    let le = i + 89;
    assert(crlf()[0] == 13u8 && crlf()[1] == 10u8);
    assert(s[i + 89 + 0] == crlf()[0]);
    assert(s[i + 89 + 1] == crlf()[1]);
    // nothing before the terminator is a line break
    assert forall|t: int| p <= t < le implies !is_line_break(s[t]) by {
        if t < i + 13 {
            assert(s[i + (t - i)] == c1[t - i]);
            lemma_pad_byte(sh.from, 13, t - i);
        } else if t < i + 26 {
            assert(s[i + 13 + (t - i - 13)] == c2[t - i - 13]);
            lemma_pad_byte(sh.to, 13, t - i - 13);
        } else if t < i + 35 {
            assert(s[i + 26 + (t - i - 26)] == g1[t - i - 26]);
            lemma_pad_byte9(sh.length, t - i - 26);
        } else if t < i + 44 {
            assert(s[i + 35 + (t - i - 35)] == g2[t - i - 35]);
            lemma_pad_byte9(sh.azimuth, t - i - 35);
        } else if t < i + 53 {
            assert(s[i + 44 + (t - i - 44)] == g3[t - i - 44]);
            lemma_pad_byte9(sh.inclination, t - i - 44);
        } else if t < i + 62 {
            assert(s[i + 53 + (t - i - 53)] == g4[t - i - 53]);
            lemma_pad_byte9(sh.left, t - i - 53);
        } else if t < i + 71 {
            assert(s[i + 62 + (t - i - 62)] == g5[t - i - 62]);
            lemma_pad_byte9(sh.up, t - i - 62);
        } else if t < i + 80 {
            assert(s[i + 71 + (t - i - 71)] == g6[t - i - 71]);
            lemma_pad_byte9(sh.down, t - i - 71);
        } else {
            assert(s[i + 80 + (t - i - 80)] == g7[t - i - 80]);
            lemma_pad_byte9(sh.right, t - i - 80);
        }
    }
    lemma_line_end_exact(s, p, le);
    assert(spec_take_line(s, p) == Some((le, le + 2)));
    // the from station
    let pf = 13 - sh.from.len();
    let ofr = i + pf;
    let efr = i + 13;
    assert forall|t: int| p <= t < ofr implies is_ws(s[t]) by {
        assert(s[i + (t - i)] == c1[t - i]);
        assert(c1[t - i] == crate::fmt::spaces(pf)[t - i]);
    }
    assert(s[i + pf] == c1[pf] && c1[pf] == sh.from[0]);
    assert(!is_ws(sh.from[0]) && is_name_byte(sh.from[0]));
    lemma_skip_ws_exact(s, p, ofr, le);
    assert forall|t: int| ofr <= t < efr implies is_name_byte(s[t]) by {
        assert(s[i + (t - i)] == c1[t - i]);
        assert(c1[t - i] == sh.from[t - ofr]);
    }
    let pt = 13 - sh.to.len();
    assert(pt >= 1);
    assert(s[i + 13 + 0] == c2[0] && c2[0] == crate::fmt::spaces(pt)[0] && c2[0] == 32u8);
    assert(!is_name_byte(32u8));
    lemma_name_run_exact(s, ofr, efr, le);
    assert(s.subrange(ofr, efr) =~= sh.from) by {
        assert forall|t: int| 0 <= t < sh.from.len() implies s.subrange(ofr, efr)[t]
            == sh.from[t] by {
            assert(s[i + (pf + t)] == c1[pf + t]);
            assert(s.subrange(ofr, efr)[t] == s[ofr + t]);
        }
    }
    // the to station
    let oto = i + 13 + pt;
    let eto = i + 26;
    assert forall|t: int| efr <= t < oto implies is_ws(s[t]) by {
        assert(s[i + 13 + (t - i - 13)] == c2[t - i - 13]);
        assert(c2[t - i - 13] == crate::fmt::spaces(pt)[t - i - 13]);
    }
    assert(s[i + 13 + pt] == c2[pt] && c2[pt] == sh.to[0]);
    assert(!is_ws(sh.to[0]) && is_name_byte(sh.to[0]));
    lemma_skip_ws_exact(s, efr, oto, le);
    assert forall|t: int| oto <= t < eto implies is_name_byte(s[t]) by {
        assert(s[i + 13 + (t - i - 13)] == c2[t - i - 13]);
        assert(c2[t - i - 13] == sh.to[t - oto]);
    }
    assert(s[i + 26 + 0] == g1[0] && g1[0] == crate::fmt::spaces(9 - fmt2d(sh.length).len())[0]
        && g1[0] == 32u8);
    lemma_name_run_exact(s, oto, eto, le);
    assert(s.subrange(oto, eto) =~= sh.to) by {
        assert forall|t: int| 0 <= t < sh.to.len() implies s.subrange(oto, eto)[t]
            == sh.to[t] by {
            assert(s[i + 13 + (pt + t)] == c2[pt + t]);
            assert(s.subrange(oto, eto)[t] == s[oto + t]);
        }
    }
    // the seven measurement columns
    assert(s[i + 35 + 0] == g2[0] && g2[0] == crate::fmt::spaces(9 - fmt2d(sh.azimuth).len())[0]);
    assert(s[i + 44 + 0] == g3[0] && g3[0] == crate::fmt::spaces(
        9 - fmt2d(sh.inclination).len(),
    )[0]);
    assert(s[i + 53 + 0] == g4[0] && g4[0] == crate::fmt::spaces(9 - fmt2d(sh.left).len())[0]);
    assert(s[i + 62 + 0] == g5[0] && g5[0] == crate::fmt::spaces(9 - fmt2d(sh.up).len())[0]);
    assert(s[i + 71 + 0] == g6[0] && g6[0] == crate::fmt::spaces(9 - fmt2d(sh.down).len())[0]);
    assert(s[i + 80 + 0] == g7[0] && g7[0] == crate::fmt::spaces(9 - fmt2d(sh.right).len())[0]);
    assert(!is_digit(32u8) && !is_digit(13u8));
    lemma_field9_at(s, i + 26, le, sh.length);
    lemma_field9_at(s, i + 35, le, sh.azimuth);
    lemma_field9_at(s, i + 44, le, sh.inclination);
    lemma_field9_at(s, i + 53, le, sh.left);
    lemma_field9_at(s, i + 62, le, sh.up);
    lemma_field9_at(s, i + 71, le, sh.down);
    lemma_field9_at(s, i + 80, le, sh.right);
    lemma_skip_ws_exact(s, le, le, le);
    assert(sh == (ShotV {
        from: sh.from,
        to: sh.to,
        length: Decimal { units: sh.length.units },
        azimuth: Decimal { units: sh.azimuth.units },
        inclination: Decimal { units: sh.inclination.units },
        up: Decimal { units: sh.up.units },
        down: Decimal { units: sh.down.units },
        left: Decimal { units: sh.left.units },
        right: Decimal { units: sh.right.units },
        flags: None,
        comment: None,
    }));
}

/// A shot in the canonical text range: short station names and
/// measurements that fit their nine-byte columns.
pub open spec fn canonical_shot_text(sh: ShotV) -> bool {
    is_token(sh.from) && sh.from.len() <= 12 && is_token(sh.to) && sh.to.len() <= 12
        && field_value(sh.length) && field_value(sh.azimuth) && field_value(sh.inclination)
        && field_value(sh.left) && field_value(sh.up) && field_value(sh.down) && field_value(
        sh.right,
    ) && sh.flags is None && sh.comment is None
}

/// A canonical shot line is exactly ninety-one bytes long.
proof fn lemma_shot_len(sh: ShotV)
    requires
        canonical_shot_text(sh),
    ensures
        spec_serialize_shot(sh).len() == 91,
{
    reveal(spec_serialize_shot);
    lemma_pow10_vals();
    lemma_fmt2_len8(sh.length.units as int);
    lemma_fmt2_len8(sh.azimuth.units as int);
    lemma_fmt2_len8(sh.inclination.units as int);
    lemma_fmt2_len8(sh.left.units as int);
    lemma_fmt2_len8(sh.up.units as int);
    lemma_fmt2_len8(sh.down.units as int);
    lemma_fmt2_len8(sh.right.units as int);
    crate::fmt::lemma_spaces_ws(13 - sh.from.len());
    crate::fmt::lemma_spaces_ws(13 - sh.to.len());
    crate::fmt::lemma_spaces_ws(9 - fmt2d(sh.length).len());
    crate::fmt::lemma_spaces_ws(9 - fmt2d(sh.azimuth).len());
    crate::fmt::lemma_spaces_ws(9 - fmt2d(sh.inclination).len());
    crate::fmt::lemma_spaces_ws(9 - fmt2d(sh.left).len());
    crate::fmt::lemma_spaces_ws(9 - fmt2d(sh.up).len());
    crate::fmt::lemma_spaces_ws(9 - fmt2d(sh.down).len());
    crate::fmt::lemma_spaces_ws(9 - fmt2d(sh.right).len());
}

/// No shot line can start at the block terminator.
#[verifier::rlimit(100)]
#[verifier::spinoff_prover]
proof fn lemma_shot_stop_at_fin(s: Seq<u8>, i: int)
    requires
        0 <= i,
        matches_at(s, i, seg_fin()),
    ensures
        spec_parse_shot(s, i) is None,
{
    reveal(spec_parse_shot);
    lemma_match_bytes(s, i, seg_fin());
    assert(s[i + 0] == 12u8 && s[i + 1] == 13u8 && s[i + 2] == 10u8);
    assert(!is_line_break(12u8));
    lemma_line_end_exact(s, i, i + 1);
    assert(spec_take_line(s, i) == Some((i + 1, i + 3)));
    assert(is_ws(12u8));
    lemma_skip_ws_exact(s, i, i + 1, i + 1);
    assert(crate::parser_utils::spec_name_run_end(s, i + 1, i + 1) == i + 1);
}

/// A run of serialized shot lines followed by the block terminator
/// reads back exactly, and shot parsing stops at the terminator.
#[verifier::rlimit(100)]
#[verifier::spinoff_prover]
proof fn lemma_shots_list_rt(s: Seq<u8>, i: int, shots: Seq<ShotV>)
    requires
        0 <= i,
        matches_at(s, i, spec_serialize_shots(shots) + seg_fin()),
        forall|k: int| 0 <= k < shots.len() ==> canonical_shot_text(#[trigger] shots[k]),
    ensures
        spec_parse_shots(s, i) == (shots, i + spec_serialize_shots(shots).len()),
    decreases shots.len(),
{
    if shots.len() == 0 {
        assert(spec_serialize_shots(shots) + seg_fin() =~= seg_fin());
        lemma_shot_stop_at_fin(s, i);
        assert(spec_parse_shots(s, i) == (Seq::<ShotV>::empty(), i));
        assert(shots =~= Seq::<ShotV>::empty());
    } else {
        let sh0 = shots[0];
        let rest = shots.skip(1);
        let l0 = spec_serialize_shot(sh0);
        assert(spec_serialize_shots(shots) + seg_fin() =~= l0 + (spec_serialize_shots(rest)
            + seg_fin()));
        lemma_split_match(s, i, l0, spec_serialize_shots(rest) + seg_fin());
        lemma_shot_len(sh0);
        lemma_shot_rt(s, i, i, sh0);
        assert forall|k: int| 0 <= k < rest.len() implies canonical_shot_text(
            #[trigger] rest[k],
        ) by {
            assert(rest[k] == shots[k + 1]);
        }
        lemma_shots_list_rt(s, i + 91, rest);
        assert(spec_parse_shots(s, i) == (seq![sh0] + rest, i + 91 + spec_serialize_shots(
            rest,
        ).len()));
        assert(seq![sh0] + rest =~= shots);
        assert(spec_serialize_shots(shots).len() == 91 + spec_serialize_shots(rest).len());
    }
}

/// A byte of a padded name field is a space or a name byte.
proof fn lemma_pad_byte(name: Seq<u8>, w: int, u: int)
    requires
        is_token(name),
        name.len() <= w,
        0 <= u < w,
    ensures
        !is_line_break(crate::fmt::spec_pad_left(name, w)[u]),
        is_ws(crate::fmt::spec_pad_left(name, w)[u]) || is_name_byte(
            crate::fmt::spec_pad_left(name, w)[u],
        ),
{
    crate::fmt::lemma_spaces_ws(w - name.len());
    let ch = crate::fmt::spec_pad_left(name, w);
    if u < w - name.len() {
        assert(ch[u] == crate::fmt::spaces(w - name.len())[u]);
    } else {
        assert(ch[u] == name[u - (w - name.len())]);
    }
}

/// A byte of a padded measurement column is a space, digit, minus sign
/// or point.
proof fn lemma_pad_byte9(d: Decimal, u: int)
    requires
        field_value(d),
        0 <= u < 9,
    ensures
        !is_line_break(crate::fmt::spec_pad_left(fmt2d(d), 9)[u]),
        is_ws(crate::fmt::spec_pad_left(fmt2d(d), 9)[u]) || is_digit(
            crate::fmt::spec_pad_left(fmt2d(d), 9)[u],
        ) || crate::fmt::spec_pad_left(fmt2d(d), 9)[u] == 45u8 || crate::fmt::spec_pad_left(
            fmt2d(d),
            9,
        )[u] == 46u8,
{
    lemma_fmt2_len8(d.units as int);
    lemma_fmt2_form(d.units as int);
    crate::fmt::lemma_spaces_ws(9 - fmt2d(d).len());
    let ch = crate::fmt::spec_pad_left(fmt2d(d), 9);
    if u < 9 - fmt2d(d).len() {
        assert(ch[u] == crate::fmt::spaces(9 - fmt2d(d).len())[u]);
    } else {
        assert(ch[u] == fmt2d(d)[u - (9 - fmt2d(d).len())]);
    }
}

/// The leading padding of a serialized shot line is whitespace, and the
/// first station byte is not.
proof fn lemma_shot_head_ws(s: Seq<u8>, i: int, sh: ShotV)
    requires
        0 <= i,
        matches_at(s, i, spec_serialize_shot(sh)),
        canonical_shot_text(sh),
    ensures
        forall|t: int| 0 <= t < 13 - sh.from.len() ==> is_ws(#[trigger] s[i + t]),
        !is_ws(s[i + 13 - sh.from.len()]),
{
    reveal(spec_serialize_shot);
    let c1 = crate::fmt::spec_pad_left(sh.from, 13);
    let pf = 13 - sh.from.len();
    crate::fmt::lemma_spaces_ws(pf);
    lemma_match_bytes(s, i, spec_serialize_shot(sh));
    assert forall|t: int| 0 <= t < pf implies is_ws(#[trigger] s[i + t]) by {
        assert(s[i + t] == spec_serialize_shot(sh)[t]);
        assert(spec_serialize_shot(sh)[t] == c1[t]);
        assert(c1[t] == crate::fmt::spaces(pf)[t]);
    }
    assert(s[i + pf] == spec_serialize_shot(sh)[pf]);
    assert(spec_serialize_shot(sh)[pf] == c1[pf]);
    assert(c1[pf] == sh.from[0]);
}

/// No shot line can start at the end of the input.
proof fn lemma_shot_none_at_end(s: Seq<u8>, i: int)
    requires
        i == s.len(),
    ensures
        spec_parse_shot(s, i) is None,
{
    reveal(spec_parse_shot);
}

/// The label line, shot lines and block terminator read back exactly:
/// the labels are skipped, every shot is recovered, and the trailing
/// whitespace runs to the end of the input.
#[verifier::rlimit(100)]
#[verifier::spinoff_prover]
proof fn lemma_tail_rt(s: Seq<u8>, o5: int, sv: SurveyV)
    requires
        0 <= o5,
        matches_at(s, o5, seg_labels() + (spec_serialize_shots(sv.shots) + seg_fin())),
        o5 + (seg_labels() + (spec_serialize_shots(sv.shots) + seg_fin())).len() == s.len(),
        canonical_survey(sv),
    ensures
        spec_skip_labels(s, o5) is Some,
        ({
            let n6 = spec_skip_labels(s, o5).unwrap();
            let (shots, n7) = spec_parse_shots(s, n6);
            shots == sv.shots && spec_skip_ws(s, n7, s.len() as int) == s.len()
        }),
{
    reveal_strlit(
        "         FROM           TO   LENGTH  BEARING      INC     LEFT       UP     DOWN    RIGHT",
    );
    reveal_strlit("FROM");
    let rest6 = spec_serialize_shots(sv.shots) + seg_fin();
    let lab = spec_label_line();
    assert(seg_labels() + rest6 =~= lab + (crlf() + rest6));
    lemma_split_match(s, o5, lab, crlf() + rest6);
    lemma_split_match(s, o5 + 89, crlf(), rest6);
    lemma_match_bytes(s, o5, lab);
    lemma_match_bytes(s, o5 + 89, crlf());
    assert(crlf()[0] == 13u8 && crlf()[1] == 10u8);
    assert(lab.len() == 89);
    assert forall|k: int| o5 <= k < o5 + 9 implies is_ws(s[k]) by {
        assert(s[o5 + (k - o5)] == lab[k - o5]);
        assert(lab[k - o5] == 32u8);
    }
    assert(s[o5 + 9] == lab[9] && lab[9] == 70u8);
    lemma_skip_ws_exact(s, o5, o5 + 9, s.len() as int);
    assert(matches_at(s, o5 + 9, lit_bytes("FROM"@))) by {
        assert forall|t: int| 0 <= t < 4 implies s.subrange(o5 + 9, o5 + 13)[t] == lit_bytes(
            "FROM"@,
        )[t] by {
            assert(s[o5 + (9 + t)] == lab[9 + t]);
            assert(s.subrange(o5 + 9, o5 + 13)[t] == s[o5 + 9 + t]);
        }
        assert(s.subrange(o5 + 9, o5 + 13) =~= lit_bytes("FROM"@));
    }
    assert forall|t: int| o5 + 9 <= t < o5 + 89 implies !is_line_break(s[t]) by {
        assert(s[o5 + (t - o5)] == lab[t - o5]);
    }
    assert(s[o5 + 89 + 0] == 13u8);
    lemma_line_end_exact(s, o5 + 9, o5 + 89);
    let osh = o5 + 91;
    let n7 = osh + spec_serialize_shots(sv.shots).len();
    if sv.shots.len() > 0 {
        let sh0 = sv.shots[0];
        let restsh = sv.shots.skip(1);
        assert(rest6 =~= spec_serialize_shot(sh0) + (spec_serialize_shots(restsh) + seg_fin()));
        lemma_split_match(
            s,
            osh,
            spec_serialize_shot(sh0),
            spec_serialize_shots(restsh) + seg_fin(),
        );
        lemma_shot_len(sh0);
        lemma_shot_head_ws(s, osh, sh0);
        let pad0 = 13 - sh0.from.len();
        let n6 = osh + pad0;
        assert(s[o5 + 89 + 1] == 10u8);
        assert forall|t: int| o5 + 89 <= t < n6 implies is_ws(s[t]) by {
            if t == o5 + 89 {
                assert(s[t] == 13u8);
            } else if t == o5 + 90 {
                assert(s[t] == 10u8);
            } else {
                assert(is_ws(s[osh + (t - osh)]));
            }
        }
        assert(!is_ws(s[n6]));
        lemma_skip_ws_exact(s, o5 + 89, n6, s.len() as int);
        lemma_shot_rt(s, osh, n6, sh0);
        assert forall|k: int| 0 <= k < restsh.len() implies canonical_shot_text(
            #[trigger] restsh[k],
        ) by {
            assert(restsh[k] == sv.shots[k + 1]);
        }
        lemma_shots_list_rt(s, osh + 91, restsh);
        assert(spec_parse_shots(s, n6) == (
            seq![sh0] + restsh,
            osh + 91 + spec_serialize_shots(restsh).len(),
        ));
        assert(seq![sh0] + restsh =~= sv.shots);
        assert(spec_serialize_shots(sv.shots).len() == 91 + spec_serialize_shots(restsh).len());
        lemma_split_match(s, osh + 91, spec_serialize_shots(restsh), seg_fin());
        lemma_match_bytes(s, n7, seg_fin());
        assert(s.len() == n7 + 3);
        assert forall|t: int| n7 <= t < s.len() implies is_ws(s[t]) by {
            assert(s[n7 + (t - n7)] == seg_fin()[t - n7]);
        }
        lemma_skip_ws_exact(s, n7, s.len() as int, s.len() as int);
    } else {
        assert(spec_serialize_shots(sv.shots) =~= Seq::<u8>::empty());
        assert(rest6 =~= seg_fin());
        lemma_match_bytes(s, osh, seg_fin());
        assert(s.len() == osh + 3);
        assert(s[o5 + 89 + 1] == 10u8);
        assert forall|t: int| o5 + 89 <= t < s.len() implies is_ws(s[t]) by {
            if t == o5 + 89 {
                assert(s[t] == 13u8);
            } else if t == o5 + 90 {
                assert(s[t] == 10u8);
            } else {
                assert(s[osh + (t - osh)] == seg_fin()[t - osh]);
            }
        }
        lemma_skip_ws_exact(s, o5 + 89, s.len() as int, s.len() as int);
        lemma_shot_none_at_end(s, s.len() as int);
        assert(spec_parse_shots(s, s.len() as int) == (
            Seq::<ShotV>::empty(),
            s.len() as int,
        ));
        assert(Seq::<ShotV>::empty() =~= sv.shots);
        lemma_skip_ws_exact(s, s.len() as int, s.len() as int, s.len() as int);
    }
}

/// The round-trip law: parsing the serialized text of any survey in the
/// canonical text range gives back exactly that survey, consuming the
/// whole text — cave name, survey name, date, comment, team, parameters
/// with their optional correction blocks, and every shot field.
#[verifier::rlimit(100)]
#[verifier::spinoff_prover]
pub proof fn lemma_survey_round_trip(sv: SurveyV)
    requires
        canonical_survey(sv),
    ensures
        spec_parse_survey(spec_serialize_survey(sv), 0) == Some(
            (sv, spec_serialize_survey(sv).len() as int),
        ),
{
    let s = spec_serialize_survey(sv);
    lemma_ser_structure(sv);
    let rest1 = seg_name(sv) + (seg_date(sv) + (seg_team(sv) + (spec_serialize_params(
        sv.parameters,
    ) + (seg_labels() + (spec_serialize_shots(sv.shots) + seg_fin())))));
    assert(matches_at(s, 0, seg_cave(sv) + rest1)) by {
        assert(s.subrange(0, s.len() as int) =~= s);
    }
    lemma_split_match(s, 0, seg_cave(sv), rest1);
    let o1 = seg_cave(sv).len() as int;
    let rest2 = seg_date(sv) + (seg_team(sv) + (spec_serialize_params(sv.parameters) + (
    seg_labels() + (spec_serialize_shots(sv.shots) + seg_fin()))));
    lemma_split_match(s, o1, seg_name(sv), rest2);
    let o2 = o1 + seg_name(sv).len();
    let rest3 = seg_team(sv) + (spec_serialize_params(sv.parameters) + (seg_labels() + (
    spec_serialize_shots(sv.shots) + seg_fin())));
    lemma_split_match(s, o2, seg_date(sv), rest3);
    let o3 = o2 + seg_date(sv).len();
    let rest4 = spec_serialize_params(sv.parameters) + (seg_labels() + (spec_serialize_shots(
        sv.shots,
    ) + seg_fin()));
    lemma_split_match(s, o3, seg_team(sv), rest4);
    let o4 = o3 + seg_team(sv).len();
    let rest5 = seg_labels() + (spec_serialize_shots(sv.shots) + seg_fin());
    lemma_split_match(s, o4, spec_serialize_params(sv.parameters), rest5);
    let o5 = o4 + spec_serialize_params(sv.parameters).len();
    lemma_cave_line_rt(s, 0, sv);
    lemma_name_line_rt(s, o1, sv);
    lemma_date_line_rt(s, o2, sv);
    lemma_team_lines_rt(s, o3, sv);
    lemma_params_line_rt(s, o4, sv.parameters);
    lemma_tail_rt(s, o5, sv);
    let built = spec_parse_survey(s, 0).unwrap().0;
    assert(spec_parse_survey(s, 0) is Some);
    assert(built =~= sv);
    assert(spec_parse_survey(s, 0).unwrap().1 == s.len());
}

/// Optional-field independence: a parameters line with no correction
/// clause parses with both correction fields absent, and adding only a
/// `CORRECTIONS:` clause yields a value for the first field and none
/// for the second.
pub proof fn lemma_corrections_independent(decl: Decimal, c: CorrectionFactors)
    requires
        canonical_value(decl),
        canonical_value(c.azimuth),
        canonical_value(c.inclination),
        canonical_value(c.length),
    ensures
        ({
            let p0 = Parameters {
                declination: decl,
                correction_factors: None,
                backsight_correction_factors: None,
            };
            let t0 = spec_serialize_params(p0);
            spec_parse_params_line(t0, 0) == Some((p0, t0.len() as int))
        }),
        ({
            let p1 = Parameters {
                declination: decl,
                correction_factors: Some(c),
                backsight_correction_factors: None,
            };
            let t1 = spec_serialize_params(p1);
            spec_parse_params_line(t1, 0) == Some((p1, t1.len() as int))
        }),
{
    let p0 = Parameters {
        declination: decl,
        correction_factors: None,
        backsight_correction_factors: None,
    };
    let t0 = spec_serialize_params(p0);
    assert(matches_at(t0, 0, t0)) by {
        assert(t0.subrange(0, t0.len() as int) =~= t0);
    }
    lemma_params_line_rt(t0, 0, p0);
    let p1 = Parameters {
        declination: decl,
        correction_factors: Some(c),
        backsight_correction_factors: None,
    };
    let t1 = spec_serialize_params(p1);
    assert(matches_at(t1, 0, t1)) by {
        assert(t1.subrange(0, t1.len() as int) =~= t1);
    }
    lemma_params_line_rt(t1, 0, p1);
}

} // verus!