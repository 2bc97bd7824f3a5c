//! The survey-data model: blocks of shot records with per-survey
//! metadata and correction factors, the parser for survey-data text, and
//! the serializer that renders a survey back into its on-disk form.
use vstd::prelude::*;

pub mod laws;
pub mod parser;

verus! {

use crate::common_types::{Date, Decimal};

/// Correction factors applied to every shot of a survey.
#[derive(Clone, Copy, Debug, PartialEq, Eq, Structural)]
pub struct CorrectionFactors {
    pub azimuth: Decimal,
    pub inclination: Decimal,
    pub length: Decimal,
}

/// Correction factors for backsight readings.
#[derive(Clone, Copy, Debug, PartialEq, Eq, Structural)]
pub struct BackSightCorrectionFactors {
    pub azimuth: Decimal,
    pub inclination: Decimal,
}

/// The per-survey parameters line: declination and two independently
/// optional correction blocks.
#[derive(Clone, Copy, Debug, PartialEq, Eq)]
pub struct Parameters {
    pub declination: Decimal,
    pub correction_factors: Option<CorrectionFactors>,
    pub backsight_correction_factors: Option<BackSightCorrectionFactors>,
}

/// One measured leg between two stations.
#[derive(Clone, Debug, PartialEq, Eq)]
pub struct Shot {
    pub from: Vec<u8>,
    pub to: Vec<u8>,
    pub length: Decimal,
    pub azimuth: Decimal,
    pub inclination: Decimal,
    pub up: Decimal,
    pub down: Decimal,
    pub left: Decimal,
    pub right: Decimal,
    pub flags: Option<Vec<u8>>,
    pub comment: Option<Vec<u8>>,
}

/// The mathematical value of a shot: its texts as byte sequences.
#[verifier::ext_equal]
pub struct ShotV {
    pub from: Seq<u8>,
    pub to: Seq<u8>,
    pub length: Decimal,
    pub azimuth: Decimal,
    pub inclination: Decimal,
    pub up: Decimal,
    pub down: Decimal,
    pub left: Decimal,
    pub right: Decimal,
    pub flags: Option<Seq<u8>>,
    pub comment: Option<Seq<u8>>,
}

/// The byte sequence held by an optional text field.
pub open spec fn view_opt_bytes(o: Option<Vec<u8>>) -> Option<Seq<u8>> {
    match o {
        Some(v) => Some(v@),
        None => None,
    }
}

impl View for Shot {
    type V = ShotV;

    open spec fn view(&self) -> ShotV {
        ShotV {
            from: self.from@,
            to: self.to@,
            length: self.length,
            azimuth: self.azimuth,
            inclination: self.inclination,
            up: self.up,
            down: self.down,
            left: self.left,
            right: self.right,
            flags: view_opt_bytes(self.flags),
            comment: view_opt_bytes(self.comment),
        }
    }
}

/// One survey block: names, date, optional comment, team line,
/// parameters and shots.
#[derive(Clone, Debug, PartialEq, Eq)]
pub struct Survey {
    pub cave_name: Vec<u8>,
    pub name: Vec<u8>,
    pub date: Date,
    pub comment: Option<Vec<u8>>,
    pub team: Vec<u8>,
    pub parameters: Parameters,
    pub shots: Vec<Shot>,
}

/// The mathematical value of a survey.
#[verifier::ext_equal]
pub struct SurveyV {
    pub cave_name: Seq<u8>,
    pub name: Seq<u8>,
    pub date: Date,
    pub comment: Option<Seq<u8>>,
    pub team: Seq<u8>,
    pub parameters: Parameters,
    pub shots: Seq<ShotV>,
}

impl View for Survey {
    type V = SurveyV;

    open spec fn view(&self) -> SurveyV {
        SurveyV {
            cave_name: self.cave_name@,
            name: self.name@,
            date: self.date,
            comment: view_opt_bytes(self.comment),
            team: self.team@,
            parameters: self.parameters,
            shots: self.shots@.map_values(|sh: Shot| sh@),
        }
    }
}

/// A carriage-return-line-feed pair.
pub open spec fn crlf() -> Seq<u8> {
    seq![13u8, 10u8]
}

/// The two-decimal-place rendering of a decimal value.
pub open spec fn fmt2d(d: Decimal) -> Seq<u8> {
    crate::fmt::spec_fmt2(d.units as int)
}

/// The canonical parameters line: the declination, a fixed format
/// token, the correction clauses that are present, and the line
/// terminator.
pub open spec fn spec_serialize_params(p: Parameters) -> Seq<u8> {
    crate::parser_utils::lit_bytes("DECLINATION: "@) + fmt2d(p.declination)
        + crate::parser_utils::lit_bytes(" FORMAT: DMMDLRUD"@) + (match p.correction_factors {
        Some(c) => crate::parser_utils::lit_bytes(" CORRECTIONS: "@) + fmt2d(c.azimuth)
            + seq![32u8] + fmt2d(c.inclination) + seq![32u8] + fmt2d(c.length),
        None => Seq::empty(),
    }) + (match p.backsight_correction_factors {
        Some(c) => crate::parser_utils::lit_bytes(" CORRECTIONS2: "@) + fmt2d(c.azimuth)
            + seq![32u8] + fmt2d(c.inclination),
        None => Seq::empty(),
    }) + crlf()
}

/// One canonical shot line: station names right-justified in
/// thirteen-byte fields, each measurement right-justified in a nine-byte
/// field with two decimal places.
#[verifier::opaque]
pub open spec fn spec_serialize_shot(sh: ShotV) -> Seq<u8> {
    crate::fmt::spec_pad_left(sh.from, 13) + crate::fmt::spec_pad_left(sh.to, 13)
        + crate::fmt::spec_pad_left(fmt2d(sh.length), 9) + crate::fmt::spec_pad_left(
        fmt2d(sh.azimuth),
        9,
    ) + crate::fmt::spec_pad_left(fmt2d(sh.inclination), 9) + crate::fmt::spec_pad_left(
        fmt2d(sh.left),
        9,
    ) + crate::fmt::spec_pad_left(fmt2d(sh.up), 9) + crate::fmt::spec_pad_left(
        fmt2d(sh.down),
        9,
    ) + crate::fmt::spec_pad_left(fmt2d(sh.right), 9) + crlf()
}

/// The canonical shot lines, in order.
pub open spec fn spec_serialize_shots(shots: Seq<ShotV>) -> Seq<u8>
    decreases shots.len(),
{
    if shots.len() == 0 {
        Seq::empty()
    } else {
        spec_serialize_shot(shots[0]) + spec_serialize_shots(shots.skip(1))
    }
}

#[verifier::rlimit(100)]
#[verifier::spinoff_prover]
pub proof fn lemma_serialize_shots_snoc(shots: Seq<ShotV>, k: int)
    requires
        0 <= k < shots.len(),
    ensures
        spec_serialize_shots(shots.take(k + 1)) == spec_serialize_shots(shots.take(k))
            + spec_serialize_shot(shots[k]),
    decreases k,
{
    if k == 0 {
        assert(shots.take(1).skip(1) =~= Seq::<ShotV>::empty());
        assert(shots.take(0) =~= Seq::<ShotV>::empty());
        assert(shots.take(1)[0] == shots[0]);
        assert(spec_serialize_shots(Seq::<ShotV>::empty()) == Seq::<u8>::empty());
        assert(spec_serialize_shots(shots.take(1)) == spec_serialize_shot(shots.take(1)[0])
            + spec_serialize_shots(shots.take(1).skip(1)));
        assert(spec_serialize_shots(shots.take(1)) =~= spec_serialize_shot(shots[0]));
    } else {
        let t = shots.skip(1);
        lemma_serialize_shots_snoc(t, k - 1);
        assert(shots.take(k + 1).skip(1) =~= t.take(k));
        assert(shots.take(k).skip(1) =~= t.take(k - 1));
        assert(shots.take(k + 1)[0] == shots[0]);
        assert(shots.take(k)[0] == shots[0]);
        assert(t[k - 1] == shots[k]);
        assert(spec_serialize_shots(shots.take(k + 1)) == spec_serialize_shot(shots[0])
            + spec_serialize_shots(t.take(k)));
        assert(spec_serialize_shot(shots[0]) + (spec_serialize_shots(t.take(k - 1))
            + spec_serialize_shot(shots[k])) =~= (spec_serialize_shot(shots[0])
            + spec_serialize_shots(t.take(k - 1))) + spec_serialize_shot(shots[k]));
    }
}

/// The column-label line, without its terminator.
pub open spec fn spec_label_line() -> Seq<u8> {
    crate::parser_utils::lit_bytes(
        "         FROM           TO   LENGTH  BEARING      INC     LEFT       UP     DOWN    RIGHT"@,
    )
}

/// The canonical on-disk text of a survey.
pub open spec fn spec_serialize_survey(sv: SurveyV) -> Seq<u8> {
    sv.cave_name + crlf() + crate::parser_utils::lit_bytes("SURVEY NAME: "@) + sv.name + crlf()
        + crate::parser_utils::lit_bytes("SURVEY DATE: "@) + crate::fmt::dec_digits(
        sv.date.month as nat,
    ) + seq![32u8] + crate::fmt::dec_digits(sv.date.day as nat) + seq![32u8]
        + crate::fmt::dec_digits(sv.date.year as nat) + (match sv.comment {
        Some(c) => crate::parser_utils::lit_bytes(" COMMENT:"@) + c,
        None => Seq::empty(),
    }) + crlf() + crate::parser_utils::lit_bytes("SURVEY TEAM:"@) + crlf() + sv.team + crlf()
        + spec_serialize_params(sv.parameters) + spec_label_line() + crlf()
        + spec_serialize_shots(sv.shots) + seq![12u8] + crlf()
}

impl Parameters {
    /// Render the canonical parameters line.
    #[verifier::rlimit(100)]
    #[verifier::spinoff_prover]
    pub fn serialize(&self) -> (r: Vec<u8>)
        ensures
            r@ == spec_serialize_params(*self),
    {
        proof {
            reveal_strlit("DECLINATION: ");
            reveal_strlit(" FORMAT: DMMDLRUD");
            reveal_strlit(" CORRECTIONS: ");
            reveal_strlit(" CORRECTIONS2: ");
        }
        let mut out: Vec<u8> = Vec::new();
        crate::fmt::append_tag(&mut out, "DECLINATION: ");
        crate::fmt::append_fmt2(&mut out, self.declination.units);
        crate::fmt::append_tag(&mut out, " FORMAT: DMMDLRUD");
        match &self.correction_factors {
            Some(c) => {
                crate::fmt::append_tag(&mut out, " CORRECTIONS: ");
                crate::fmt::append_fmt2(&mut out, c.azimuth.units);
                out.push(32);
                crate::fmt::append_fmt2(&mut out, c.inclination.units);
                out.push(32);
                crate::fmt::append_fmt2(&mut out, c.length.units);
            },
            None => {},
        }
        match &self.backsight_correction_factors {
            Some(c) => {
                crate::fmt::append_tag(&mut out, " CORRECTIONS2: ");
                crate::fmt::append_fmt2(&mut out, c.azimuth.units);
                out.push(32);
                crate::fmt::append_fmt2(&mut out, c.inclination.units);
            },
            None => {},
        }
        out.push(13);
        out.push(10);
        proof {
            assert(out@ =~= spec_serialize_params(*self));
        }
        out
    }
}

/// Append one measurement right-justified in a nine-byte field.
fn append_field9(out: &mut Vec<u8>, d: Decimal)
    ensures
        final(out)@ == old(out)@ + crate::fmt::spec_pad_left(fmt2d(d), 9),
{
    let mut t: Vec<u8> = Vec::new();
    crate::fmt::append_fmt2(&mut t, d.units);
    crate::fmt::append_padded(out, t.as_slice(), 9);
}

impl Shot {
    /// Render the canonical shot line.
    #[verifier::rlimit(100)]
    #[verifier::spinoff_prover]
    pub fn serialize(&self) -> (r: Vec<u8>)
        ensures
            r@ == spec_serialize_shot(self@),
    {
        proof {
            reveal(spec_serialize_shot);
        }
        let mut out: Vec<u8> = Vec::new();
        crate::fmt::append_padded(&mut out, self.from.as_slice(), 13);
        crate::fmt::append_padded(&mut out, self.to.as_slice(), 13);
        append_field9(&mut out, self.length);
        append_field9(&mut out, self.azimuth);
        append_field9(&mut out, self.inclination);
        append_field9(&mut out, self.left);
        append_field9(&mut out, self.up);
        append_field9(&mut out, self.down);
        append_field9(&mut out, self.right);
        out.push(13);
        out.push(10);
        proof {
            assert(out@ =~= spec_serialize_shot(self@));
        }
        out
    }
}

impl Survey {
    /// Render the canonical on-disk text of this survey.
    #[verifier::rlimit(100)]
    #[verifier::spinoff_prover]
    pub fn serialize(&self) -> (r: Vec<u8>)
        ensures
            r@ == spec_serialize_survey(self@),
    {
        proof {
            reveal_strlit("SURVEY NAME: ");
            reveal_strlit("SURVEY DATE: ");
            reveal_strlit(" COMMENT:");
            reveal_strlit("SURVEY TEAM:");
            reveal_strlit(
                "         FROM           TO   LENGTH  BEARING      INC     LEFT       UP     DOWN    RIGHT",
            );
        }
        let mut out: Vec<u8> = Vec::new();
        crate::fmt::append_bytes(&mut out, self.cave_name.as_slice());
        out.push(13);
        out.push(10);
        crate::fmt::append_tag(&mut out, "SURVEY NAME: ");
        crate::fmt::append_bytes(&mut out, self.name.as_slice());
        out.push(13);
        out.push(10);
        crate::fmt::append_tag(&mut out, "SURVEY DATE: ");
        crate::fmt::append_u64(&mut out, self.date.month as u64);
        out.push(32);
        crate::fmt::append_u64(&mut out, self.date.day as u64);
        out.push(32);
        crate::fmt::append_u64(&mut out, self.date.year as u64);
        match &self.comment {
            Some(c) => {
                crate::fmt::append_tag(&mut out, " COMMENT:");
                crate::fmt::append_bytes(&mut out, c.as_slice());
            },
            None => {},
        }
        out.push(13);
        out.push(10);
        crate::fmt::append_tag(&mut out, "SURVEY TEAM:");
        out.push(13);
        out.push(10);
        crate::fmt::append_bytes(&mut out, self.team.as_slice());
        out.push(13);
        out.push(10);
        let params = self.parameters.serialize();
        crate::fmt::append_bytes(&mut out, params.as_slice());
        crate::fmt::append_tag(
            &mut out,
            "         FROM           TO   LENGTH  BEARING      INC     LEFT       UP     DOWN    RIGHT",
        );
        out.push(13);
        out.push(10);
        let ghost head = out@;
        let mut k: usize = 0;
        while k < self.shots.len()
            invariant
                k <= self.shots@.len(),
                out@ == head + spec_serialize_shots(self.shots@.map_values(|sh: Shot| sh@).take(
                    k as int,
                )),
            decreases self.shots@.len() - k,
        {
            let line = self.shots[k].serialize();
            crate::fmt::append_bytes(&mut out, line.as_slice());
            proof {
                let shv = self.shots@.map_values(|sh: Shot| sh@);
                lemma_serialize_shots_snoc(shv, k as int);
                assert(shv[k as int] == self.shots@[k as int]@);
                assert(head + spec_serialize_shots(shv.take(k as int)) + spec_serialize_shot(
                    shv[k as int],
                ) =~= head + spec_serialize_shots(shv.take(k + 1)));
            }
            k += 1;
        }
        proof {
            assert(self.shots@.map_values(|sh: Shot| sh@).take(self.shots@.len() as int)
                =~= self.shots@.map_values(|sh: Shot| sh@));
        }
        out.push(12);
        out.push(13);
        out.push(10);
        proof {
            assert(out@ =~= spec_serialize_survey(self@));
        }
        out
    }
}

impl Survey {
    /// Parse one survey block from the start of `input`.
    pub fn parse_survey(input: &[u8]) -> (r: Result<Survey, crate::error::Error>)
        ensures
            (match parser::spec_parse_survey(input@, 0) {
                Some((svv, n)) => r is Ok && r->Ok_0@ == svv,
                None => r == Err::<Survey, crate::error::Error>(
                    crate::error::Error::CouldntParseSurvey(0),
                ),
            }),
    {
        match parser::parse_survey(input, 0) {
            Some((sv, _n)) => Ok(sv),
            None => Err(crate::error::Error::CouldntParseSurvey(0)),
        }
    }

    /// Parse a whole survey-data file.  Every leading block that parses
    /// is returned; if anything but whitespace remains after them the
    /// parse fails, naming the offset where the remainder starts.
    pub fn parse_dat_file(input: &[u8]) -> (r: Result<Vec<Survey>, crate::error::Error>)
        ensures
            (match r {
                Ok(svs) => svs@.map_values(|sv: Survey| sv@) == parser::spec_parse_dat(
                    input@,
                    0,
                ).0 && crate::parser_utils::spec_skip_ws(
                    input@,
                    parser::spec_parse_dat(input@, 0).1,
                    input@.len() as int,
                ) == input@.len(),
                Err(e) => e == crate::error::Error::CouldntParseSurvey(
                    parser::spec_parse_dat(input@, 0).1 as usize,
                ) && crate::parser_utils::spec_skip_ws(
                    input@,
                    parser::spec_parse_dat(input@, 0).1,
                    input@.len() as int,
                ) != input@.len(),
            }),
    {
        let (svs, cur) = parser::parse_dat_file(input);
        let t = crate::parser_utils::skip_ws(input, cur, input.len());
        if t == input.len() {
            Ok(svs)
        } else {
            Err(crate::error::Error::CouldntParseSurvey(cur))
        }
    }
}

/// The first eight bytes of `s` with surrounding whitespace removed.
pub open spec fn spec_show_string(s: Seq<u8>) -> Seq<u8> {
    let hi: int = if s.len() > 8 {
        8
    } else {
        s.len() as int
    };
    crate::parser_utils::spec_trimmed(s, 0, hi)
}

/// Shorten a label to its first eight bytes, trimmed.
pub fn show_string(s: &[u8]) -> (r: Vec<u8>)
    ensures
        r@ == spec_show_string(s@),
{
    let hi: usize = if s.len() > 8 {
        8
    } else {
        s.len()
    };
    crate::parser_utils::copy_trimmed(s, 0, hi)
}

} // verus!
