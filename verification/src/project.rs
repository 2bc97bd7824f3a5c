//! The project model: a base geodetic reference point, a datum, an
//! optional zone override, and the ordered survey-file entries with
//! their fixed stations.
//!
//! A project is read in two stages: parsing the project text gives a
//! `Project<Unloaded>`, whose entries name survey-data files but hold no
//! survey data; attaching each referenced file's text turns it into a
//! `Project<Loaded>`.  The marker types keep unloaded data from being
//! used as if it were loaded.
use vstd::prelude::*;

pub mod laws;
pub mod parser;

verus! {

use core::marker::PhantomData;
use crate::common_types::{EastNorthElevation, UtmLocation};
use crate::error::Error;
use crate::survey::{Survey, SurveyV};

/// The closed set of geodetic datums a project may name.
#[derive(Clone, Copy, Debug, PartialEq, Eq, Structural)]
pub enum Datum {
    Adindan,
    Arc1950,
    Arc1960,
    Australian1966,
    Australian1984,
    CampAreaAstro,
    Cape,
    European1950,
    European1979,
    Geodetic1949,
    HongKong1963,
    HuTzuShan,
    Indian,
    NorthAmerican1927,
    NorthAmerican1983,
    Oman,
    OrdinanceSurvey1936,
    Pulkovo1942,
    SouthAmerican1956,
    SouthAmerican1969,
    Tokyo,
    Wgs1972,
    Wgs1984,
}

/// A named survey point, optionally with a known coordinate fix.
#[derive(Clone, Debug, PartialEq, Eq)]
pub struct Station {
    pub name: Vec<u8>,
    pub location: Option<EastNorthElevation>,
}

/// The mathematical value of a station.
#[verifier::ext_equal]
pub struct StationV {
    pub name: Seq<u8>,
    pub location: Option<EastNorthElevation>,
}

impl View for Station {
    type V = StationV;

    open spec fn view(&self) -> StationV {
        StationV { name: self.name@, location: self.location }
    }
}

/// Marker for a project or survey-file entry whose survey data has not
/// been read yet.
#[derive(Clone, Copy, Debug, PartialEq, Eq, Structural)]
pub struct Unloaded;

/// Marker for a project or survey-file entry whose survey data is
/// attached.
#[derive(Clone, Copy, Debug, PartialEq, Eq, Structural)]
pub struct Loaded;

/// One referenced survey-data file: its path, the project-level fixed
/// stations declared with it, and, once loaded, its surveys.
#[derive(Debug, PartialEq, Eq)]
pub struct SurveyFile<S> {
    pub file_path: Vec<u8>,
    pub project_stations: Vec<Station>,
    pub surveys: Vec<Survey>,
    pub state: PhantomData<S>,
}

/// The mathematical value of a survey-file entry.
#[verifier::ext_equal]
pub struct SurveyFileV {
    pub file_path: Seq<u8>,
    pub project_stations: Seq<StationV>,
    pub surveys: Seq<SurveyV>,
}

impl<S> View for SurveyFile<S> {
    type V = SurveyFileV;

    open spec fn view(&self) -> SurveyFileV {
        SurveyFileV {
            file_path: self.file_path@,
            project_stations: self.project_stations@.map_values(|st: Station| st@),
            surveys: self.surveys@.map_values(|sv: Survey| sv@),
        }
    }
}

impl SurveyFile<Unloaded> {
    /// An entry fresh from the project parser: no surveys attached.
    pub fn new(file_path: Vec<u8>, project_stations: Vec<Station>) -> (r: SurveyFile<Unloaded>)
        ensures
            r@.file_path == file_path@,
            r@.project_stations == project_stations@.map_values(|st: Station| st@),
            r@.surveys.len() == 0,
    {
        let r = SurveyFile {
            file_path,
            project_stations,
            surveys: Vec::new(),
            state: PhantomData,
        };
        proof {
            assert(r.surveys@.map_values(|sv: Survey| sv@) =~= Seq::<SurveyV>::empty());
        }
        r
    }

    /// Attach the parsed contents of this entry's survey-data file.
    /// The text must consist of survey blocks followed by nothing but
    /// whitespace.
    pub fn load(self, file_contents: &[u8]) -> (r: Result<SurveyFile<Loaded>, Error>)
        ensures
            (match r {
                Ok(lf) => lf@.file_path == self@.file_path && lf@.project_stations
                    == self@.project_stations && lf@.surveys
                    == crate::survey::parser::spec_parse_dat(file_contents@, 0).0
                    && crate::parser_utils::spec_skip_ws(
                    file_contents@,
                    crate::survey::parser::spec_parse_dat(file_contents@, 0).1,
                    file_contents@.len() as int,
                ) == file_contents@.len(),
                Err(e) => e == Error::CouldntParseSurvey(
                    crate::survey::parser::spec_parse_dat(file_contents@, 0).1 as usize,
                ) && crate::parser_utils::spec_skip_ws(
                    file_contents@,
                    crate::survey::parser::spec_parse_dat(file_contents@, 0).1,
                    file_contents@.len() as int,
                ) != file_contents@.len(),
            }),
    {
        match Survey::parse_dat_file(file_contents) {
            Ok(surveys) => Ok(
                SurveyFile {
                    file_path: self.file_path,
                    project_stations: self.project_stations,
                    surveys,
                    state: PhantomData,
                },
            ),
            Err(e) => Err(e),
        }
    }
}

/// A whole project: where it came from, its base location and datum,
/// an optional zone override, and its survey-file entries.
#[derive(Debug, PartialEq, Eq)]
pub struct Project<S> {
    pub file_path: Vec<u8>,
    pub base_location: UtmLocation,
    pub datum: Datum,
    /// The zone used for fixed stations in the project, when overridden.
    pub utm_zone: Option<u8>,
    pub survey_files: Vec<SurveyFile<S>>,
    pub state: PhantomData<S>,
}

/// The mathematical value of a project.
#[verifier::ext_equal]
pub struct ProjectV {
    pub file_path: Seq<u8>,
    pub base_location: UtmLocation,
    pub datum: Datum,
    pub utm_zone: Option<u8>,
    pub survey_files: Seq<SurveyFileV>,
}

impl<S> View for Project<S> {
    type V = ProjectV;

    open spec fn view(&self) -> ProjectV {
        ProjectV {
            file_path: self.file_path@,
            base_location: self.base_location,
            datum: self.datum,
            utm_zone: self.utm_zone,
            survey_files: self.survey_files@.map_values(|f: SurveyFile<S>| f@),
        }
    }
}

/// Loading the entries of `files` from position `k` on, each from the
/// matching text of `texts`: the loaded entries, or `None` as soon as
/// one text has unparsable trailing content.
pub open spec fn spec_load_from(files: Seq<SurveyFileV>, texts: Seq<Seq<u8>>, k: int) -> Option<
    Seq<SurveyFileV>,
>
    decreases files.len() - k,
{
    if !(0 <= k < files.len()) {
        Some(Seq::empty())
    } else {
        let t = texts[k];
        let (svs, fin) = crate::survey::parser::spec_parse_dat(t, 0);
        if crate::parser_utils::spec_skip_ws(t, fin, t.len() as int) == t.len() {
            match spec_load_from(files, texts, k + 1) {
                Some(rest) => Some(
                    seq![
                        SurveyFileV {
                            file_path: files[k].file_path,
                            project_stations: files[k].project_stations,
                            surveys: svs,
                        },
                    ] + rest,
                ),
                None => None,
            }
        } else {
            None
        }
    }
}

/// Loading every entry of `files` from the matching text of `texts`.
pub open spec fn spec_load_all(files: Seq<SurveyFileV>, texts: Seq<Seq<u8>>) -> Option<
    Seq<SurveyFileV>,
> {
    spec_load_from(files, texts, 0)
}

impl Project<Unloaded> {
    /// Parse project text into an unloaded project.
    pub fn read(file_path: Vec<u8>, input: &[u8]) -> (r: Result<Project<Unloaded>, Error>)
        ensures
            (match parser::spec_parse_compass_project(input@) {
                Ok((pv, n)) => r is Ok && r->Ok_0@ == (ProjectV {
                    file_path: file_path@,
                    ..pv
                }),
                Err(p) => r == Err::<Project<Unloaded>, Error>(
                    Error::CouldntParseProject(p as usize),
                ),
            }),
    {
        match parser::parse_compass_project(input) {
            Ok((mut p, _n)) => {
                p.file_path = file_path;
                Ok(p)
            },
            Err(e) => Err(e),
        }
    }

    /// Attach survey data to every entry, from the texts of the
    /// referenced files, given in entry order.
    #[verifier::loop_isolation(false)]
    #[verifier::rlimit(100)]
    #[verifier::spinoff_prover]
    pub fn load_survey_files(self, texts: &Vec<Vec<u8>>) -> (r: Result<Project<Loaded>, Error>)
        requires
            texts@.len() == self.survey_files@.len(),
        ensures
            (match r {
                Ok(p) => Some(p@.survey_files) == spec_load_all(
                    self@.survey_files,
                    texts@.map_values(|t: Vec<u8>| t@),
                ) && p@.file_path == self@.file_path && p@.base_location == self@.base_location
                    && p@.datum == self@.datum && p@.utm_zone == self@.utm_zone,
                Err(e) => spec_load_all(
                    self@.survey_files,
                    texts@.map_values(|t: Vec<u8>| t@),
                ) is None && e is CouldntParseSurvey,
            }),
    {
        let mut loaded: Vec<SurveyFile<Loaded>> = Vec::new();
        let mut files = self.survey_files;
        let ghost files0 = files@.map_values(|f: SurveyFile<Unloaded>| f@);
        let ghost texts0 = texts@.map_values(|t: Vec<u8>| t@);
        let mut k: usize = 0;
        let n = files.len();
        while k < n
            invariant
                k <= n == texts@.len(),
                files@.len() == n - k,
                forall|q: int| 0 <= q < n - k ==> files0[k + q] == #[trigger] files@[q]@,
                files0.len() == n,
                texts0 == texts@.map_values(|t: Vec<u8>| t@),
                spec_load_from(files0, texts0, 0) == (match spec_load_from(
                    files0,
                    texts0,
                    k as int,
                ) {
                    Some(rest) => Some(loaded@.map_values(|f: SurveyFile<Loaded>| f@) + rest),
                    None => None::<Seq<SurveyFileV>>,
                }),
                loaded@.len() == k,
            decreases n - k,
        {
            let ghost pre_files = files@;
            let f = files.remove(0);
            proof {
                assert(pre_files[0]@ == files0[k as int]);
                assert(files0.skip(k as int)[0] == f@) by {
                    assert(files0[k as int] == f@);
                }
                assert(forall|q: int| 0 <= q < n - k - 1 ==> files0[k + 1 + q]
                    == #[trigger] files@[q]@) by {
                    assert(forall|q: int| 0 <= q < n - k - 1 ==> #[trigger] files@[q]
                        == pre_files[q + 1]);
                }
                assert(texts0[k as int] == texts@[k as int]@);
            }
            let lf = match f.load(texts[k].as_slice()) {
                Ok(lf) => lf,
                Err(e) => {
                    proof {
                        assert(spec_load_from(files0, texts0, k as int) is None);
                    }
                    return Err(e);
                },
            };
            proof {
                let lm = loaded@.map_values(|x: SurveyFile<Loaded>| x@);
                assert(loaded@.push(lf).map_values(|x: SurveyFile<Loaded>| x@) =~= lm.push(
                    lf@,
                ));
                let head = SurveyFileV {
                    file_path: files0[k as int].file_path,
                    project_stations: files0[k as int].project_stations,
                    surveys: crate::survey::parser::spec_parse_dat(texts0[k as int], 0).0,
                };
                assert(head == lf@);
                assert(spec_load_from(files0, texts0, k as int) == (match spec_load_from(
                    files0,
                    texts0,
                    k + 1,
                ) {
                    Some(rest) => Some(seq![lf@] + rest),
                    None => None::<Seq<SurveyFileV>>,
                }));
                if spec_load_from(files0, texts0, k + 1) is Some {
                    let rest2 = spec_load_from(files0, texts0, k + 1).unwrap();
                    assert(lm + (seq![lf@] + rest2) =~= lm.push(lf@) + rest2);
                }
            }
            loaded.push(lf);
            k += 1;
        }
        proof {
            assert(spec_load_from(files0, texts0, n as int) == Some(Seq::<SurveyFileV>::empty()));
            assert(loaded@.map_values(|f: SurveyFile<Loaded>| f@) + Seq::<SurveyFileV>::empty()
                =~= loaded@.map_values(|f: SurveyFile<Loaded>| f@));
        }
        Ok(
            Project {
                file_path: self.file_path,
                base_location: self.base_location,
                datum: self.datum,
                utm_zone: self.utm_zone,
                survey_files: loaded,
                state: PhantomData,
            },
        )
    }
}

impl Project<Loaded> {
    /// Build a project in memory, with no survey-file entries.
    pub fn new(
        file_path: Vec<u8>,
        base_location: UtmLocation,
        datum: Datum,
        utm_zone: Option<u8>,
    ) -> (r: Project<Loaded>)
        ensures
            r@.file_path == file_path@,
            r@.base_location == base_location,
            r@.datum == datum,
            r@.utm_zone == utm_zone,
            r@.survey_files.len() == 0,
    {
        let r = Project {
            file_path,
            base_location,
            datum,
            utm_zone,
            survey_files: Vec::new(),
            state: PhantomData,
        };
        proof {
            assert(r.survey_files@.map_values(|f: SurveyFile<Loaded>| f@)
                =~= Seq::<SurveyFileV>::empty());
        }
        r
    }
}

} // verus!
