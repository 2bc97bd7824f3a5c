//! The failures this library reports.
//!
//! Parse failures carry the byte offset at which the unconsumed or
//! unparsable text starts; file-level failures carry the path they
//! concern as bytes, for the caller that does the reading to fill in.
use vstd::prelude::*;

verus! {

/// Everything that can go wrong while reading projects and survey data.
#[derive(Clone, Debug, PartialEq, Eq)]
pub enum Error {
    /// The project file does not exist.
    ProjectFileNotFound(Vec<u8>),
    /// A file existed but could not be read.
    CouldntReadFile(Vec<u8>),
    /// The project text is not a valid project: the offset names the
    /// position the parser could not get past.
    CouldntParseProject(usize),
    /// A referenced survey-data file does not exist.
    SurveyFileNotFound(Vec<u8>),
    /// Survey-data text left unparsable trailing content: the offset
    /// names where it starts.
    CouldntParseSurvey(usize),
    /// A shot referenced a station unknown to the project.
    StationNotFound(Vec<u8>),
}

} // verus!
