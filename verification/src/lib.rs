//! Reading and writing the text formats of a legacy cave-surveying
//! application: a directive-based project file and block-structured
//! survey-data files, with a serializer for the survey model.
pub mod common_types;
pub mod error;
pub mod fmt;
pub mod parser_utils;
pub mod project;
pub mod survey;

pub use common_types::{Date, Decimal, EastNorthElevation, UtmLocation};
pub use error::Error;
pub use parser_utils::is_valid_station_name_char;
pub use project::{Datum, Loaded, Project, Station, SurveyFile, Unloaded};
pub use project::parser::parse_compass_project;
pub use survey::{
    BackSightCorrectionFactors, CorrectionFactors, Parameters, Shot, Survey, show_string,
};
