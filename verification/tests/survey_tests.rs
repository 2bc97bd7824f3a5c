//! Tests of the survey-data parser and serializer: block structure,
//! shot fields, optional correction clauses, the exact serialized text,
//! and the parse-serialize round trip.
use compass_data::{
    BackSightCorrectionFactors, CorrectionFactors, Date, Decimal, Error, Parameters, Shot,
    Survey,
};

fn sample_block() -> Vec<u8> {
    let mut text = Vec::new();
    text.extend_from_slice(b"Fulford Cave\r\n");
    text.extend_from_slice(b"SURVEY NAME: CL\r\n");
    text.extend_from_slice(b"SURVEY DATE: 7 2 1989  COMMENT: entrance series\r\n");
    text.extend_from_slice(b"SURVEY TEAM:\r\n");
    text.extend_from_slice(b"D.Smith, R.Jones\r\n");
    text.extend_from_slice(
        b"DECLINATION: 11.18 FORMAT: DMMUDLRUP CORRECTIONS: 1.00 2.00 3.00 CORRECTIONS2: 4.00 5.00\r\n",
    );
    text.extend_from_slice(b"FROM TO LENGTH BEARING INC LEFT UP DOWN RIGHT\r\n");
    text.extend_from_slice(b"AB BC 10.50 180.00 -5.00 1.00 2.00 3.00 4.00\r\n");
    text.extend_from_slice(b"BC CD 6.25 90.00 0.00 0.50 0.75 1.25 1.50\r\n");
    text.extend_from_slice(b"\x0c\r\n");
    text
}

#[test]
fn parse_survey_block_fields() {
    let text = sample_block();
    let survey = Survey::parse_survey(&text).unwrap();
    assert_eq!(survey.cave_name, b"Fulford Cave".to_vec());
    assert_eq!(survey.name, b"CL".to_vec());
    assert_eq!(survey.date, Date { month: 7, day: 2, year: 1989 });
    assert_eq!(survey.comment, Some(b" entrance series".to_vec()));
    assert_eq!(survey.team, b"D.Smith, R.Jones".to_vec());
    assert_eq!(survey.parameters.declination, Decimal::from_units(111_800));
    assert_eq!(
        survey.parameters.correction_factors,
        Some(CorrectionFactors {
            azimuth: Decimal::from_units(10_000),
            inclination: Decimal::from_units(20_000),
            length: Decimal::from_units(30_000),
        })
    );
    assert_eq!(
        survey.parameters.backsight_correction_factors,
        Some(BackSightCorrectionFactors {
            azimuth: Decimal::from_units(40_000),
            inclination: Decimal::from_units(50_000),
        })
    );
    assert_eq!(survey.shots.len(), 2);
}

#[test]
fn parsed_shot_fields_follow_column_order() {
    let text = sample_block();
    let survey = Survey::parse_survey(&text).unwrap();
    let shot = &survey.shots[0];
    assert_eq!(shot.from, b"AB".to_vec());
    assert_eq!(shot.to, b"BC".to_vec());
    assert_eq!(shot.length, Decimal::from_units(105_000));
    assert_eq!(shot.azimuth, Decimal::from_units(1_800_000));
    assert_eq!(shot.inclination, Decimal::from_units(-50_000));
    assert_eq!(shot.left, Decimal::from_units(10_000));
    assert_eq!(shot.up, Decimal::from_units(20_000));
    assert_eq!(shot.down, Decimal::from_units(30_000));
    assert_eq!(shot.right, Decimal::from_units(40_000));
    assert_eq!(shot.flags, None);
    assert_eq!(shot.comment, None);
}

#[test]
fn optional_correction_blocks_are_independent() {
    let mut text = Vec::new();
    text.extend_from_slice(b"Cave\r\nSURVEY NAME: A1\r\nSURVEY DATE: 1 2 1979\r\n");
    text.extend_from_slice(b"SURVEY TEAM:\r\nTeam\r\n");
    text.extend_from_slice(b"DECLINATION: 1.00 FORMAT: DMMUDLRUP\r\n");
    text.extend_from_slice(b"FROM TO\r\n\x0c\r\n");
    let survey = Survey::parse_survey(&text).unwrap();
    assert_eq!(survey.parameters.declination, Decimal::from_units(10_000));
    assert_eq!(survey.parameters.correction_factors, None);
    assert_eq!(survey.parameters.backsight_correction_factors, None);

    let mut text2 = Vec::new();
    text2.extend_from_slice(b"Cave\r\nSURVEY NAME: A1\r\nSURVEY DATE: 1 2 1979\r\n");
    text2.extend_from_slice(b"SURVEY TEAM:\r\nTeam\r\n");
    text2.extend_from_slice(b"DECLINATION: 1.00 FORMAT: DMMUDLRUP CORRECTIONS: 0.50 -0.25 1.00\r\n");
    text2.extend_from_slice(b"FROM TO\r\n\x0c\r\n");
    let survey2 = Survey::parse_survey(&text2).unwrap();
    assert_eq!(
        survey2.parameters.correction_factors,
        Some(CorrectionFactors {
            azimuth: Decimal::from_units(5_000),
            inclination: Decimal::from_units(-2_500),
            length: Decimal::from_units(10_000),
        })
    );
    assert_eq!(survey2.parameters.backsight_correction_factors, None);
}

#[test]
fn parameters_serialize_exactly() {
    let params = Parameters {
        declination: Decimal::from_units(10_000),
        correction_factors: Some(CorrectionFactors {
            azimuth: Decimal::from_units(20_000),
            inclination: Decimal::from_units(30_000),
            length: Decimal::from_units(40_000),
        }),
        backsight_correction_factors: Some(BackSightCorrectionFactors {
            azimuth: Decimal::from_units(50_000),
            inclination: Decimal::from_units(-60_000),
        }),
    };
    let line = params.serialize();
    assert_eq!(
        line,
        b"DECLINATION: 1.00 FORMAT: DMMDLRUD CORRECTIONS: 2.00 3.00 4.00 CORRECTIONS2: 5.00 -6.00\r\n"
            .to_vec()
    );
}

#[test]
fn shot_serializes_to_fixed_width_columns() {
    let shot = Shot {
        from: b"AB".to_vec(),
        to: b"BC".to_vec(),
        length: Decimal::from_units(105_000),
        azimuth: Decimal::from_units(1_800_000),
        inclination: Decimal::from_units(-50_000),
        up: Decimal::from_units(20_000),
        down: Decimal::from_units(30_000),
        left: Decimal::from_units(10_000),
        right: Decimal::from_units(40_000),
        flags: None,
        comment: None,
    };
    let line = shot.serialize();
    assert_eq!(
        line,
        b"           AB           BC    10.50   180.00    -5.00     1.00     2.00     3.00     4.00\r\n"
            .to_vec()
    );
    assert_eq!(line.len(), 91);
}

fn representative_survey() -> Survey {
    Survey {
        cave_name: b"Fulford Cave".to_vec(),
        name: b"CL".to_vec(),
        date: Date { month: 7, day: 2, year: 1989 },
        comment: Some(b" entrance series".to_vec()),
        team: b"D.Smith, R.Jones".to_vec(),
        parameters: Parameters {
            declination: Decimal::from_units(111_800),
            correction_factors: Some(CorrectionFactors {
                azimuth: Decimal::from_units(10_000),
                inclination: Decimal::from_units(-20_000),
                length: Decimal::from_units(30_000),
            }),
            backsight_correction_factors: Some(BackSightCorrectionFactors {
                azimuth: Decimal::from_units(40_000),
                inclination: Decimal::from_units(50_000),
            }),
        },
        shots: vec![
            Shot {
                from: b"AB".to_vec(),
                to: b"BC".to_vec(),
                length: Decimal::from_units(105_000),
                azimuth: Decimal::from_units(1_800_000),
                inclination: Decimal::from_units(-50_000),
                up: Decimal::from_units(20_000),
                down: Decimal::from_units(30_000),
                left: Decimal::from_units(10_000),
                right: Decimal::from_units(40_000),
                flags: None,
                comment: None,
            },
            Shot {
                from: b"BC".to_vec(),
                to: b"CD'*".to_vec(),
                length: Decimal::from_units(62_500),
                azimuth: Decimal::from_units(900_000),
                inclination: Decimal::from_units(0),
                up: Decimal::from_units(7_500),
                down: Decimal::from_units(12_500),
                left: Decimal::from_units(5_000),
                right: Decimal::from_units(15_000),
                flags: None,
                comment: None,
            },
        ],
    }
}

#[test]
fn serialize_then_parse_round_trips() {
    let survey = representative_survey();
    let text = survey.serialize();
    let parsed = Survey::parse_survey(&text).unwrap();
    assert_eq!(parsed, survey);
}

#[test]
fn round_trip_without_comment_or_corrections() {
    let mut survey = representative_survey();
    survey.comment = None;
    survey.parameters.correction_factors = None;
    survey.parameters.backsight_correction_factors = None;
    survey.shots.truncate(1);
    let text = survey.serialize();
    let parsed = Survey::parse_survey(&text).unwrap();
    assert_eq!(parsed, survey);
}

#[test]
fn dat_file_with_two_blocks() {
    let first = representative_survey();
    let mut second = representative_survey();
    second.name = b"CL2".to_vec();
    second.shots.truncate(1);
    let mut text = first.serialize();
    text.extend_from_slice(&second.serialize());
    let surveys = Survey::parse_dat_file(&text).unwrap();
    assert_eq!(surveys.len(), 2);
    assert_eq!(surveys[0], first);
    assert_eq!(surveys[1], second);
}

#[test]
fn dat_file_with_trailing_garbage_fails_with_offset() {
    let survey = representative_survey();
    let mut text = survey.serialize();
    let good_len = text.len();
    text.extend_from_slice(b"not a survey block");
    let result = Survey::parse_dat_file(&text);
    assert_eq!(result, Err(Error::CouldntParseSurvey(good_len)));
}

#[test]
fn empty_dat_file_is_no_failure() {
    let surveys = Survey::parse_dat_file(b"  \r\n \x0c ").unwrap();
    assert!(surveys.is_empty());
}

#[test]
fn date_out_of_range_fails() {
    let mut text = Vec::new();
    text.extend_from_slice(b"Cave\r\nSURVEY NAME: A1\r\nSURVEY DATE: 300 2 1979\r\n");
    text.extend_from_slice(b"SURVEY TEAM:\r\nTeam\r\n");
    text.extend_from_slice(b"DECLINATION: 1.00 FORMAT: D\r\nFROM TO\r\n\x0c\r\n");
    assert_eq!(Survey::parse_survey(&text), Err(Error::CouldntParseSurvey(0)));
}

#[test]
fn show_string_shortens_and_trims() {
    assert_eq!(compass_data::show_string(b"  Fulford Cave"), b"Fulfor".to_vec());
    assert_eq!(compass_data::show_string(b"AB"), b"AB".to_vec());
    assert_eq!(compass_data::show_string(b"        "), Vec::<u8>::new());
}
