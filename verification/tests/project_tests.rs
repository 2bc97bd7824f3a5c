//! Tests of the project-directive parser: the minimal end-to-end
//! project, every datum name, folder nesting, fixed stations and the
//! exact unit conversions.
use compass_data::{
    parse_compass_project, Datum, Decimal, EastNorthElevation, Error, Project, UtmLocation,
};

#[test]
fn parse_format_examples() {
    let mut text = String::from(
        "@398315.500,4483735.300,3048.000,13,0.780;\r\n&North American 1983;\r\n$17;\r\n",
    );
    for k in 0..17 {
        text.push_str(&format!("#cave{}.dat;\r\n", k));
    }
    let (project, consumed) = parse_compass_project(text.as_bytes()).unwrap();
    assert_eq!(consumed, text.len());
    let ene = project.base_location.east_north_elevation;
    assert_eq!(ene.easting, 39_831_550_000_000);
    assert_eq!(ene.northing, 448_373_530_000_000);
    assert_eq!(ene.up, 304_800_000_000);
    assert_eq!(project.base_location.zone, 13);
    assert_eq!(project.base_location.convergence_angle, Decimal::from_units(7_800));
    assert_eq!(project.datum, Datum::NorthAmerican1983);
    assert_eq!(project.utm_zone, Some(17));
    assert_eq!(project.survey_files.len(), 17);
}

#[test]
fn parse_compass_sample_project() {
    let text = b"@357715.717,4372837.574,3048,13,-1.050;&North American 1983;#Fulford.dat;\n";
    let (project, consumed) = parse_compass_project(text).unwrap();
    assert_eq!(consumed, text.len());
    let ene = project.base_location.east_north_elevation;
    // 357715.717 meters, in hundred-millionths of a meter
    assert_eq!(ene.easting, 35_771_571_700_000);
    assert_eq!(ene.northing, 437_283_757_400_000);
    assert_eq!(ene.up, 304_800_000_000);
    assert_eq!(project.base_location.zone, 13);
    assert_eq!(project.base_location.convergence_angle, Decimal::from_units(-10_500));
    assert_eq!(project.datum, Datum::NorthAmerican1983);
    assert_eq!(project.utm_zone, None);
    assert_eq!(project.survey_files.len(), 1);
    assert_eq!(project.survey_files[0].file_path, b"Fulford.dat".to_vec());
    assert!(project.survey_files[0].project_stations.is_empty());
    assert!(project.survey_files[0].surveys.is_empty());
}

#[test]
fn every_datum_name_parses_to_its_variant() {
    let names: [(&str, Datum); 23] = [
        ("Adindan", Datum::Adindan),
        ("Arc 1950", Datum::Arc1950),
        ("Arc 1960", Datum::Arc1960),
        ("Australian 1966", Datum::Australian1966),
        ("Australian 1984", Datum::Australian1984),
        ("Camp Area Astro", Datum::CampAreaAstro),
        ("Cape", Datum::Cape),
        ("European 1950", Datum::European1950),
        ("European 1979", Datum::European1979),
        ("Geodetic 1949", Datum::Geodetic1949),
        ("HongKong 1963", Datum::HongKong1963),
        ("HuTzuShan", Datum::HuTzuShan),
        ("Indian", Datum::Indian),
        ("North American 1927", Datum::NorthAmerican1927),
        ("North American 1983", Datum::NorthAmerican1983),
        ("Oman", Datum::Oman),
        ("Ordinance Survey 1936", Datum::OrdinanceSurvey1936),
        ("Pulkovo 1942", Datum::Pulkovo1942),
        ("South American 1956", Datum::SouthAmerican1956),
        ("South American 1969", Datum::SouthAmerican1969),
        ("Tokyo", Datum::Tokyo),
        ("Wgs 1972", Datum::Wgs1972),
        ("Wgs 1984", Datum::Wgs1984),
    ];
    for (name, variant) in names.iter() {
        let text = format!("@1,2,3,4,5;&{};", name);
        let (project, consumed) = parse_compass_project(text.as_bytes()).unwrap();
        assert_eq!(consumed, text.len());
        assert_eq!(project.datum, *variant);
    }
}

#[test]
fn unknown_datum_name_fails() {
    let text = b"@1,2,3,4,5;&Wgs 1999;";
    let result = parse_compass_project(text);
    // the datum directive does not match, so the datum stays unseen
    assert_eq!(result, Err(Error::CouldntParseProject(11)));
}

#[test]
fn missing_base_location_fails() {
    let result = parse_compass_project(b"&Tokyo;\r\n");
    assert!(matches!(result, Err(Error::CouldntParseProject(_))));
}

#[test]
fn balanced_folders_parse() {
    let text = b"@1,2,3,4,5;&Tokyo;[Crystal;#a.dat;[Deep;#b.dat;];];#c.dat;";
    let (project, consumed) = parse_compass_project(text).unwrap();
    assert_eq!(consumed, text.len());
    assert_eq!(project.survey_files.len(), 3);
    assert_eq!(project.survey_files[0].file_path, b"a.dat".to_vec());
    assert_eq!(project.survey_files[1].file_path, b"b.dat".to_vec());
    assert_eq!(project.survey_files[2].file_path, b"c.dat".to_vec());
}

#[test]
fn lone_folder_pop_fails() {
    let text = b"@1,2,3,4,5;&Tokyo;];";
    assert_eq!(parse_compass_project(text), Err(Error::CouldntParseProject(18)));
}

#[test]
fn pop_before_any_push_fails_even_at_the_front() {
    let text = b"];@1,2,3,4,5;&Tokyo;";
    assert_eq!(parse_compass_project(text), Err(Error::CouldntParseProject(0)));
}

#[test]
fn utm_zone_override_is_kept() {
    let text = b"@1,2,3,4,5;&Tokyo;$17;";
    let (project, _) = parse_compass_project(text).unwrap();
    assert_eq!(project.utm_zone, Some(17));
}

#[test]
fn comments_are_skipped() {
    let text = b"/a comment\n@1,2,3,4,5;\n/more\n&Tokyo;";
    let (project, _) = parse_compass_project(text).unwrap();
    assert_eq!(project.datum, Datum::Tokyo);
}

#[test]
fn station_fix_in_meters_is_exact() {
    let text = b"@1,2,3,4,5;&Tokyo;#a.dat,ST1[m,1.5,2,3],ST2;";
    let (project, _) = parse_compass_project(text).unwrap();
    let stations = &project.survey_files[0].project_stations;
    assert_eq!(stations.len(), 2);
    assert_eq!(stations[0].name, b"ST1".to_vec());
    let fix = stations[0].location.unwrap();
    // 1.5 meters = 150_000_000 hundred-millionths
    assert_eq!(fix.easting, 150_000_000);
    assert_eq!(fix.northing, 200_000_000);
    assert_eq!(fix.up, 300_000_000);
    assert_eq!(stations[1].name, b"ST2".to_vec());
    assert_eq!(stations[1].location, None);
}

#[test]
fn station_fix_in_feet_is_exactly_point_3048() {
    let text = b"@1,2,3,4,5;&Tokyo;#a.dat,ST1[F,1,2,10];";
    let (project, _) = parse_compass_project(text).unwrap();
    let fix = project.survey_files[0].project_stations[0].location.unwrap();
    // 1 foot = 0.3048 meters = 30_480_000 hundred-millionths, exactly
    assert_eq!(fix.easting, 30_480_000);
    assert_eq!(fix.northing, 60_960_000);
    assert_eq!(fix.up, 304_800_000);
}

#[test]
fn programatic_creation() {
    let east_north_elevation = EastNorthElevation::from_meters(
        Decimal::from_int(336_083),
        Decimal::from_int(3_301_724),
        Decimal::from_int(6),
    );
    let new_project = Project::new(
        b"Ginnie.mak".to_vec(),
        UtmLocation { east_north_elevation, zone: 17, convergence_angle: Decimal::from_units(12_573) },
        Datum::Wgs1984,
        None,
    );
    assert!(new_project.survey_files.is_empty());
}

#[test]
fn trailing_garbage_keeps_the_parse_result() {
    let text = b"@1,2,3,4,5;&Tokyo;%nonsense";
    let (project, consumed) = parse_compass_project(text).unwrap();
    assert_eq!(project.datum, Datum::Tokyo);
    assert_eq!(consumed, 18);
}

#[test]
fn station_name_characters() {
    assert!(compass_data::is_valid_station_name_char('A'));
    assert!(compass_data::is_valid_station_name_char('7'));
    assert!(compass_data::is_valid_station_name_char('_'));
    assert!(compass_data::is_valid_station_name_char('-'));
    assert!(compass_data::is_valid_station_name_char('\''));
    assert!(compass_data::is_valid_station_name_char('*'));
    assert!(!compass_data::is_valid_station_name_char(' '));
    assert!(!compass_data::is_valid_station_name_char(';'));
    assert!(!compass_data::is_valid_station_name_char('é'));
}

#[test]
fn load_survey_files_attaches_parsed_surveys() {
    let text = b"@1,2,3,4,5;&Tokyo;#a.dat;#b.dat;";
    let (project, _) = parse_compass_project(text).unwrap();
    let texts: Vec<Vec<u8>> = vec![b"  \r\n".to_vec(), Vec::new()];
    let loaded = project.load_survey_files(&texts).unwrap();
    assert_eq!(loaded.survey_files.len(), 2);
    assert!(loaded.survey_files[0].surveys.is_empty());
    assert!(loaded.survey_files[1].surveys.is_empty());
}

#[test]
fn load_survey_files_reports_the_bad_file() {
    let text = b"@1,2,3,4,5;&Tokyo;#a.dat;";
    let (project, _) = parse_compass_project(text).unwrap();
    let texts: Vec<Vec<u8>> = vec![b"not a survey".to_vec()];
    let result = project.load_survey_files(&texts);
    assert_eq!(result, Err(Error::CouldntParseSurvey(0)));
}
