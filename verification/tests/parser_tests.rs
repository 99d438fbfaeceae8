use dash2gps::parser::{
    parse_coordinate_from_lines, Coordinate, CoordinateDms, DirectionLat, DirectionLon, ParseError,
};

const INPUT_LINES: &str = r#"N51°25 48” E0°19 20” 51MPH 12:42:29 06/06/2021
        N51°25 45” E0° 19 30” 48MPH 12:42:39 06/06/2021
        N51°25 40” E0° 19 40” 55MPH 12:42:49 06/06/2021
        N51°25 35” E0° 19 51” 60MPH 12:42:59 06/06/2021
        N51°25 30” EO° 20’ 2” 64MPH 12:43:09 06/06/2021
        N51°25 24” EO° 20" 14” 62MPH 12:43:19 06/06/2021
        N51°25 18” EO° 20" 25” 62MPH 12:43:29 06/06/2021
        N51°25 13” EO° 20" 37” 62MPH 12:43:39 06/06/2021
        N51°25" 9” EQ° 20" 49” 53MPH 12:43:49 06/06/2021
        N51°25 6” E021’ 0” 51MPH 12:43:59 06/06/2021
        N51°25 3” EQ° 217127 57MPH 12:44:09 06/06/2021
        N51°25 0” EQ° 21" 24” 53MPH 12:44:19 06/06/2021
        N51°24' 56” EO° 21" 37" 63MPH 12:44:29 06/06/2021
        N51°24 51” EQ° 21" 49" 55MPH 12:44:39 06/06/2021
        N51°24" 48" EQ°22' 0” 50MPH 12:44:49 06/06/2021
        N51°24’ 45” EO°22' 10” 50MPH 12:44:59 06/06/2021
        N51°24' 42" EO°22' 20” 42MPH 12:45:09 06/06/2021
        N51°24’ 39” E0°22 28” 38MPH 12:45:19 06/06/2021
        N51°24’ 37” EO0°22' 36" 38MPH 12:45:29 06/06/2021
        N51°24" 34” EQ°22' 45” 42MPH 12:45:39 06/06/2021
        N51°24’ 32" EO° 22’ 54” 44MPH 12:45:49 06/06/2021
        N51°24’ 30” EQ°23 4” 44MPH 12:45:59 06/06/2021
        N51°24’ 29” EO°23 14” 43MPH 12:46:09 06/06/2021
        N51°24’ 26” EO0°23' 23” 45MPH 12:46:19 06/06/2021
        N51°24’ 23" EO° 23 33” 46MPH 12:46:29 06/06/2021
        N51°24’ 20” EQ°23 42” 47MPH 12:46:39 06/06/2021
        N51°24’ 17” EQ°23 52” 44MPH 12:46:49 06/06/2021
        N51°24’ 14” EQ" 24" 1” 46MPH 12:46:59 06/06/2021
        N51°24’ 12 EQ° 24.40. Z7NPY 12:47:09 06/06/2021
        N51°24" 9” EO°24' 21” 47MPH 12:47:19 06/06/2021
        
        night
        N51°31 44” E0°9' 19” 5MPH 17:33:56 48/11/2020 Cy
        N51°31" 44” £0: F718” 6MPH 17°34:06-24/11/2020 oF
        1 N51°31" 44” EOF 17" IMPH 17:34:16_24/11/2020
        ——_ N51°317 44” EQ°Q' 17% 14MPH 17:34:26 4711/2020 w+ & a
        N51°31" 46" E0° 9" 13” 27MPH 17:34:36, 24/11/2020 Bl
        “oe N51°317497 EO°9' 7” 28MPH '17:34:45 24/1 WeHROS . / « - oT
        N51°31" 50" EO°9' 2” 28MPH 17:34:56 24/1¥/2020
        N51°31/ 52” EQ°8 57 25MPH 17.2356 24/11/2020 .. é >
        " FE + v 4 FY
        N51°31’ 53” E0°& 547". 11H: 35: 16724/11 /202§ .- =:
        N51°31" 53" E0°8' 54” OMPNE:35:26724/11/2028  & = * ~~ To
        = _ 51°31" 53" E0°8' 54”. OMPIWSE 35:36" 24/11/2028 & ~*~ To
        = _ 51°31" 53" E0°8' 54” OMI :35:46724/11/2028 & ~~ eo
        = 51°31" 53" E0°8' 54” OMPHR:35:56724/11/2028 & ~~ 7
        = _MN51°31" 53" E0°8 54”. OMPHR:36:06724/11/2029 & «~~ = ve
        = _ 51°31 53" E0°8 54” OMPHE:36:16724/T1/202 & = -~ LEE
        - N51°31" 53” E0°8' 54” OMPH 47:36:26 24/17/2026 _# : :
        N51°31" 53" E0°8' 51" 26M 17:36:36724/1192028% +g .
        ~~ N51°31"53" E0°8 45" 24MPH 17:36:46 24/17/20200my.,
        N51°31" 52" E0°8' 40" 26MPH 17:36:56 24/11/2020, iF ~.
        N51°31" 52" E0°8' 35” 26MPH 17:87:08 24/11/2020
        N51°31" 52” EQ°8' 28” 20H 17:37:16 24/1THE0 wg
        N51°31" 51” E08’ 26” OMPH T(jl*26 2%/1172020 o E
        } N51°31” 51” E08 26” OMPH Tggr:36 2%/11/2020 po
        N51°31/ 51" F0°8' 26” OMPH T7¢gT:46 27/11/2020 - -e
        N51°31" 51% E0°8'\25", 13MPH 17:37:56 24/T1/2020 - -', =
        © N51°317 49” EO°8 22”, .17MPH 17:38:06 24/11/2020 .
        N51°31 49” E0°8’ 207. OMPH 17:3§926 22/11/2020g co a :
        N51°31" 49” E0°8' 207 OMRH 17:38:36 24/11/2020w oo
        : N51%317 48” EO" 8 20” 8MPH 17:38:46 24/11/2020 )
        "#;

#[test]
fn coordinate_dms() {
    let result = CoordinateDms::try_parse("N51°25 48” E0°19 20” 51MPH 12:42:29 06/06/2021");

    assert!(matches!(result, Ok(_)));
}

#[test]
fn coordinate_dms_lines() {
    let parsed = parse_coordinate_from_lines(INPUT_LINES)
        .into_iter()
        .map(|c| c.to_decimal())
        .collect::<Vec<_>>();

    assert_eq!(parsed.len(), 40); // ~60 (target)
}

#[test]
fn end_to_end_scenario_line() {
    let fix = CoordinateDms::try_parse("N51°25 48” E0°19 20” 51MPH 12:42:29 06/06/2021").unwrap();

    assert_eq!(fix.lat_direction, DirectionLat::North);
    assert_eq!(fix.lat_degree, 51);
    assert_eq!(fix.lat_min, 25);
    assert_eq!(fix.lat_sec, 48);
    assert_eq!(fix.lon_direction, DirectionLon::East);
    assert_eq!(fix.lon_degree, 0);
    assert_eq!(fix.lon_min, 19);
    assert_eq!(fix.lon_sec, 20);

    let decimal = Coordinate::DegreeMinSec(fix).to_decimal();
    assert_eq!(decimal, "51.4300, 0.3222");
}

#[test]
fn zero_like_letters_are_normalized() {
    let fix = CoordinateDms::try_parse("N51°25 30” EO° 20’ 2” 64MPH 12:43:09 06/06/2021").unwrap();
    assert_eq!(fix.lon_degree, 0);
    assert_eq!(fix.lon_min, 20);
    assert_eq!(fix.lon_sec, 2);

    let fix = CoordinateDms::try_parse("N51°25\" 9” EQ° 20\" 49” 53MPH 12:43:49 06/06/2021");
    assert!(fix.is_ok());
}

#[test]
fn noisy_junk_between_fields_is_skipped() {
    let fix = CoordinateDms::try_parse("N51°24’ 12 EQ° 24.40. Z7NPY 12:47:09 06/06/2021").unwrap();
    assert_eq!(fix.lat_degree, 51);
    assert_eq!(fix.lat_min, 24);
    assert_eq!(fix.lat_sec, 12);
    assert_eq!(fix.lon_degree, 0);
    assert_eq!(fix.lon_min, 24);
    assert_eq!(fix.lon_sec, 40);
}

#[test]
fn missing_longitude_yields_no_match() {
    let result = CoordinateDms::try_parse("N51°25 48” 51MPH 12:42:29");
    assert_eq!(result, Err(ParseError::NoMatch));
}

#[test]
fn missing_degree_marker_yields_no_match() {
    let result = CoordinateDms::try_parse("N51°24’ 14” EQ\" 24\" 1” 46MPH 12:46:59 06/06/2021");
    assert_eq!(result, Err(ParseError::NoMatch));
}

#[test]
fn oversized_field_is_out_of_range() {
    let result = CoordinateDms::try_parse("N51°25 3” EQ° 217127 57MPH 12:44:09 06/06/2021");
    assert_eq!(result, Err(ParseError::FieldOutOfRange));
}

#[test]
fn empty_text_yields_no_fix() {
    assert_eq!(parse_coordinate_from_lines("").len(), 0);
    assert_eq!(parse_coordinate_from_lines("night").len(), 0);
}

#[test]
fn each_matching_line_yields_one_fix() {
    let coords = parse_coordinate_from_lines(
        "N51°25 48” E0°19 20” 51MPH\nnoise\nN51°25 45” E0° 19 30” 48MPH",
    );
    assert_eq!(coords.len(), 2);
}

#[test]
fn south_west_hemispheres_negate() {
    let fix = CoordinateDms::try_parse("S51°25 48” W0°19 20”").unwrap();
    assert_eq!(fix.lat_direction, DirectionLat::South);
    assert_eq!(fix.lon_direction, DirectionLon::West);

    let decimal = Coordinate::DegreeMinSec(fix).to_decimal();
    assert_eq!(decimal, "-51.4300, -0.3222");
}

#[test]
fn template_substitutes_both_placeholders() {
    let fix = CoordinateDms::try_parse("N51°25 48” E0°19 20”").unwrap();
    let line = Coordinate::DegreeMinSec(fix).to_decimal_with_format("{lat};{lon};{lat}");
    assert_eq!(line, "51.4300;0.3222;51.4300");

    let kept = Coordinate::DegreeMinSec(fix).to_decimal_with_format("{time} {lat}");
    assert_eq!(kept, "{time} 51.4300");
}
