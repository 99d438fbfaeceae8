use dash2gps::timecode::{format_datetime_seconds, frame_timestamp, parse_date, DateError};

#[test]
fn test_parse_date() {
    let parsed = parse_date(r"(\d{6}_\d{6})", "%y%m%d_%H%M%S", "201124_174859_011_LO.MOV").unwrap();

    assert_eq!(format_datetime_seconds(parsed).unwrap(), "2020-11-24 17:48:59");
}

#[test]
fn invalid_pattern_is_reported() {
    let result = parse_date("(", "%y%m%d_%H%M%S", "201124_174859_011_LO.MOV");
    assert_eq!(result, Err(DateError::InvalidPattern));
}

#[test]
fn unmatched_pattern_is_reported() {
    let result = parse_date(r"(\d{6}_\d{6})", "%y%m%d_%H%M%S", "holiday.MOV");
    assert_eq!(result, Err(DateError::NoTimestampInText));
}

#[test]
fn undecodable_match_is_reported() {
    let result = parse_date(r"(\d{6}_\d{6})", "%Y-%m-%d", "201124_174859_011_LO.MOV");
    assert_eq!(result, Err(DateError::UnrecognizedTime));
}

#[test]
fn frame_timestamp_advances_by_interval() {
    assert_eq!(frame_timestamp(1000, 0, 10), Some(1000));
    assert_eq!(frame_timestamp(1000, 5, 10), Some(1050));
    assert_eq!(frame_timestamp(i64::MAX, 1, 1), None);
}

#[test]
fn frame_time_renders_from_start() {
    let start = parse_date(r"(\d{6}_\d{6})", "%y%m%d_%H%M%S", "201124_174859_011_LO.MOV").unwrap();
    let at = frame_timestamp(start, 2, 10).unwrap();
    assert_eq!(format_datetime_seconds(at).unwrap(), "2020-11-24 17:49:19");
}
