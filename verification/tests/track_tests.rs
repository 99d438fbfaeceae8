use dash2gps::parser::{Coordinate, CoordinateDms};
use dash2gps::track::{
    format_output_line, isqrt, render_track_line, Sequencer, SpeedSample, TrackAssembler,
};

fn fix_from(line: &str) -> Coordinate {
    Coordinate::DegreeMinSec(CoordinateDms::try_parse(line).unwrap())
}

#[test]
fn isqrt_exact_and_floor() {
    assert_eq!(isqrt(0), 0);
    assert_eq!(isqrt(1), 1);
    assert_eq!(isqrt(3), 1);
    assert_eq!(isqrt(4), 2);
    assert_eq!(isqrt(109), 10);
    assert_eq!(isqrt(4_000_000_000_000), 2_000_000);
}

#[test]
fn first_fix_has_no_speed() {
    let mut assembler = TrackAssembler::new(10);
    let coords = vec![fix_from("N51°25 48” E0°19 20”")];
    let sample = assembler.step(&coords).unwrap();
    assert_eq!(sample.duration_sec, 10);
    assert_eq!(sample.speed, None);
}

#[test]
fn frames_without_fix_accrue_duration() {
    // Speed monotonic accumulation: three empty frames between two fixes mean
    // the second fix measures over (3 + 1) sampling intervals.
    let mut assembler = TrackAssembler::new(10);
    let first = vec![fix_from("N51°25 48” E0°19 20”")];
    assembler.step(&first).unwrap();

    let empty: Vec<Coordinate> = Vec::new();
    assert!(assembler.step(&empty).is_none());
    assert!(assembler.step(&empty).is_none());
    assert!(assembler.step(&empty).is_none());

    // lat 51*3600+25*60+48 = 185148 -> 185145: dlat -3
    // lon 19*60+20 = 1160 -> 1170: dlon 10; distance isqrt(109) = 10
    let second = vec![fix_from("N51°25 45” E0° 19 30”")];
    let sample = assembler.step(&second).unwrap();
    assert_eq!(sample.duration_sec, 40);
    assert_eq!(sample.speed, Some(10 * 1000 / 40));
}

#[test]
fn fix_resets_accrual() {
    let mut assembler = TrackAssembler::new(10);
    let a = vec![fix_from("N51°25 48” E0°19 20”")];
    let b = vec![fix_from("N51°25 45” E0° 19 30”")];
    assembler.step(&a).unwrap();
    assembler.step(&b).unwrap();
    // Immediately after a fix the next fix measures over one interval only.
    let sample = assembler.step(&a).unwrap();
    assert_eq!(sample.duration_sec, 10);
    assert_eq!(sample.speed, Some(10 * 1000 / 10));
}

#[test]
fn last_fix_on_frame_wins() {
    let mut assembler = TrackAssembler::new(10);
    let coords = vec![
        fix_from("N51°25 48” E0°19 20”"),
        fix_from("N51°25 45” E0° 19 30”"),
    ];
    assembler.step(&coords).unwrap();
    // The next segment measures from the frame's last fix, so from the same
    // position: zero distance.
    let again = vec![fix_from("N51°25 45” E0° 19 30”")];
    let sample = assembler.step(&again).unwrap();
    assert_eq!(sample.speed, Some(0));
}

#[test]
fn render_joins_fixes_with_separator() {
    let coords = vec![
        fix_from("N51°25 48” E0°19 20”"),
        fix_from("S51°25 48” W0°19 20”"),
    ];
    let line = render_track_line(&coords, "{lat},{lon}");
    assert_eq!(line, "51.4300,0.3222|-51.4300,-0.3222");

    let empty: Vec<Coordinate> = Vec::new();
    assert_eq!(render_track_line(&empty, "{lat},{lon}"), "");
}

#[test]
fn output_line_carries_time_and_speed() {
    let time = String::from("2020-11-24 17:48:59");
    let line = format_output_line(Some(&time), Some(250), "51.4300,0.3222");
    assert_eq!(line, "2020-11-24 17:48:59 250| 51.4300,0.3222");

    let line = format_output_line(Some(&time), None, "51.4300,0.3222");
    assert_eq!(line, "2020-11-24 17:48:59 -| 51.4300,0.3222");

    let line = format_output_line(None, Some(250), "51.4300,0.3222");
    assert_eq!(line, "51.4300,0.3222");
}

#[test]
fn sequencer_releases_in_frame_order() {
    let mut seq = Sequencer::new(0);
    assert!(seq.pop_ready().is_none());

    seq.push(2, vec![fix_from("N51°25 48” E0°19 20”")]);
    assert!(seq.pop_ready().is_none());
    assert!(seq.holds_index(2));
    assert!(!seq.holds_index(0));

    seq.push(0, Vec::new());
    seq.push(1, vec![fix_from("S51°25 48” W0°19 20”")]);

    assert_eq!(seq.pop_ready().unwrap().len(), 0);
    assert_eq!(seq.next, 1);
    let second = seq.pop_ready().unwrap();
    assert_eq!(second.len(), 1);
    assert_eq!(second[0].to_decimal(), "-51.4300, -0.3222");
    assert_eq!(seq.pop_ready().unwrap().len(), 1);
    assert!(seq.pop_ready().is_none());
    assert_eq!(seq.next, 3);
}

#[test]
fn speed_sample_equality() {
    let a = SpeedSample { duration_sec: 40, speed: Some(250) };
    let b = SpeedSample { duration_sec: 40, speed: Some(250) };
    assert_eq!(a, b);
}
