use tiny_player::clock::{clock_text, split_clock, PlayClock};
use tiny_player::timing::{
    duration_to_ticks, pts_to_millis, pts_to_seconds, ticks_per_second, Rational,
};

#[test]
fn millis_and_seconds_of_timestamps() {
    let tb = Rational::new(1, 90000);
    assert_eq!(pts_to_millis(90000, tb), Some(1000));
    assert_eq!(pts_to_millis(-45000, tb), Some(-500));
    assert_eq!(pts_to_millis(1, tb), Some(0));
    assert_eq!(pts_to_seconds(180000, tb), Some(2));
    assert_eq!(pts_to_seconds(-89999, tb), Some(0));
    assert_eq!(pts_to_millis(i64::MAX, tb), None);
    assert_eq!(pts_to_millis(5, Rational::new(1, 0)), None);
    assert_eq!(ticks_per_second(Rational::new(1, 48000)), Some(48000));
    assert_eq!(ticks_per_second(Rational::new(0, 48000)), None);
}

#[test]
fn durations_in_ticks() {
    // 10 seconds of audio at 48 kHz.
    assert_eq!(duration_to_ticks(10_000_000, Rational::new(1, 48000)), Some(480000));
    assert_eq!(duration_to_ticks(1_500_000, Rational::new(1, 1000)), Some(1500));
    assert_eq!(duration_to_ticks(i64::MAX, Rational::new(1, 48000)), None);
    assert_eq!(duration_to_ticks(1, Rational::new(0, 1)), None);
}

#[test]
fn split_clock_values() {
    assert_eq!(split_clock(0), (0, 0, 0));
    assert_eq!(split_clock(3723), (1, 2, 3));
    assert_eq!(split_clock(86399), (23, 59, 59));
    assert_eq!(split_clock(-5), (0, 0, 251));
}

#[test]
fn clock_text_renders_hms() {
    assert_eq!(clock_text(1, 2, 3), Some("01:02:03".to_string()));
    assert_eq!(clock_text(23, 59, 59), Some("23:59:59".to_string()));
    assert_eq!(clock_text(24, 0, 0), None);
    assert_eq!(clock_text(0, 60, 0), None);
}

#[test]
fn play_clock_updates_only_on_change() {
    let tb = Rational::new(1, 1000);
    let end = "00:10:00".to_string();
    let mut clock = PlayClock::new();
    assert!(clock.update_time_and_time_text(500, tb, &end));
    assert_eq!(clock.time_text, "");
    assert!(clock.update_time_and_time_text(61_000, tb, &end));
    assert_eq!(clock.time_text, "00:01:01|00:10:00");
    assert_eq!(clock.play_time, (0, 1, 1));
    assert!(clock.update_time_and_time_text(61_900, tb, &"x".to_string()));
    assert_eq!(clock.time_text, "00:01:01|00:10:00");
    assert!(!clock.update_time_and_time_text(i64::MAX, Rational::new(2, 1), &end));
}
