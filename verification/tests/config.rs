use analog::config::{has_short_exponents, window_from, AppConfig, ConfigError, MAX_EXPONENT_DIGITS};
use analog::window::{Span, TimeWindow, UtcInstant};

fn config(duration: &str) -> AppConfig {
    AppConfig { duration: duration.to_string(), ..AppConfig::default() }
}

fn instant(secs: i64, nanos: u32) -> UtcInstant {
    UtcInstant { secs, nanos }
}

#[test]
fn the_default_settings_are_those_of_a_run_without_arguments() {
    let settings = AppConfig::default();
    assert_eq!(settings.region, Some("us-east-1".to_string()));
    assert_eq!(settings.profile, Some("default".to_string()));
    assert_eq!(settings.log_groups, Some(vec!["all".to_string()]));
    assert_eq!(settings.duration, "1h");
    assert_eq!(settings.sqlite_path, "logs.db");
}

#[test]
fn one_hour_back_from_now() {
    let window = config("1h").get_duration(&instant(1_700_000_000, 123_456_789));
    assert_eq!(window, Ok(TimeWindow { start: 1_699_996_400_123, end: 1_700_000_000_123 }));
}

#[test]
fn two_days_back_from_now() {
    let window = config("2days").get_duration(&instant(1_700_000_000, 0));
    assert_eq!(window, Ok(TimeWindow { start: 1_699_827_200_000, end: 1_700_000_000_000 }));
}

#[test]
fn a_bare_number_is_a_number_of_seconds() {
    let window = config("90").get_duration(&instant(100, 0));
    assert_eq!(window, Ok(TimeWindow { start: 10_000, end: 100_000 }));
}

#[test]
fn several_units_add_up() {
    let window = config("1h 30min 15s").get_duration(&instant(10_000, 0));
    assert_eq!(window, Ok(TimeWindow { start: 10_000_000 - 5_415_000, end: 10_000_000 }));
}

#[test]
fn a_short_exponent_is_evaluated() {
    let window = config("1e3 ms").get_duration(&instant(50, 0));
    assert_eq!(window, Ok(TimeWindow { start: 49_000, end: 50_000 }));
}

#[test]
fn the_start_is_rounded_after_the_span_was_taken_off() {
    let window = config("1500us").get_duration(&instant(10, 1_400_000));
    assert_eq!(window, Ok(TimeWindow { start: 9_999, end: 10_001 }));
}

#[test]
fn a_window_before_1970_is_rounded_towards_the_past() {
    let window = config("1ns").get_duration(&instant(-1, 500_000_000));
    assert_eq!(window, Ok(TimeWindow { start: -501, end: -500 }));
    let window = config("1s").get_duration(&instant(-1, 0));
    assert_eq!(window, Ok(TimeWindow { start: -2_000, end: -1_000 }));
}

#[test]
fn a_window_of_no_length_begins_where_it_ends() {
    let window = config("0s").get_duration(&instant(7, 999_999));
    assert_eq!(window, Ok(TimeWindow { start: 7_000, end: 7_000 }));
}

#[test]
fn what_is_no_duration_is_refused_with_the_expression() {
    for text in ["abc", "", "1 parsec", "h"] {
        match config(text).get_duration(&instant(0, 0)) {
            Err(ConfigError::InvalidDuration { input, reason }) => {
                assert_eq!(input, text);
                assert!(!reason.is_empty());
            }
            other => panic!("{:?}", other),
        }
    }
}

#[test]
fn a_long_exponent_is_refused_unread() {
    for text in ["1e12345 s", "2.5E+99999 ms", "1e-00001 h", "3e999999999999999999999 ns"] {
        assert_eq!(
            config(text).get_duration(&instant(0, 0)),
            Err(ConfigError::ExponentTooLong { input: text.to_string() })
        );
    }
}

#[test]
fn a_span_that_the_parser_cannot_hold_is_no_duration() {
    match config("1e1234 s").get_duration(&instant(0, 0)) {
        Err(ConfigError::InvalidDuration { input, .. }) => assert_eq!(input, "1e1234 s"),
        other => panic!("{:?}", other),
    }
}

#[test]
fn a_window_whose_start_cannot_be_held_is_refused() {
    let window = config("18446744073709551615").get_duration(&instant(0, 0));
    assert_eq!(window, Err(ConfigError::WindowOutOfRange));
}

#[test]
fn a_window_whose_end_cannot_be_held_is_refused() {
    let never = TimeWindow::ending_at(&instant(i64::MAX, 0), &Span { secs: 0, nanos: 0 });
    assert_eq!(never, None);
    let long_ago = TimeWindow::ending_at(&instant(i64::MIN, 0), &Span { secs: 0, nanos: 0 });
    assert_eq!(long_ago, None);
}

#[test]
fn the_widest_windows_that_can_be_held() {
    let last = i64::MAX / 1000;
    let window = TimeWindow::ending_at(&instant(last, 807_999_999), &Span { secs: 0, nanos: 0 });
    assert_eq!(window, Some(TimeWindow { start: i64::MAX, end: i64::MAX }));
    let beyond = TimeWindow::ending_at(&instant(last, 808_000_000), &Span { secs: 0, nanos: 0 });
    assert_eq!(beyond, None);
    let first = TimeWindow::ending_at(
        &instant(0, 0),
        &Span { secs: 9_223_372_036_854_775, nanos: 808_000_000 },
    );
    assert_eq!(first, Some(TimeWindow { start: i64::MIN, end: 0 }));
    let before = TimeWindow::ending_at(
        &instant(0, 0),
        &Span { secs: 9_223_372_036_854_775, nanos: 808_000_001 },
    );
    assert_eq!(before, None);
}

#[test]
fn a_window_ends_now_and_begins_a_span_earlier() {
    let window = TimeWindow::ending_at(&instant(1_000, 250_000_000), &Span { secs: 1, nanos: 500_000_000 });
    assert_eq!(window, Some(TimeWindow { start: 998_750, end: 1_000_250 }));
}

#[test]
fn a_parsed_span_gives_the_window_and_a_refusal_is_handed_on() {
    let now = instant(100, 0);
    assert_eq!(
        window_from("10s", Ok(Span { secs: 10, nanos: 0 }), &now),
        Ok(TimeWindow { start: 90_000, end: 100_000 })
    );
    assert_eq!(
        window_from("soon", Err("no value".to_string()), &now),
        Err(ConfigError::InvalidDuration {
            input: "soon".to_string(),
            reason: "no value".to_string()
        })
    );
    assert_eq!(
        window_from("long", Ok(Span { secs: u64::MAX, nanos: 0 }), &now),
        Err(ConfigError::WindowOutOfRange)
    );
}

#[test]
fn exponents_of_up_to_four_digits_are_short() {
    assert_eq!(MAX_EXPONENT_DIGITS, 4);
    for text in ["", "1h", "2days", "1e1234 s", "1e+1234s", "1E-9999", "seven", "1e", "e", "1e+", "eeeee"] {
        assert!(has_short_exponents(text), "{}", text);
    }
    for text in ["1e12345", "1E12345 s", "1e+12345", "1e-12345", "e00000", "1h 2e123456 s", "xe99999"] {
        assert!(!has_short_exponents(text), "{}", text);
    }
}

#[test]
fn only_the_digits_zero_to_nine_count_as_digits_of_an_exponent() {
    assert!(has_short_exponents("1e1234\u{0661}"));
    assert!(has_short_exponents("1e\u{0661}2345"));
    assert!(has_short_exponents("1e++12345"));
    assert!(!has_short_exponents("\u{00e9}e12345"));
}

#[test]
fn the_requested_groups_are_those_of_the_settings() {
    let asked = AppConfig {
        log_groups: Some(vec!["A".to_string(), "B".to_string()]),
        ..AppConfig::default()
    };
    assert_eq!(asked.requested_log_groups(), vec!["A".to_string(), "B".to_string()]);
    let silent = AppConfig { log_groups: None, ..AppConfig::default() };
    assert_eq!(silent.requested_log_groups(), Vec::<String>::new());
    assert_eq!(AppConfig::default().requested_log_groups(), vec!["all".to_string()]);
}
