use analog::utilities::{datetime_or_epoch, millis_to_datetime, UtcDateTime};

fn at(
    year: i32,
    month: u32,
    day: u32,
    hour: u32,
    minute: u32,
    second: u32,
    millisecond: u32,
) -> UtcDateTime {
    UtcDateTime { year, month, day, hour, minute, second, millisecond }
}

#[test]
fn zero_milliseconds_are_the_start_of_1970() {
    assert_eq!(millis_to_datetime(0), at(1970, 1, 1, 0, 0, 0, 0));
}

#[test]
fn milliseconds_are_read_as_date_and_time() {
    assert_eq!(millis_to_datetime(1_000_000_000_555), at(2001, 9, 9, 1, 46, 40, 555));
    assert_eq!(millis_to_datetime(947_638_923_004), at(2000, 1, 12, 1, 2, 3, 4));
    assert_eq!(millis_to_datetime(1_444), at(1970, 1, 1, 0, 0, 1, 444));
}

#[test]
fn milliseconds_before_1970_are_read_backwards() {
    assert_eq!(millis_to_datetime(-1), at(1969, 12, 31, 23, 59, 59, 999));
    assert_eq!(millis_to_datetime(-86_400_000), at(1969, 12, 31, 0, 0, 0, 0));
}

#[test]
fn milliseconds_out_of_the_calendar_are_the_start_of_1970() {
    assert_eq!(millis_to_datetime(i64::MAX), at(1970, 1, 1, 0, 0, 0, 0));
    assert_eq!(millis_to_datetime(i64::MIN), at(1970, 1, 1, 0, 0, 0, 0));
}

#[test]
fn a_date_that_was_found_is_kept_and_a_missing_one_is_the_start_of_1970() {
    let found = at(2024, 2, 29, 12, 30, 15, 1);
    assert_eq!(datetime_or_epoch(Some(found)), found);
    assert_eq!(datetime_or_epoch(None), at(1970, 1, 1, 0, 0, 0, 0));
}
