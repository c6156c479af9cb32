use briefing::checkpoint::{checkpoint_from, since_time, updates_cache, CheckpointError};
use briefing::date::Date;

fn day(year: i32, month: u32, day: u32) -> Date {
    Date::from_ymd_opt(year, month, day).unwrap()
}

#[test]
fn the_requested_day_counts_first() {
    let today = day(2020, 6, 24);
    assert_eq!(since_time(Some("2019-01-01"), Some("2020-06-01"), today), Ok(day(2019, 1, 1)));
    assert_eq!(since_time(Some("2019-01-01"), None, today), Ok(day(2019, 1, 1)));
}

#[test]
fn the_kept_day_counts_next() {
    let today = day(2020, 6, 24);
    assert_eq!(since_time(None, Some("2020-06-01"), today), Ok(day(2020, 6, 1)));
}

#[test]
fn today_counts_last() {
    let today = day(2020, 6, 24);
    assert_eq!(since_time(None, None, today), Ok(today));
}

#[test]
fn a_text_that_is_no_date_is_an_error() {
    let today = day(2020, 6, 24);
    assert_eq!(since_time(Some("yesterday"), None, today), Err(CheckpointError::InvalidDate));
    assert_eq!(since_time(Some("2019-02-30"), None, today), Err(CheckpointError::InvalidDate));
    assert_eq!(since_time(Some(""), Some("2020-06-01"), today), Err(CheckpointError::InvalidDate));
    assert_eq!(since_time(None, Some("2020-06-01\n\n"), today), Err(CheckpointError::InvalidDate));
    assert_eq!(since_time(None, Some("01.06.2020"), today), Err(CheckpointError::InvalidDate));
    // A bad request is not mended by a good kept day.
    assert_eq!(
        since_time(Some("2019-13-01"), Some("2020-06-01"), today),
        Err(CheckpointError::InvalidDate)
    );
}

#[test]
fn the_error_tells_the_form_of_a_date() {
    assert_eq!(CheckpointError::InvalidDate.message(), "Invalid date format. Use YYYY-MM-DD");
}

#[test]
fn checkpoint_from_wants_a_day() {
    assert_eq!(checkpoint_from(Some(day(2019, 1, 1))), Ok(day(2019, 1, 1)));
    assert_eq!(checkpoint_from(None), Err(CheckpointError::InvalidDate));
}

#[test]
fn the_cache_is_updated_unless_told_otherwise() {
    assert!(updates_cache(false, false));
    assert!(!updates_cache(true, false));
    assert!(!updates_cache(false, true));
    assert!(!updates_cache(true, true));
}
