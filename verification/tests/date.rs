use briefing::date::Date;

#[test]
fn from_ymd_opt_accepts_days_of_the_calendar() {
    let d = Date::from_ymd_opt(2019, 8, 18).unwrap();
    assert_eq!((d.year(), d.month(), d.day()), (2019, 8, 18));
    assert!(Date::from_ymd_opt(2020, 2, 29).is_some());
    assert!(Date::from_ymd_opt(2000, 2, 29).is_some());
    assert!(Date::from_ymd_opt(2019, 12, 31).is_some());
    assert!(Date::from_ymd_opt(2019, 1, 1).is_some());
    assert!(Date::from_ymd_opt(0, 2, 29).is_some());
    assert!(Date::from_ymd_opt(-4, 2, 29).is_some());
    assert!(Date::from_ymd_opt(-400, 2, 29).is_some());
    assert!(Date::from_ymd_opt(i32::MAX, 12, 31).is_some());
    assert!(Date::from_ymd_opt(i32::MIN, 2, 29).is_some());
}

#[test]
fn from_ymd_opt_refuses_what_the_calendar_lacks() {
    assert!(Date::from_ymd_opt(2019, 2, 29).is_none());
    assert!(Date::from_ymd_opt(1900, 2, 29).is_none());
    assert!(Date::from_ymd_opt(-100, 2, 29).is_none());
    assert!(Date::from_ymd_opt(-1, 2, 29).is_none());
    assert!(Date::from_ymd_opt(2019, 4, 31).is_none());
    assert!(Date::from_ymd_opt(2019, 6, 31).is_none());
    assert!(Date::from_ymd_opt(2019, 9, 31).is_none());
    assert!(Date::from_ymd_opt(2019, 11, 31).is_none());
    assert!(Date::from_ymd_opt(2019, 1, 32).is_none());
    assert!(Date::from_ymd_opt(2019, 0, 1).is_none());
    assert!(Date::from_ymd_opt(2019, 13, 1).is_none());
    assert!(Date::from_ymd_opt(2019, 1, 0).is_none());
    assert!(Date::from_ymd_opt(i32::MAX, 2, 29).is_none());
}

#[test]
fn from_ymd_opt_agrees_with_chrono() {
    for year in [-401, -400, -100, -4, -1, 0, 1, 4, 100, 400, 1900, 2000, 2019, 2020] {
        for month in 0..14u32 {
            for day in 0..33u32 {
                let ours = Date::from_ymd_opt(year, month, day).is_some();
                let theirs = chrono::NaiveDate::from_ymd_opt(year, month, day).is_some();
                assert_eq!(ours, theirs, "{}-{}-{}", year, month, day);
            }
        }
    }
}

#[test]
fn from_parts_is_from_ymd_opt_of_the_parts() {
    assert_eq!(Date::from_parts(Some((2019, 8, 18))), Date::from_ymd_opt(2019, 8, 18));
    assert_eq!(Date::from_parts(Some((2019, 2, 30))), None);
    assert_eq!(Date::from_parts(None), None);
}

#[test]
fn parse_from_str_reads_iso_days() {
    assert_eq!(Date::parse_from_str("2019-08-18", "%F"), Date::from_ymd_opt(2019, 8, 18));
    assert_eq!(Date::parse_from_str("2019-01-01", "%Y-%m-%d"), Date::from_ymd_opt(2019, 1, 1));
    assert_eq!(Date::parse_from_str("18.08.2019", "%d.%m.%Y"), Date::from_ymd_opt(2019, 8, 18));
}

#[test]
fn parse_from_str_refuses_other_text() {
    assert_eq!(Date::parse_from_str("2019-13-01", "%F"), None);
    assert_eq!(Date::parse_from_str("2019-02-29", "%F"), None);
    assert_eq!(Date::parse_from_str("yesterday", "%F"), None);
    assert_eq!(Date::parse_from_str("", "%F"), None);
    assert_eq!(Date::parse_from_str("2019-08-18 14:59", "%F"), None);
}

#[test]
fn is_before_is_the_order_of_the_calendar() {
    let days = [
        Date::from_ymd_opt(2018, 12, 31).unwrap(),
        Date::from_ymd_opt(2019, 1, 1).unwrap(),
        Date::from_ymd_opt(2019, 1, 2).unwrap(),
        Date::from_ymd_opt(2019, 2, 1).unwrap(),
        Date::from_ymd_opt(2020, 1, 1).unwrap(),
    ];
    for i in 0..days.len() {
        for j in 0..days.len() {
            assert_eq!(days[i].is_before(&days[j]), i < j, "{} {}", i, j);
        }
    }
}

#[test]
fn is_before_compares_the_year_first() {
    let late_in_year = Date::from_ymd_opt(2018, 12, 31).unwrap();
    let early_next_year = Date::from_ymd_opt(2019, 1, 1).unwrap();
    assert!(late_in_year.is_before(&early_next_year));
    assert!(!early_next_year.is_before(&late_in_year));
    let before_zero = Date::from_ymd_opt(-1, 12, 31).unwrap();
    let zero = Date::from_ymd_opt(0, 1, 1).unwrap();
    assert!(before_zero.is_before(&zero));
}
