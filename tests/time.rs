use taskit::date::Date;
use taskit::time::{duration_to_string, SimpleTime};

fn t(h: u8, m: u8) -> SimpleTime {
    SimpleTime::try_new(h, m).unwrap()
}

#[test]
fn try_new_rejects_out_of_range() {
    assert_eq!(SimpleTime::try_new(23, 59), Some(SimpleTime { hour: 23, minute: 59 }));
    assert_eq!(SimpleTime::try_new(24, 0), None);
    assert_eq!(SimpleTime::try_new(0, 60), None);
}

#[test]
fn subtraction_wraps_at_midnight() {
    assert_eq!(t(7, 0).sub(t(7, 0)), 0);
    assert_eq!(t(8, 30).sub(t(7, 0)), 90);
    assert_eq!(t(1, 0).sub(t(23, 0)), 120);
    assert_eq!(t(0, 0).sub(t(0, 1)), 1439);
}

#[test]
fn parse_accepts_both_forms() {
    assert_eq!(SimpleTime::parse("9:30"), Some(t(9, 30)));
    assert_eq!(SimpleTime::parse("0930"), Some(t(9, 30)));
    assert_eq!(SimpleTime::parse("23:05"), Some(t(23, 5)));
    assert_eq!(SimpleTime::parse("+7:+5"), Some(t(7, 5)));
    assert_eq!(SimpleTime::parse("007:00"), Some(t(7, 0)));
}

#[test]
fn parse_rejects_bad_text() {
    assert_eq!(SimpleTime::parse("24:00"), None);
    assert_eq!(SimpleTime::parse("12:60"), None);
    assert_eq!(SimpleTime::parse("930"), None);
    assert_eq!(SimpleTime::parse("ab:cd"), None);
    assert_eq!(SimpleTime::parse(":30"), None);
    assert_eq!(SimpleTime::parse("300:00"), None);
    assert_eq!(SimpleTime::parse("-1:00"), None);
    assert_eq!(SimpleTime::parse(""), None);
}

#[test]
fn time_text_is_zero_padded() {
    assert_eq!(t(7, 5).to_text(), "07:05");
    assert_eq!(t(23, 59).to_text(), "23:59");
    assert_eq!(SimpleTime::from_minutes(90), t(1, 30));
}

#[test]
fn durations_as_text() {
    assert_eq!(duration_to_string(90), "1h30m");
    assert_eq!(duration_to_string(120), "2h");
    assert_eq!(duration_to_string(45), "45m");
    assert_eq!(duration_to_string(0), "");
    assert_eq!(duration_to_string(60 * 125 + 7), "125h7m");
}

#[test]
fn dates_are_checked() {
    assert_eq!(Date::from_ymd(2024, 2, 29), Some(Date { year: 2024, month: 2, day: 29 }));
    assert_eq!(Date::from_ymd(2023, 2, 29), None);
    assert_eq!(Date::from_ymd(2000, 2, 29).is_some(), true);
    assert_eq!(Date::from_ymd(1900, 2, 29), None);
    assert_eq!(Date::from_ymd(2024, 13, 1), None);
    assert_eq!(Date::from_ymd(2024, 4, 31), None);
    assert_eq!(Date::from_ymd(2024, 1, 0), None);
}

#[test]
fn dates_order_chronologically() {
    let a = Date::from_ymd(2023, 12, 31).unwrap();
    let b = Date::from_ymd(2024, 1, 1).unwrap();
    assert!(a.is_on_or_before(&b));
    assert!(!b.is_on_or_before(&a));
    assert!(a.is_on_or_before(&a));
}
