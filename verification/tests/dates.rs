use metalpal::config::Config;
use metalpal::date::{Date, Timestamp};
use metalpal::release::{out_of_date, out_of_date_at};

fn day(year: i32, month: u32, day: u32) -> Date {
    Date { year, month, day }
}

fn config_updated_at(secs: i64, nanos: u32) -> Config {
    let mut config = Config::default();
    config.last_update = Timestamp { secs, nanos };
    config
}

#[test]
fn written_dates_are_read() {
    assert_eq!(Date::parse("January 5, 2024", "%B %d, %Y"), Some(day(2024, 1, 5)));
    assert_eq!(Date::parse("December 31, 1999", "%B %d, %Y"), Some(day(1999, 12, 31)));
    assert_eq!(Date::parse("Feb 29, 2024", "%B %d, %Y"), Some(day(2024, 2, 29)));
    assert_eq!(Date::parse("February 29, 2023", "%B %d, %Y"), None);
    assert_eq!(Date::parse("Smarch 1, 2023", "%B %d, %Y"), None);
    assert_eq!(Date::parse("", "%B %d, %Y"), None);
    assert_eq!(Date::parse("2024-01-05", "%Y-%m-%d"), Some(day(2024, 1, 5)));
}

#[test]
fn dates_are_written_as_chrono_writes_them() {
    assert_eq!(day(2024, 1, 5).to_text(), "2024-01-05");
    assert_eq!(day(1999, 12, 31).to_text(), "1999-12-31");
    assert_eq!(day(33, 10, 9).to_text(), "0033-10-09");
    assert_eq!(day(12345, 6, 7).to_text(), "+12345-06-07");
    assert_eq!(day(-5, 6, 7).to_text(), "-0005-06-07");
    for (y, m, d) in [(2023, 3, 17), (0, 1, 1), (9999, 12, 31), (10000, 1, 1), (-1, 2, 3), (-12345, 11, 30)] {
        let theirs = chrono::NaiveDate::from_ymd_opt(y, m, d).unwrap();
        assert_eq!(day(y, m, d).to_text(), theirs.to_string());
    }
}

#[test]
fn dates_are_ordered_as_the_calendar_orders_them() {
    let days = [
        day(-1, 12, 31),
        day(2023, 12, 31),
        day(2024, 1, 1),
        day(2024, 1, 31),
        day(2024, 2, 1),
        day(2025, 1, 1),
    ];
    for (i, a) in days.iter().enumerate() {
        for (j, b) in days.iter().enumerate() {
            assert_eq!(a.sort_key() <= b.sort_key(), i <= j);
            assert_eq!(a.sort_key() == b.sort_key(), i == j);
        }
    }
    assert!(day(2024, u32::MAX, u32::MAX).sort_key() < day(2025, 0, 0).sort_key());
    assert!(day(2024, 1, u32::MAX).sort_key() < day(2024, 2, 0).sort_key());
}

#[test]
fn today_is_a_day_of_the_calendar() {
    let today = Date::today();
    assert!(1 <= today.month && today.month <= 12);
    assert!(1 <= today.day && today.day <= 31);
    let theirs = chrono::Local::now().date_naive();
    let ours = chrono::NaiveDate::from_ymd_opt(today.year, today.month, today.day).unwrap();
    assert!((theirs - ours).num_days().abs() <= 1);
}

#[test]
fn whole_hours_are_rounded_towards_zero() {
    let start = Timestamp { secs: 1_700_000_000, nanos: 500_000_000 };
    let later = |secs: i64, nanos: u32| Timestamp { secs: 1_700_000_000 + secs, nanos };
    assert_eq!(later(0, 500_000_000).hours_since(&start), 0);
    assert_eq!(later(3600, 499_999_999).hours_since(&start), 0);
    assert_eq!(later(3600, 500_000_000).hours_since(&start), 1);
    assert_eq!(later(25 * 3600, 500_000_000).hours_since(&start), 25);
    assert_eq!(later(-3600, 500_000_001).hours_since(&start), 0);
    assert_eq!(later(-3600, 500_000_000).hours_since(&start), -1);
    assert_eq!(later(-5400, 0).hours_since(&start), -1);
    let first = Timestamp { secs: i64::MIN, nanos: 0 };
    let last = Timestamp { secs: i64::MAX, nanos: 999_999_999 };
    assert_eq!(last.hours_since(&first), (u64::MAX as i128) / 3600);
    assert_eq!(first.hours_since(&last), -((u64::MAX as i128) / 3600));
}

#[test]
fn calendar_is_out_of_date_after_more_than_a_day() {
    let config = config_updated_at(1_700_000_000, 0);
    let at = |secs: i64, nanos: u32| Timestamp { secs: 1_700_000_000 + secs, nanos };
    assert!(!out_of_date_at(&config, at(0, 0)));
    assert!(!out_of_date_at(&config, at(24 * 3600, 0)));
    assert!(!out_of_date_at(&config, at(25 * 3600 - 1, 999_999_999)));
    assert!(out_of_date_at(&config, at(25 * 3600, 0)));
    assert!(out_of_date_at(&config, at(100 * 24 * 3600, 0)));
    assert!(!out_of_date_at(&config, at(-100 * 24 * 3600, 0)));
}

#[test]
fn calendar_that_was_never_read_is_out_of_date() {
    assert!(out_of_date(&Config::default()));
    let now = Timestamp::now();
    assert!(!out_of_date(&config_updated_at(now.secs, now.nanos)));
    assert!(now.secs > 1_600_000_000);
    assert!(now.nanos < 2_000_000_000);
}
