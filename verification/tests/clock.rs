use barclock::clock::{render, until_next_second, weekday_name, Weekday};
use chrono::TimeZone;

#[test]
fn renders_toronto_and_zones() {
    // 2026-09-05 19:04:09 UTC = 15:04:09 in Toronto (EDT), 21:04 Paris, 20:04 London.
    let now = chrono::Utc.with_ymd_and_hms(2026, 9, 5, 19, 4, 9).unwrap().timestamp();
    let zones = vec![
        ("Paris".to_string(), chrono_tz::Europe::Paris),
        ("London".to_string(), chrono_tz::Europe::London),
        ("UTC".to_string(), chrono_tz::UTC),
    ];
    let t = render(now, chrono_tz::America::Toronto, &zones, "fr").unwrap();
    assert_eq!(t.time, "15:04:09");
    assert_eq!(t.date, "05/09/2026");
    assert_eq!(t.weekday, "Samedi");
    assert_eq!(
        t.zones,
        vec![
            ("Paris".to_string(), "21:04".to_string()),
            ("London".to_string(), "20:04".to_string()),
            ("UTC".to_string(), "19:04".to_string()),
        ]
    );
    assert_eq!(render(now, chrono_tz::America::Toronto, &vec![], "en").unwrap().weekday, "Saturday");
}

#[test]
fn next_second_guard() {
    let now = chrono::Utc.with_ymd_and_hms(2026, 1, 1, 0, 0, 0).unwrap() + chrono::Duration::milliseconds(250);
    let d = until_next_second(now.timestamp_subsec_nanos());
    assert!(d > 750_000_000 && d < 760_000_000, "{d:?}");
    assert_eq!(d, 755_000_000);
    assert_eq!(until_next_second(0), 1_005_000_000);
    assert_eq!(until_next_second(999_999_999), 5_000_001);
    // a leap second counts past the whole one
    assert_eq!(until_next_second(1_500_000_000), 5_000_000);
}

#[test]
fn weekdays_in_both_languages() {
    assert_eq!(weekday_name(Weekday::Mon, "fr"), "Lundi");
    assert_eq!(weekday_name(Weekday::Sun, "fr"), "Dimanche");
    assert_eq!(weekday_name(Weekday::Mon, "de"), "Monday");
    assert_eq!(weekday_name(Weekday::Sun, "en"), "Sunday");
}

#[test]
fn years_are_filled_to_four_characters() {
    let none = vec![];
    let at = |y: i32| chrono::Utc.with_ymd_and_hms(y, 1, 2, 3, 4, 5).unwrap().timestamp();
    assert_eq!(render(at(7), chrono_tz::UTC, &none, "en").unwrap().date, "02/01/0007");
    assert_eq!(render(at(12026), chrono_tz::UTC, &none, "en").unwrap().date, "02/01/12026");
    assert_eq!(render(at(-5), chrono_tz::UTC, &none, "en").unwrap().date, "02/01/-005");
    assert_eq!(render(at(-12345), chrono_tz::UTC, &none, "en").unwrap().date, "02/01/-12345");
}

#[test]
fn a_moment_out_of_range_has_no_text() {
    assert_eq!(render(i64::MAX, chrono_tz::UTC, &vec![], "en"), None);
    assert_eq!(render(i64::MIN, chrono_tz::UTC, &vec![], "en"), None);
}

#[test]
fn the_last_moment_can_be_told_everywhere() {
    let last = chrono::DateTime::<chrono::Utc>::MAX_UTC.timestamp();
    let first = chrono::DateTime::<chrono::Utc>::MIN_UTC.timestamp();
    let zones = vec![("T".to_string(), chrono_tz::Asia::Tokyo), ("H".to_string(), chrono_tz::Pacific::Honolulu)];
    let t = render(last, chrono_tz::Asia::Tokyo, &zones, "en").unwrap();
    assert_eq!((t.time.as_str(), t.date.as_str()), ("08:59:59", "01/01/262143"));
    assert_eq!(t.zones[0].1, "08:59");
    assert!(render(first, chrono_tz::Pacific::Honolulu, &zones, "en").is_some());
    assert_eq!(render(last + 1, chrono_tz::UTC, &vec![], "en"), None);
    assert_eq!(render(first - 1, chrono_tz::UTC, &vec![], "en"), None);
}
