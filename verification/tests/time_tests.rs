use cosmic_caldav::time::{
    add_days, add_hour, add_minute, clock_string, convert_in_zone, date_before, days_in_month,
    from_ymd, iso_date_string, leap_year, month_abbrev, month_days, month_name, parse_clock_time,
    parse_compact_date, parse_compact_datetime, parse_dashed_date, pred_date, stamp_before,
    sub_days, succ_date, CivilDate, Stamp, ZoneConversion,
};

fn date(y: i32, m: u32, d: u32) -> CivilDate {
    CivilDate { year: y, month: m, day: d }
}

fn stamp(y: i32, mo: u32, d: u32, h: u32, mi: u32, s: u32) -> Stamp {
    Stamp { date: date(y, mo, d), hour: h, minute: mi, second: s }
}

#[test]
fn leap_years_follow_the_gregorian_rule() {
    assert!(leap_year(2024));
    assert!(!leap_year(2023));
    assert!(!leap_year(1900));
    assert!(leap_year(2000));
    assert_eq!(month_days(2024, 2), 29);
    assert_eq!(month_days(2023, 2), 28);
    assert_eq!(month_days(2023, 4), 30);
}

#[test]
fn days_in_month_counts_each_month() {
    assert_eq!(days_in_month(2024, 2), 29);
    assert_eq!(days_in_month(2023, 2), 28);
    assert_eq!(days_in_month(2023, 12), 31);
    assert_eq!(days_in_month(2023, 11), 30);
    // A month that does not exist counts 30 days.
    assert_eq!(days_in_month(2023, 13), 30);
}

#[test]
fn from_ymd_refuses_dates_that_do_not_exist() {
    assert_eq!(from_ymd(2023, 2, 29), None);
    assert_eq!(from_ymd(2024, 2, 29), Some(date(2024, 2, 29)));
    assert_eq!(from_ymd(2024, 0, 1), None);
    assert_eq!(from_ymd(2024, 1, 0), None);
    assert_eq!(from_ymd(300000, 1, 1), None);
}

#[test]
fn next_and_previous_days_cross_month_and_year_ends() {
    assert_eq!(succ_date(date(2023, 12, 31)), Some(date(2024, 1, 1)));
    assert_eq!(succ_date(date(2024, 2, 28)), Some(date(2024, 2, 29)));
    assert_eq!(pred_date(date(2024, 3, 1)), Some(date(2024, 2, 29)));
    assert_eq!(pred_date(date(2024, 1, 1)), Some(date(2023, 12, 31)));
    assert_eq!(succ_date(date(262142, 12, 31)), None);
    assert_eq!(pred_date(date(-262143, 1, 1)), None);
}

#[test]
fn adding_and_subtracting_days() {
    assert_eq!(add_days(date(2026, 1, 15), 365), Some(date(2027, 1, 15)));
    assert_eq!(sub_days(date(2026, 1, 15), 30), Some(date(2025, 12, 16)));
    assert_eq!(add_days(date(2026, 1, 15), 0), Some(date(2026, 1, 15)));
}

#[test]
fn orders_dates_and_times() {
    assert!(date_before(&date(2025, 12, 31), &date(2026, 1, 1)));
    assert!(!date_before(&date(2026, 1, 1), &date(2026, 1, 1)));
    assert!(stamp_before(&stamp(2026, 1, 1, 9, 0, 0), &stamp(2026, 1, 1, 9, 0, 1)));
    assert!(!stamp_before(&stamp(2026, 1, 1, 10, 0, 0), &stamp(2026, 1, 1, 9, 59, 59)));
}

#[test]
fn adding_a_minute_or_an_hour_carries_over() {
    assert_eq!(add_minute(&stamp(2025, 12, 31, 23, 59, 30)), stamp(2026, 1, 1, 0, 0, 30));
    assert_eq!(add_hour(&stamp(2024, 2, 28, 23, 15, 0)), stamp(2024, 2, 29, 0, 15, 0));
}

#[test]
fn formats_dates_and_times() {
    assert_eq!(iso_date_string(&date(2026, 1, 5)), "2026-01-05");
    assert_eq!(iso_date_string(&date(33, 12, 25)), "0033-12-25");
    assert_eq!(clock_string(&stamp(2026, 1, 5, 7, 3, 0)), "07:03");
    assert_eq!(month_name(1), "January");
    assert_eq!(month_name(12), "December");
    assert_eq!(month_abbrev(9), "Sep");
}

#[test]
fn parses_with_chrono_formats() {
    assert_eq!(parse_compact_datetime("20260115T093000"), Some(stamp(2026, 1, 15, 9, 30, 0)));
    assert_eq!(parse_compact_datetime("2026-01-15"), None);
    assert_eq!(parse_compact_date("20260115"), Some(date(2026, 1, 15)));
    assert_eq!(parse_dashed_date("2026-02-30"), None);
    assert_eq!(parse_dashed_date("2026-02-28"), Some(date(2026, 2, 28)));
    assert_eq!(parse_clock_time("23:59"), Some((23, 59)));
    assert_eq!(parse_clock_time("24:00"), None);
}

#[test]
fn converts_wall_clock_times_of_named_zones() {
    assert_eq!(
        convert_in_zone("America/New_York", &stamp(2026, 7, 1, 12, 0, 0)),
        ZoneConversion::Utc(stamp(2026, 7, 1, 16, 0, 0))
    );
    assert_eq!(convert_in_zone("Not/AZone", &stamp(2026, 7, 1, 12, 0, 0)), ZoneConversion::UnknownZone);
    // 02:30 does not occur in Berlin on the day clocks go forward.
    assert_eq!(
        convert_in_zone("Europe/Berlin", &stamp(2026, 3, 29, 2, 30, 0)),
        ZoneConversion::NoSuchTime
    );
}
