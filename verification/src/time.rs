//! Calendar dates and wall-clock date-times of the proleptic Gregorian
//! calendar, their text forms, and the conversions that need a time-zone
//! database or the machine's local time zone.

use chrono::{Datelike, TimeZone, Timelike};
use vstd::prelude::*;
use crate::text::{decimal, digit_char, push_decimal, string_of};

verus! {

/// The earliest year a calendar date may have.
pub const MIN_YEAR: i32 = -262143;

/// The latest year a calendar date may have.
pub const MAX_YEAR: i32 = 262142;

/// A calendar date (year, month 1–12, day of month).
#[derive(Clone, Copy, Debug, PartialEq, Eq, Structural)]
pub struct CivilDate {
    pub year: i32,
    pub month: u32,
    pub day: u32,
}

/// A date with a time of day, without a time zone.
#[derive(Clone, Copy, Debug, PartialEq, Eq, Structural)]
pub struct Stamp {
    pub date: CivilDate,
    pub hour: u32,
    pub minute: u32,
    pub second: u32,
}

/// An instant as the machine's clock shows it (chrono's `DateTime<Local>`):
/// its local wall-clock time and the same instant in UTC.
#[derive(Clone, Copy, Debug, PartialEq, Eq, Structural)]
pub struct LocalDateTime {
    pub local: Stamp,
    pub utc: Stamp,
}

/// The outcome of reading a wall-clock time in a named time zone.
#[derive(Clone, Copy, Debug, PartialEq, Eq, Structural)]
pub enum ZoneConversion {
    /// The time-zone database has no zone of that name.
    UnknownZone,
    /// The wall-clock time does not occur in that zone (it falls in a gap).
    NoSuchTime,
    /// The earliest UTC date-time showing that wall-clock time.
    Utc(Stamp),
}

// ----------------------------------------------------------------------------
// The calendar
// ----------------------------------------------------------------------------

/// Leap years of the Gregorian calendar.
pub open spec fn is_leap(year: int) -> bool {
    year % 4 == 0 && (year % 100 != 0 || year % 400 == 0)
}

/// The number of days of a month (1–12) of a year.
pub open spec fn month_length(year: int, month: int) -> int {
    if month == 2 {
        if is_leap(year) { 29 } else { 28 }
    } else if month == 4 || month == 6 || month == 9 || month == 11 {
        30
    } else {
        31
    }
}

/// A year that calendar dates can have.
pub open spec fn year_in_range(year: int) -> bool {
    MIN_YEAR <= year <= MAX_YEAR
}

/// The date exists and lies in the supported range.
pub open spec fn date_valid(d: CivilDate) -> bool {
    &&& year_in_range(d.year as int)
    &&& 1 <= d.month <= 12
    &&& 1 <= d.day <= month_length(d.year as int, d.month as int)
}

/// The date-time exists (a valid date, hour < 24, minute < 60, second < 60).
pub open spec fn stamp_valid(t: Stamp) -> bool {
    date_valid(t.date) && t.hour < 24 && t.minute < 60 && t.second < 60
}

/// A valid date-time on neither the first nor the last supported day, so
/// that shifting it by less than a day (a minute, or a time-zone offset)
/// stays representable.
pub open spec fn in_safe_range(t: Stamp) -> bool {
    stamp_valid(t) && prev_day(t.date) is Some && next_day(t.date) is Some
}

/// A date-time that can be moved an hour later and then read in any time
/// zone: it and the date-time an hour later are both in the safe range.
pub open spec fn in_shift_range(t: Stamp) -> bool {
    in_safe_range(t) && in_safe_range(plus_hour(t))
}

/// Dates in calendar order.
pub open spec fn date_lt(a: CivilDate, b: CivilDate) -> bool {
    ||| a.year < b.year
    ||| a.year == b.year && a.month < b.month
    ||| a.year == b.year && a.month == b.month && a.day < b.day
}

/// What `NaiveDate::from_ymd_opt` gives.
pub open spec fn date_of(year: i32, month: u32, day: u32) -> Option<CivilDate> {
    let d = CivilDate { year, month, day };
    if date_valid(d) { Some(d) } else { None }
}

/// The day after `d` (`NaiveDate::succ_opt`), if it is in range.
pub open spec fn next_day(d: CivilDate) -> Option<CivilDate> {
    if (d.day as int) < month_length(d.year as int, d.month as int) {
        Some(CivilDate { day: (d.day + 1) as u32, ..d })
    } else if d.month < 12 {
        Some(CivilDate { month: (d.month + 1) as u32, day: 1, ..d })
    } else if d.year < MAX_YEAR {
        Some(CivilDate { year: (d.year + 1) as i32, month: 1, day: 1 })
    } else {
        None
    }
}

/// The day before `d` (`NaiveDate::pred_opt`), if it is in range.
pub open spec fn prev_day(d: CivilDate) -> Option<CivilDate> {
    if d.day > 1 {
        Some(CivilDate { day: (d.day - 1) as u32, ..d })
    } else if d.month > 1 {
        Some(
            CivilDate {
                month: (d.month - 1) as u32,
                day: month_length(d.year as int, d.month - 1) as u32,
                ..d
            },
        )
    } else if d.year > MIN_YEAR {
        Some(CivilDate { year: (d.year - 1) as i32, month: 12, day: 31 })
    } else {
        None
    }
}

/// What the month-length computation of the calendar grid gives: the day
/// before the first of the following month, or 30 where either date is out
/// of range. For months 1–12 of a year in range this is the month's length
/// (December of the last year, whose following January is out of range,
/// gives 30); month 0 reads as December of the year before.
pub open spec fn days_in_month_spec(year: i32, month: u32) -> u32 {
    let next = if month == 12 { date_of((year + 1) as i32, 1, 1) } else { date_of(year, (month + 1) as u32, 1) };
    match next {
        Some(n) => match prev_day(n) {
            Some(p) => p.day,
            None => 30,
        },
        None => 30,
    }
}

/// Lexicographic order of date-times, which is their chronological order.
pub open spec fn stamp_lt(a: Stamp, b: Stamp) -> bool {
    ||| a.date.year < b.date.year
    ||| a.date.year == b.date.year && a.date.month < b.date.month
    ||| a.date.year == b.date.year && a.date.month == b.date.month && a.date.day < b.date.day
    ||| a.date == b.date && a.hour < b.hour
    ||| a.date == b.date && a.hour == b.hour && a.minute < b.minute
    ||| a.date == b.date && a.hour == b.hour && a.minute == b.minute && a.second < b.second
}

/// The date-time one minute later (`+ TimeDelta::minutes(1)`).
pub open spec fn plus_minute(t: Stamp) -> Stamp {
    if t.minute < 59 {
        Stamp { minute: (t.minute + 1) as u32, ..t }
    } else if t.hour < 23 {
        Stamp { hour: (t.hour + 1) as u32, minute: 0, ..t }
    } else {
        Stamp { date: next_day(t.date).unwrap(), hour: 0, minute: 0, ..t }
    }
}

/// The date-time one hour later (`+ TimeDelta::hours(1)`).
pub open spec fn plus_hour(t: Stamp) -> Stamp {
    if t.hour < 23 {
        Stamp { hour: (t.hour + 1) as u32, ..t }
    } else {
        Stamp { date: next_day(t.date).unwrap(), hour: 0, ..t }
    }
}

/// The seconds from 1970-01-01 00:00:00 to `t`, both read on the same clock.
pub open spec fn stamp_seconds(t: Stamp) -> int {
    days_from_epoch(t.date) * 86400 + t.hour * 3600 + t.minute * 60 + t.second
}

/// `a` and `b` are less than a day apart, as a local clock and UTC always
/// are (chrono's `FixedOffset` lies strictly between minus and plus one day).
pub open spec fn within_a_day(a: Stamp, b: Stamp) -> bool {
    -86400 < stamp_seconds(a) - stamp_seconds(b) < 86400
}

/// Midnight at the start of `d`.
pub open spec fn midnight(d: CivilDate) -> Stamp {
    Stamp { date: d, hour: 0, minute: 0, second: 0 }
}

// ----------------------------------------------------------------------------
// Text forms (the strftime-style items chrono writes)
// ----------------------------------------------------------------------------

/// `n` in decimal, zero-padded on the left to `width` digits.
pub open spec fn padded(n: nat, width: nat) -> Seq<char>
    decreases width,
{
    if decimal(n).len() >= width {
        decimal(n)
    } else {
        seq!['0'] + padded(n, (width - 1) as nat)
    }
}

/// `%Y`: four zero-padded digits for years 0–9999, otherwise a sign followed
/// by at least four zero-padded digits.
pub open spec fn year_text(y: int) -> Seq<char> {
    if 0 <= y <= 9999 {
        padded(y as nat, 4)
    } else if y < 0 {
        seq!['-'] + padded((-y) as nat, 4)
    } else {
        seq!['+'] + padded(y as nat, 4)
    }
}

/// `%m`, `%d`, `%H`, `%M`, `%S`: two zero-padded digits.
pub open spec fn two_digits(n: nat) -> Seq<char> {
    seq![digit_char(n / 10), digit_char(n % 10)]
}

/// `%Y-%m-%d`.
pub open spec fn iso_date_text(d: CivilDate) -> Seq<char> {
    year_text(d.year as int) + seq!['-'] + two_digits(d.month as nat) + seq!['-'] + two_digits(
        d.day as nat,
    )
}

/// `%H:%M`.
pub open spec fn clock_text(t: Stamp) -> Seq<char> {
    two_digits(t.hour as nat) + seq![':'] + two_digits(t.minute as nat)
}

/// `%Y%m%dT%H%M%S`, the basic iCalendar DATE-TIME form.
pub open spec fn compact_text(t: Stamp) -> Seq<char> {
    year_text(t.date.year as int) + two_digits(t.date.month as nat) + two_digits(
        t.date.day as nat,
    ) + seq!['T'] + two_digits(t.hour as nat) + two_digits(t.minute as nat) + two_digits(
        t.second as nat,
    )
}

/// `%B`: the English name of a month.
pub open spec fn month_name_text(m: u32) -> Seq<char> {
    if m == 1 { "January"@ }
    else if m == 2 { "February"@ }
    else if m == 3 { "March"@ }
    else if m == 4 { "April"@ }
    else if m == 5 { "May"@ }
    else if m == 6 { "June"@ }
    else if m == 7 { "July"@ }
    else if m == 8 { "August"@ }
    else if m == 9 { "September"@ }
    else if m == 10 { "October"@ }
    else if m == 11 { "November"@ }
    else { "December"@ }
}

/// `%b`: the first three letters of the English name of a month.
pub open spec fn month_abbrev_text(m: u32) -> Seq<char> {
    month_name_text(m).take(3)
}

// ----------------------------------------------------------------------------
// Names for what chrono and chrono-tz compute
// ----------------------------------------------------------------------------

/// What `NaiveDateTime::parse_from_str(s, "%Y%m%dT%H%M%S")` gives.
pub uninterp spec fn compact_datetime(s: Seq<char>) -> Option<Stamp>;

/// What `NaiveDate::parse_from_str(s, "%Y%m%d")` gives.
pub uninterp spec fn compact_date(s: Seq<char>) -> Option<CivilDate>;

/// What `NaiveDate::parse_from_str(s, "%Y-%m-%d")` gives.
pub uninterp spec fn dashed_date(s: Seq<char>) -> Option<CivilDate>;

/// What `NaiveTime::parse_from_str(s, "%H:%M")` gives, as (hour, minute).
pub uninterp spec fn clock_time(s: Seq<char>) -> Option<(u32, u32)>;

/// What reading the wall-clock time `local` in the chrono-tz zone named `tz`
/// gives.
pub uninterp spec fn zone_conversion(tz: Seq<char>, local: Stamp) -> ZoneConversion;

/// `NaiveDateTime::parse_from_str` with `%Y%m%dT%H%M%S`. chrono's values are
/// always valid date-times; beyond that the result is named, not stated.
#[verifier::external_body]
pub fn parse_compact_datetime(s: &str) -> (r: Option<Stamp>)
    ensures
        r == compact_datetime(s@),
        r matches Some(t) ==> stamp_valid(t),
{
    match chrono::NaiveDateTime::parse_from_str(s, "%Y%m%dT%H%M%S") {
        Ok(t) => Some(Stamp {
            date: CivilDate { year: t.year(), month: t.month(), day: t.day() },
            hour: t.hour(),
            minute: t.minute(),
            second: t.second(),
        }),
        Err(_) => None,
    }
}

/// `NaiveDate::parse_from_str` with `%Y%m%d`; chrono's dates are valid.
#[verifier::external_body]
pub fn parse_compact_date(s: &str) -> (r: Option<CivilDate>)
    ensures
        r == compact_date(s@),
        r matches Some(d) ==> date_valid(d),
{
    match chrono::NaiveDate::parse_from_str(s, "%Y%m%d") {
        Ok(d) => Some(CivilDate { year: d.year(), month: d.month(), day: d.day() }),
        Err(_) => None,
    }
}

/// `NaiveDate::parse_from_str` with `%Y-%m-%d`; chrono's dates are valid.
#[verifier::external_body]
pub fn parse_dashed_date(s: &str) -> (r: Option<CivilDate>)
    ensures
        r == dashed_date(s@),
        r matches Some(d) ==> date_valid(d),
{
    match chrono::NaiveDate::parse_from_str(s, "%Y-%m-%d") {
        Ok(d) => Some(CivilDate { year: d.year(), month: d.month(), day: d.day() }),
        Err(_) => None,
    }
}

/// `NaiveTime::parse_from_str` with `%H:%M`; chrono's times have hour < 24
/// and minute < 60.
#[verifier::external_body]
pub fn parse_clock_time(s: &str) -> (r: Option<(u32, u32)>)
    ensures
        r == clock_time(s@),
        r matches Some(hm) ==> hm.0 < 24 && hm.1 < 60,
{
    match chrono::NaiveTime::parse_from_str(s, "%H:%M") {
        Ok(t) => Some((t.hour(), t.minute())),
        Err(_) => None,
    }
}

/// Parses `tz` as a `chrono_tz::Tz` and reads `local` there with
/// `from_local_datetime(..).earliest()`, converted to UTC. The result is
/// named; that a UTC result is a valid date-time is all that is stated of it.
#[verifier::external_body]
pub fn convert_in_zone(tz: &str, local: &Stamp) -> (r: ZoneConversion)
    requires
        stamp_valid(*local),
    ensures
        r == zone_conversion(tz@, *local),
        r matches ZoneConversion::Utc(u) ==> stamp_valid(u),
{
    let Ok(zone) = tz.parse::<chrono_tz::Tz>() else { return ZoneConversion::UnknownZone };
    let naive = chrono::NaiveDate::from_ymd_opt(local.date.year, local.date.month, local.date.day)
        .unwrap().and_hms_opt(local.hour, local.minute, local.second).unwrap();
    match zone.from_local_datetime(&naive).earliest().map(|dt| dt.naive_utc()) {
        Some(u) => ZoneConversion::Utc(Stamp {
            date: CivilDate { year: u.year(), month: u.month(), day: u.day() },
            hour: u.hour(), minute: u.minute(), second: u.second(),
        }),
        None => ZoneConversion::NoSuchTime,
    }
}

// ----------------------------------------------------------------------------
// The machine's local time zone
// ----------------------------------------------------------------------------

/// The local wall-clock time at the UTC date-time `utc`
/// (`Local.from_utc_datetime(..).naive_local()`): `utc` plus the machine's
/// offset at that instant. The offset depends on the machine's time zone and
/// is not stated; what is stated is that it is a chrono `FixedOffset`, which
/// is always less than a day either way (which also keeps a date-time in the
/// safe range convertible).
#[verifier::external_body]
pub fn local_from_utc(utc: &Stamp) -> (r: Stamp)
    requires
        in_safe_range(*utc),
    ensures
        stamp_valid(r),
        within_a_day(r, *utc),
{
    let naive = chrono::NaiveDate::from_ymd_opt(utc.date.year, utc.date.month, utc.date.day)
        .unwrap().and_hms_opt(utc.hour, utc.minute, utc.second).unwrap();
    let l = chrono::Local.from_utc_datetime(&naive).naive_local();
    Stamp {
        date: CivilDate { year: l.year(), month: l.month(), day: l.day() },
        hour: l.hour(), minute: l.minute(), second: l.second(),
    }
}

/// The UTC date-time of the earliest instant the machine's clock shows
/// `local` (`Local.from_local_datetime(..).earliest()`): `local` minus the
/// machine's offset then; `None` in a gap. Whether there is a gap, and the
/// offset, depend on the machine's time zone and are not stated; the offset
/// is a chrono `FixedOffset`, always less than a day either way.
#[verifier::external_body]
pub fn utc_from_local(local: &Stamp) -> (r: Option<Stamp>)
    requires
        stamp_valid(*local),
    ensures
        r matches Some(u) ==> stamp_valid(u) && within_a_day(u, *local),
{
    let naive = chrono::NaiveDate::from_ymd_opt(local.date.year, local.date.month, local.date.day)
        .unwrap().and_hms_opt(local.hour, local.minute, local.second).unwrap();
    chrono::Local.from_local_datetime(&naive).earliest().map(|dt| dt.naive_utc()).map(|u| Stamp {
        date: CivilDate { year: u.year(), month: u.month(), day: u.day() },
        hour: u.hour(), minute: u.minute(), second: u.second(),
    })
}

/// The current time (`Local::now()`), as local wall-clock time and as UTC.
/// It depends on the clock, so only validity is stated, and that the two
/// differ by the machine's offset, a chrono `FixedOffset`, which is less than
/// a day.
#[verifier::external_body]
pub fn now() -> (r: LocalDateTime)
    ensures
        stamp_valid(r.local),
        stamp_valid(r.utc),
        within_a_day(r.local, r.utc),
{
    let now = chrono::Local::now();
    let (l, u) = (now.naive_local(), now.naive_utc());
    LocalDateTime {
        local: Stamp {
            date: CivilDate { year: l.year(), month: l.month(), day: l.day() },
            hour: l.hour(), minute: l.minute(), second: l.second(),
        },
        utc: Stamp {
            date: CivilDate { year: u.year(), month: u.month(), day: u.day() },
            hour: u.hour(), minute: u.minute(), second: u.second(),
        },
    }
}

// ----------------------------------------------------------------------------
// Executable calendar arithmetic
// ----------------------------------------------------------------------------

/// Whether `year` is a leap year.
pub fn leap_year(year: i32) -> (r: bool)
    ensures
        r == is_leap(year as int),
{
    year % 4 == 0 && (year % 100 != 0 || year % 400 == 0)
}

/// The number of days of a month (1–12) of a year.
pub fn month_days(year: i32, month: u32) -> (r: u32)
    requires
        1 <= month <= 12,
    ensures
        r == month_length(year as int, month as int),
        28 <= r <= 31,
{
    if month == 2 {
        if leap_year(year) { 29 } else { 28 }
    } else if month == 4 || month == 6 || month == 9 || month == 11 {
        30
    } else {
        31
    }
}

/// `NaiveDate::from_ymd_opt`: the date, when it exists and is in range.
pub fn from_ymd(year: i32, month: u32, day: u32) -> (r: Option<CivilDate>)
    ensures
        r == date_of(year, month, day),
{
    if year < MIN_YEAR || year > MAX_YEAR || month < 1 || month > 12 || day < 1 {
        return None;
    }
    if day > month_days(year, month) {
        return None;
    }
    Some(CivilDate { year, month, day })
}

/// `NaiveDate::succ_opt`.
pub fn succ_date(d: CivilDate) -> (r: Option<CivilDate>)
    requires
        date_valid(d),
    ensures
        r == next_day(d),
        r matches Some(n) ==> date_valid(n),
{
    if d.day < month_days(d.year, d.month) {
        Some(CivilDate { day: d.day + 1, ..d })
    } else if d.month < 12 {
        Some(CivilDate { month: d.month + 1, day: 1, ..d })
    } else if d.year < MAX_YEAR {
        Some(CivilDate { year: d.year + 1, month: 1, day: 1 })
    } else {
        None
    }
}

/// `NaiveDate::pred_opt`.
pub fn pred_date(d: CivilDate) -> (r: Option<CivilDate>)
    requires
        date_valid(d),
    ensures
        r == prev_day(d),
        r matches Some(p) ==> date_valid(p),
{
    if d.day > 1 {
        Some(CivilDate { day: d.day - 1, ..d })
    } else if d.month > 1 {
        Some(CivilDate { month: d.month - 1, day: month_days(d.year, d.month - 1), ..d })
    } else if d.year > MIN_YEAR {
        Some(CivilDate { year: d.year - 1, month: 12, day: 31 })
    } else {
        None
    }
}

/// The number of days in a month, as the calendar grid counts it: the day
/// of the month before the first of the next month, or 30 when that cannot
/// be formed.
pub fn days_in_month(year: i32, month: u32) -> (r: u32)
    requires
        month != 12 ==> month < u32::MAX,
        month == 12 ==> year < i32::MAX,
    ensures
        r == days_in_month_spec(year, month),
        r <= 31,
        1 <= month <= 12 && year_in_range(year as int) && (month < 12 || year < MAX_YEAR) ==> r
            == month_length(year as int, month as int),
{
    let next = if month == 12 { from_ymd(year + 1, 1, 1) } else { from_ymd(year, month + 1, 1) };
    match next {
        Some(n) => match pred_date(n) {
            Some(p) => p.day,
            None => 30,
        },
        None => 30,
    }
}

/// Whether date `a` comes before date `b`.
pub fn date_before(a: &CivilDate, b: &CivilDate) -> (r: bool)
    ensures
        r == date_lt(*a, *b),
{
    if a.year != b.year {
        return a.year < b.year;
    }
    if a.month != b.month {
        return a.month < b.month;
    }
    a.day < b.day
}

/// A date-time in the shift range stays in the safe range, also a minute or
/// an hour later.
pub proof fn lemma_shift_range(t: Stamp)
    requires
        in_shift_range(t),
    ensures
        in_safe_range(t),
        in_safe_range(plus_minute(t)),
        in_safe_range(plus_hour(t)),
{
}

/// Whether a date-time is in the safe range ([`in_safe_range`]).
pub fn safe_range_ok(t: &Stamp) -> (r: bool)
    ensures
        r == in_safe_range(*t),
{
    match from_ymd(t.date.year, t.date.month, t.date.day) {
        Some(_) => {
            if t.hour < 24 && t.minute < 60 && t.second < 60 {
                let before = pred_date(t.date);
                let after = succ_date(t.date);
                before.is_some() && after.is_some()
            } else {
                false
            }
        },
        None => false,
    }
}

/// Whether a date-time is in the shift range ([`in_shift_range`]).
pub fn shift_range_ok(t: &Stamp) -> (r: bool)
    ensures
        r == in_shift_range(*t),
{
    if safe_range_ok(t) {
        let later = add_hour(t);
        safe_range_ok(&later)
    } else {
        false
    }
}

/// Whether `a` comes before `b`.
pub fn stamp_before(a: &Stamp, b: &Stamp) -> (r: bool)
    ensures
        r == stamp_lt(*a, *b),
{
    if a.date.year != b.date.year {
        return a.date.year < b.date.year;
    }
    if a.date.month != b.date.month {
        return a.date.month < b.date.month;
    }
    if a.date.day != b.date.day {
        return a.date.day < b.date.day;
    }
    if a.hour != b.hour {
        return a.hour < b.hour;
    }
    if a.minute != b.minute {
        return a.minute < b.minute;
    }
    a.second < b.second
}

/// One minute later.
pub fn add_minute(t: &Stamp) -> (r: Stamp)
    requires
        in_safe_range(*t),
    ensures
        r == plus_minute(*t),
        stamp_valid(r),
{
    if t.minute < 59 {
        Stamp { minute: t.minute + 1, ..*t }
    } else if t.hour < 23 {
        Stamp { hour: t.hour + 1, minute: 0, ..*t }
    } else {
        let d = succ_date(t.date).unwrap();
        Stamp { date: d, hour: 0, minute: 0, ..*t }
    }
}

/// One hour later.
pub fn add_hour(t: &Stamp) -> (r: Stamp)
    requires
        in_safe_range(*t),
    ensures
        r == plus_hour(*t),
        stamp_valid(r),
{
    if t.hour < 23 {
        Stamp { hour: t.hour + 1, ..*t }
    } else {
        let d = succ_date(t.date).unwrap();
        Stamp { date: d, hour: 0, ..*t }
    }
}

// ----------------------------------------------------------------------------
// Executable text forms
// ----------------------------------------------------------------------------

proof fn lemma_decimal_len(n: nat)
    ensures
        decimal(n).len() >= 1,
        n < 10 ==> decimal(n).len() == 1,
        n < 100 ==> decimal(n).len() <= 2,
        n < 1000 ==> decimal(n).len() <= 3,
        n >= 10 ==> decimal(n).len() >= 2,
        n >= 100 ==> decimal(n).len() >= 3,
        n >= 1000 ==> decimal(n).len() >= 4,
    decreases n,
{
    if n >= 10 {
        lemma_decimal_len(n / 10);
    }
}

/// Appends `n`, zero-padded to `width` digits.
fn push_padded(out: &mut Vec<char>, n: u64, width: u64)
    requires
        width <= 4,
    ensures
        final(out)@ == old(out)@ + padded(n as nat, width as nat),
    decreases width,
{
    proof {
        lemma_decimal_len(n as nat);
    }
    let short = if width == 0 {
        false
    } else if width == 1 {
        false
    } else if width == 2 {
        n < 10
    } else if width == 3 {
        n < 100
    } else {
        n < 1000
    };
    if short {
        out.push('0');
        let ghost mid = out@;
        push_padded(out, n, width - 1);
        assert(out@ =~= old(out)@ + padded(n as nat, width as nat));
    } else {
        push_decimal(out, n);
    }
}

/// Appends `%Y` for `year`.
pub fn push_year(out: &mut Vec<char>, year: i32)
    ensures
        final(out)@ == old(out)@ + year_text(year as int),
{
    if 0 <= year && year <= 9999 {
        push_padded(out, year as u64, 4);
    } else if year < 0 {
        out.push('-');
        let magnitude: i64 = -(year as i64);
        push_padded(out, magnitude as u64, 4);
        assert(out@ =~= old(out)@ + year_text(year as int));
    } else {
        out.push('+');
        push_padded(out, year as u64, 4);
        assert(out@ =~= old(out)@ + year_text(year as int));
    }
}

/// Appends two zero-padded digits of `n` (below 100).
pub fn push_two_digits(out: &mut Vec<char>, n: u32)
    requires
        n < 100,
    ensures
        final(out)@ == old(out)@ + two_digits(n as nat),
{
    let mut tens: Vec<char> = Vec::new();
    push_decimal(&mut tens, (n / 10) as u64);
    let mut ones: Vec<char> = Vec::new();
    push_decimal(&mut ones, (n % 10) as u64);
    out.push(tens[0]);
    out.push(ones[0]);
    assert(out@ =~= old(out)@ + two_digits(n as nat));
}

/// `%Y-%m-%d` for a date.
pub fn iso_date_string(d: &CivilDate) -> (r: String)
    requires
        date_valid(*d),
    ensures
        r@ == iso_date_text(*d),
{
    let mut out: Vec<char> = Vec::new();
    push_year(&mut out, d.year);
    out.push('-');
    push_two_digits(&mut out, d.month);
    out.push('-');
    push_two_digits(&mut out, d.day);
    assert(out@ =~= iso_date_text(*d));
    string_of(out.as_slice())
}

/// `%H:%M` for a date-time.
pub fn clock_string(t: &Stamp) -> (r: String)
    requires
        stamp_valid(*t),
    ensures
        r@ == clock_text(*t),
{
    let mut out: Vec<char> = Vec::new();
    push_two_digits(&mut out, t.hour);
    out.push(':');
    push_two_digits(&mut out, t.minute);
    assert(out@ =~= clock_text(*t));
    string_of(out.as_slice())
}

/// Appends `%Y%m%dT%H%M%S` for a date-time.
pub fn push_compact(out: &mut Vec<char>, t: &Stamp)
    requires
        stamp_valid(*t),
    ensures
        final(out)@ == old(out)@ + compact_text(*t),
{
    push_year(out, t.date.year);
    push_two_digits(out, t.date.month);
    push_two_digits(out, t.date.day);
    out.push('T');
    push_two_digits(out, t.hour);
    push_two_digits(out, t.minute);
    push_two_digits(out, t.second);
    assert(out@ =~= old(out)@ + compact_text(*t));
}

/// `%B`: the English name of a month (1–12; other numbers give December).
pub fn month_name(m: u32) -> (r: &'static str)
    ensures
        r@ == month_name_text(m),
{
    if m == 1 { "January" }
    else if m == 2 { "February" }
    else if m == 3 { "March" }
    else if m == 4 { "April" }
    else if m == 5 { "May" }
    else if m == 6 { "June" }
    else if m == 7 { "July" }
    else if m == 8 { "August" }
    else if m == 9 { "September" }
    else if m == 10 { "October" }
    else if m == 11 { "November" }
    else { "December" }
}

/// `%b`: the first three letters of the English name of a month.
pub fn month_abbrev(m: u32) -> (r: &'static str)
    ensures
        r@ == month_abbrev_text(m),
{
    proof {
        reveal_strlit("January");
        reveal_strlit("February");
        reveal_strlit("March");
        reveal_strlit("April");
        reveal_strlit("May");
        reveal_strlit("June");
        reveal_strlit("July");
        reveal_strlit("August");
        reveal_strlit("September");
        reveal_strlit("October");
        reveal_strlit("November");
        reveal_strlit("December");
        reveal_strlit("Jan");
        reveal_strlit("Feb");
        reveal_strlit("Mar");
        reveal_strlit("Apr");
        reveal_strlit("Jun");
        reveal_strlit("Jul");
        reveal_strlit("Aug");
        reveal_strlit("Sep");
        reveal_strlit("Oct");
        reveal_strlit("Nov");
        reveal_strlit("Dec");
    }
    let r = if m == 1 { "Jan" }
    else if m == 2 { "Feb" }
    else if m == 3 { "Mar" }
    else if m == 4 { "Apr" }
    else if m == 5 { "May" }
    else if m == 6 { "Jun" }
    else if m == 7 { "Jul" }
    else if m == 8 { "Aug" }
    else if m == 9 { "Sep" }
    else if m == 10 { "Oct" }
    else if m == 11 { "Nov" }
    else { "Dec" };
    assert(r@ =~= month_abbrev_text(m));
    r
}

/// The number of days from 1970-01-01 to `d` (negative before it), in the
/// proleptic Gregorian calendar (years counted from March, so that leap days
/// come last).
pub open spec fn days_from_epoch(d: CivilDate) -> int {
    let y: int = if d.month <= 2 { d.year - 1 } else { d.year as int };
    let era: int = y / 400;
    let yoe: int = y - era * 400;
    let mp: int = if d.month > 2 { d.month - 3 } else { d.month + 9 };
    let doy: int = (153 * mp + 2) / 5 + d.day - 1;
    let doe: int = yoe * 365 + yoe / 4 - yoe / 100 + doy;
    era * 146097 + doe - 719468
}

/// The day of the week of `d`, counted from Sunday (0) to Saturday (6);
/// 1970-01-01 was a Thursday.
pub open spec fn weekday_number(d: CivilDate) -> int {
    (days_from_epoch(d) + 4) % 7
}

/// `Datelike::weekday(..).num_days_from_sunday()` of chrono's `NaiveDate`:
/// the day of the week of a valid date, 0 for Sunday.
#[verifier::external_body]
pub fn weekday_from_sunday(d: &CivilDate) -> (r: u32)
    requires
        date_valid(*d),
    ensures
        r == weekday_number(*d),
{
    chrono::NaiveDate::from_ymd_opt(d.year, d.month, d.day).unwrap().weekday().num_days_from_sunday()
}

/// `%a`: the first three letters of the English name of a day of the week,
/// counted from Sunday (0); other numbers give Saturday.
pub open spec fn weekday_abbrev_text(w: u32) -> Seq<char> {
    if w == 0 { "Sun"@ }
    else if w == 1 { "Mon"@ }
    else if w == 2 { "Tue"@ }
    else if w == 3 { "Wed"@ }
    else if w == 4 { "Thu"@ }
    else if w == 5 { "Fri"@ }
    else { "Sat"@ }
}

/// `%a` of a day of the week counted from Sunday.
pub fn weekday_abbrev(w: u32) -> (r: &'static str)
    ensures
        r@ == weekday_abbrev_text(w),
{
    if w == 0 { "Sun" }
    else if w == 1 { "Mon" }
    else if w == 2 { "Tue" }
    else if w == 3 { "Wed" }
    else if w == 4 { "Thu" }
    else if w == 5 { "Fri" }
    else { "Sat" }
}

/// Whether a date-time exists and lies in the supported range.
pub fn valid_stamp(t: &Stamp) -> (r: bool)
    ensures
        r == stamp_valid(*t),
{
    let date_ok = match from_ymd(t.date.year, t.date.month, t.date.day) {
        Some(_) => true,
        None => false,
    };
    date_ok && t.hour < 24 && t.minute < 60 && t.second < 60
}

/// The date `n` days after `d`, when it is in range.
pub open spec fn days_after(d: CivilDate, n: nat) -> Option<CivilDate>
    decreases n,
{
    if n == 0 {
        Some(d)
    } else {
        match days_after(d, (n - 1) as nat) {
            Some(p) => next_day(p),
            None => None,
        }
    }
}

/// The date `n` days before `d`, when it is in range.
pub open spec fn days_before(d: CivilDate, n: nat) -> Option<CivilDate>
    decreases n,
{
    if n == 0 {
        Some(d)
    } else {
        match days_before(d, (n - 1) as nat) {
            Some(p) => prev_day(p),
            None => None,
        }
    }
}

/// The date `n` days after `d`.
pub fn add_days(d: CivilDate, n: u32) -> (r: Option<CivilDate>)
    requires
        date_valid(d),
    ensures
        r == days_after(d, n as nat),
        r matches Some(x) ==> date_valid(x),
{
    let mut cur = d;
    let mut k: u32 = 0;
    while k < n
        invariant
            k <= n,
            date_valid(cur),
            days_after(d, k as nat) == Some(cur),
        decreases n - k,
    {
        match succ_date(cur) {
            Some(x) => cur = x,
            None => {
                proof {
                    lemma_days_after_stuck(d, (k + 1) as nat, n as nat);
                }
                return None;
            },
        }
        k += 1;
    }
    Some(cur)
}

proof fn lemma_days_after_stuck(d: CivilDate, k: nat, n: nat)
    requires
        k <= n,
        days_after(d, k) is None,
    ensures
        days_after(d, n) is None,
    decreases n - k,
{
    if k < n {
        lemma_days_after_stuck(d, k + 1, n);
    }
}

/// The date `n` days before `d`.
pub fn sub_days(d: CivilDate, n: u32) -> (r: Option<CivilDate>)
    requires
        date_valid(d),
    ensures
        r == days_before(d, n as nat),
        r matches Some(x) ==> date_valid(x),
{
    let mut cur = d;
    let mut k: u32 = 0;
    while k < n
        invariant
            k <= n,
            date_valid(cur),
            days_before(d, k as nat) == Some(cur),
        decreases n - k,
    {
        match pred_date(cur) {
            Some(x) => cur = x,
            None => {
                proof {
                    lemma_days_before_stuck(d, (k + 1) as nat, n as nat);
                }
                return None;
            },
        }
        k += 1;
    }
    Some(cur)
}

proof fn lemma_days_before_stuck(d: CivilDate, k: nat, n: nat)
    requires
        k <= n,
        days_before(d, k) is None,
    ensures
        days_before(d, n) is None,
    decreases n - k,
{
    if k < n {
        lemma_days_before_stuck(d, k + 1, n);
    }
}

} // verus!
