//! The proleptic Gregorian calendar from the Unix epoch on: day counts,
//! civil dates, and the time-of-day fields of a millisecond timestamp.
//! Storage keys and the daily log partition both rest on this module.

use vstd::prelude::*;

verus! {

/// Milliseconds in one day.
pub const MS_PER_DAY: u64 = 86400000;

/// Milliseconds in one hour.
pub const MS_PER_HOUR: u64 = 3600000;

/// Milliseconds in one minute.
pub const MS_PER_MIN: u64 = 60000;

/// Whether a year is a leap year.
pub open spec fn is_leap_year(y: int) -> bool {
    (y % 4 == 0 && y % 100 != 0) || y % 400 == 0
}

/// Days in a year.
pub open spec fn days_in_year(y: int) -> int {
    if is_leap_year(y) {
        366
    } else {
        365
    }
}

/// Days in a month (month numbered 1 to 12).
pub open spec fn days_in_month(y: int, m: int) -> int {
    if m == 2 {
        if is_leap_year(y) {
            29
        } else {
            28
        }
    } else if m == 4 || m == 6 || m == 9 || m == 11 {
        30
    } else {
        31
    }
}

/// Days from 1970-01-01 to the first day of year `y` (year 1970 or later).
pub open spec fn days_before_year(y: int) -> int
    decreases y - 1970,
{
    if y <= 1970 {
        0
    } else {
        days_before_year(y - 1) + days_in_year(y - 1)
    }
}

/// Days from the first day of year `y` to the first day of its month `m`.
pub open spec fn days_before_month(y: int, m: int) -> int
    decreases m,
{
    if m <= 1 {
        0
    } else {
        days_before_month(y, m - 1) + days_in_month(y, m - 1)
    }
}

/// Day number (days since 1970-01-01) of a civil date.
pub open spec fn days_from_civil(y: int, m: int, d: int) -> int {
    days_before_year(y) + days_before_month(y, m) + (d - 1)
}

/// A well-formed civil date of the epoch era.
pub open spec fn valid_civil(y: int, m: int, d: int) -> bool {
    &&& y >= 1970
    &&& 1 <= m <= 12
    &&& 1 <= d <= days_in_month(y, m)
}

/// The months of a year account for exactly its days.
pub proof fn lemma_year_months(y: int)
    ensures
        days_before_month(y, 13) == days_in_year(y),
{
    reveal_with_fuel(days_before_month, 13);
}

/// A year count is bounded by its day count.
pub proof fn lemma_days_before_year_lower(y: int)
    requires
        y >= 1970,
    ensures
        days_before_year(y) >= 365 * (y - 1970),
    decreases y - 1970,
{
    if y > 1970 {
        lemma_days_before_year_lower(y - 1);
    }
}

/// Month day-counts accumulate monotonically.
pub proof fn lemma_days_before_month_monotone(y: int, a: int, b: int)
    requires
        1 <= a <= b,
    ensures
        days_before_month(y, a) <= days_before_month(y, b),
    decreases b - a,
{
    if a < b {
        lemma_days_before_month_monotone(y, a, b - 1);
    }
}

/// Year day-counts accumulate monotonically.
pub proof fn lemma_days_before_year_monotone(a: int, b: int)
    requires
        1970 <= a <= b,
    ensures
        days_before_year(a) <= days_before_year(b),
    decreases b - a,
{
    if a < b {
        lemma_days_before_year_monotone(a, b - 1);
    }
}

/// The day count of a valid date stays inside its year.
pub proof fn lemma_civil_within_year(y: int, m: int, d: int)
    requires
        valid_civil(y, m, d),
    ensures
        0 <= days_before_month(y, m) + (d - 1) < days_in_year(y),
{
    lemma_days_before_month_monotone(y, 1, m);
    assert(days_before_month(y, 1) == 0);
    lemma_days_before_month_monotone(y, m + 1, 13);
    lemma_year_months(y);
    assert(days_before_month(y, m + 1) == days_before_month(y, m) + days_in_month(y, m));
}

/// Two valid dates with the same day count are the same date.
pub proof fn lemma_civil_unique(y1: int, m1: int, d1: int, y2: int, m2: int, d2: int)
    requires
        valid_civil(y1, m1, d1),
        valid_civil(y2, m2, d2),
        days_from_civil(y1, m1, d1) == days_from_civil(y2, m2, d2),
    ensures
        y1 == y2 && m1 == m2 && d1 == d2,
{
    lemma_civil_within_year(y1, m1, d1);
    lemma_civil_within_year(y2, m2, d2);
    if y1 < y2 {
        lemma_days_before_year_monotone(y1 + 1, y2);
        assert(false);
    }
    if y2 < y1 {
        lemma_days_before_year_monotone(y2 + 1, y1);
        assert(false);
    }
    if m1 < m2 {
        lemma_days_before_month_monotone(y1, m1 + 1, m2);
        assert(days_before_month(y1, m1 + 1) == days_before_month(y1, m1) + days_in_month(
            y1,
            m1,
        ));
        assert(false);
    }
    if m2 < m1 {
        lemma_days_before_month_monotone(y1, m2 + 1, m1);
        assert(days_before_month(y1, m2 + 1) == days_before_month(y1, m2) + days_in_month(
            y1,
            m2,
        ));
        assert(false);
    }
}

/// The largest day number a 64-bit millisecond timestamp can reach.
pub const MAX_EPOCH_DAY: u64 = 213503982335;

/// Whether a day number is one a 64-bit millisecond timestamp can reach.
pub open spec fn representable_day(days: int) -> bool {
    0 <= days <= MAX_EPOCH_DAY
}

/// Every representable day number has a well-formed date: the one the
/// choice in `spec_date_of_day` picks.
pub proof fn lemma_date_of_day_exists(days: int)
    requires
        representable_day(days),
    ensures
        spec_date_of_day(days).well_formed(),
        days_from_civil(
            spec_date_of_day(days).year as int,
            spec_date_of_day(days).month as int,
            spec_date_of_day(days).day as int,
        ) == days,
    decreases days,
{
    if days == 0 {
        let w = Date { year: 1970, month: 1, day: 1 };
        assert(w.well_formed() && days_from_civil(1970, 1, 1) == 0);
        assert(exists|dt: Date|
            dt.well_formed() && days_from_civil(
                dt.year as int,
                dt.month as int,
                dt.day as int,
            ) == days);
    } else {
        lemma_date_of_day_exists(days - 1);
        let p = spec_date_of_day(days - 1);
        let y = p.year as int;
        let m = p.month as int;
        let d = p.day as int;
        lemma_days_before_year_lower(y);
        lemma_days_before_month_monotone(y, 1, m);
        assert(y <= 1970 + days) by (nonlinear_arith)
            requires
                365 * (y - 1970) <= days - 1,
                y >= 1970,
                days >= 1,
        ;
        if d < days_in_month(y, m) {
            let w = Date { year: p.year, month: p.month, day: (p.day + 1) as u64 };
            assert(w.well_formed() && days_from_civil(y, m, d + 1) == days);
            assert(exists|dt: Date|
                dt.well_formed() && days_from_civil(
                    dt.year as int,
                    dt.month as int,
                    dt.day as int,
                ) == days);
        } else if m < 12 {
            let w = Date { year: p.year, month: (p.month + 1) as u64, day: 1 };
            assert(days_before_month(y, m + 1) == days_before_month(y, m) + days_in_month(y, m));
            assert(w.well_formed() && days_from_civil(y, m + 1, 1) == days);
            assert(exists|dt: Date|
                dt.well_formed() && days_from_civil(
                    dt.year as int,
                    dt.month as int,
                    dt.day as int,
                ) == days);
        } else {
            let w = Date { year: (p.year + 1) as u64, month: 1, day: 1 };
            lemma_year_months(y);
            assert(days_before_month(y, 13) == days_before_month(y, 12) + days_in_month(y, 12));
            assert(days_before_year(y + 1) == days_before_year(y) + days_in_year(y));
            assert(w.well_formed() && days_from_civil(y + 1, 1, 1) == days);
            assert(exists|dt: Date|
                dt.well_formed() && days_from_civil(
                    dt.year as int,
                    dt.month as int,
                    dt.day as int,
                ) == days);
        }
    }
}

/// Later day numbers never get earlier dates: the chosen date grows with
/// the day count, in year-month-day order.
pub proof fn lemma_date_of_day_monotone(a: int, b: int)
    requires
        0 <= a <= b,
        representable_day(b),
    ensures
        ({
            let da = spec_date_of_day(a);
            let db = spec_date_of_day(b);
            da.year < db.year || (da.year == db.year && (da.month < db.month || (da.month
                == db.month && da.day <= db.day)))
        }),
{
    lemma_date_of_day_exists(a);
    lemma_date_of_day_exists(b);
    let da = spec_date_of_day(a);
    let db = spec_date_of_day(b);
    let y1 = da.year as int;
    let m1 = da.month as int;
    let d1 = da.day as int;
    let y2 = db.year as int;
    let m2 = db.month as int;
    let d2 = db.day as int;
    lemma_civil_within_year(y1, m1, d1);
    lemma_civil_within_year(y2, m2, d2);
    if y2 < y1 {
        lemma_days_before_year_monotone(y2 + 1, y1);
        assert(false);
    } else if y1 == y2 {
        if m2 < m1 {
            lemma_days_before_month_monotone(y1, m2 + 1, m1);
            assert(days_before_month(y1, m2 + 1) == days_before_month(y1, m2) + days_in_month(
                y1,
                m2,
            ));
            assert(false);
        }
    }
}

/// Days in a year, as executable code.
pub fn days_in_year_exec(y: u64) -> (r: u64)
    ensures
        r == days_in_year(y as int),
{
    if (y % 4 == 0 && y % 100 != 0) || y % 400 == 0 {
        366
    } else {
        365
    }
}

/// Days in a month, as executable code.
pub fn days_in_month_exec(y: u64, m: u64) -> (r: u64)
    requires
        1 <= m <= 12,
    ensures
        r == days_in_month(y as int, m as int),
{
    if m == 2 {
        if (y % 4 == 0 && y % 100 != 0) || y % 400 == 0 {
            29
        } else {
            28
        }
    } else if m == 4 || m == 6 || m == 9 || m == 11 {
        30
    } else {
        31
    }
}

/// A calendar date.
#[derive(Debug, Clone, Copy, PartialEq, Eq, Structural)]
pub struct Date {
    pub year: u64,
    pub month: u64,
    pub day: u64,
}

impl Date {
    /// Whether the fields form a well-formed date of the epoch era.
    pub open spec fn well_formed(&self) -> bool {
        valid_civil(self.year as int, self.month as int, self.day as int)
    }
}

/// The well-formed date whose day count is the given number of days since
/// 1970-01-01 (unique by `lemma_civil_unique`).
pub open spec fn spec_date_of_day(days: int) -> Date {
    choose|dt: Date|
        dt.well_formed() && days_from_civil(dt.year as int, dt.month as int, dt.day as int)
            == days
}

/// The civil date of a day number: the unique well-formed date whose day
/// count is the given number of days since 1970-01-01.
pub fn civil_from_days(days: u64) -> (r: Date)
    ensures
        r.well_formed(),
        days_from_civil(r.year as int, r.month as int, r.day as int) == days,
        r == spec_date_of_day(days as int),
{
    let mut y: u64 = 1970;
    let mut rem: u64 = days;
    loop
        invariant
            y >= 1970,
            days == days_before_year(y as int) + rem,
        ensures
            y >= 1970,
            days == days_before_year(y as int) + rem,
            rem < days_in_year(y as int),
        decreases rem,
    {
        proof {
            lemma_days_before_year_lower(y as int);
        }
        let in_year = days_in_year_exec(y);
        if rem < in_year {
            break ;
        }
        rem = rem - in_year;
        y = y + 1;
    }
    let mut m: u64 = 1;
    loop
        invariant
            1 <= m <= 12,
            days == days_before_year(y as int) + days_before_month(y as int, m as int) + rem,
            days_before_month(y as int, m as int) + rem < days_in_year(y as int),
        ensures
            1 <= m <= 12,
            days == days_before_year(y as int) + days_before_month(y as int, m as int) + rem,
            rem < days_in_month(y as int, m as int),
        decreases 12 - m,
    {
        let in_month = days_in_month_exec(y, m);
        if rem < in_month {
            break ;
        }
        proof {
            if m == 12 {
                lemma_year_months(y as int);
                assert(false);
            }
        }
        rem = rem - in_month;
        m = m + 1;
    }
    let r = Date { year: y, month: m, day: rem + 1 };
    proof {
        let w = spec_date_of_day(days as int);
        assert(w.well_formed() && days_from_civil(
            w.year as int,
            w.month as int,
            w.day as int,
        ) == days) by {
            assert(r.well_formed() && days_from_civil(
                r.year as int,
                r.month as int,
                r.day as int,
            ) == days);
        }
        lemma_civil_unique(
            r.year as int,
            r.month as int,
            r.day as int,
            w.year as int,
            w.month as int,
            w.day as int,
        );
    }
    r
}

/// The fields of a timestamp: a civil date and a time of day.
#[derive(Debug, Clone, Copy, PartialEq, Eq, Structural)]
pub struct CivilTime {
    pub date: Date,
    pub hour: u64,
    pub minute: u64,
    pub second: u64,
    pub millisecond: u64,
}

impl CivilTime {
    /// Whether the fields form a well-formed instant.
    pub open spec fn well_formed(&self) -> bool {
        &&& self.date.well_formed()
        &&& self.hour < 24
        &&& self.minute < 60
        &&& self.second < 60
        &&& self.millisecond < 1000
    }
}

/// The fields of a millisecond timestamp, as a specification.
pub open spec fn spec_civil_time_of_ms(ms: int) -> CivilTime {
    CivilTime {
        date: spec_date_of_day(ms / MS_PER_DAY as int),
        hour: ((ms % MS_PER_DAY as int) / MS_PER_HOUR as int) as u64,
        minute: ((ms % MS_PER_HOUR as int) / MS_PER_MIN as int) as u64,
        second: ((ms % MS_PER_MIN as int) / 1000) as u64,
        millisecond: (ms % 1000) as u64,
    }
}

/// Split a millisecond timestamp (milliseconds since 1970-01-01T00:00:00)
/// into its civil date and time-of-day fields.
pub fn civil_time_of_ms(ms: u64) -> (r: CivilTime)
    ensures
        r.well_formed(),
        r == spec_civil_time_of_ms(ms as int),
        days_from_civil(r.date.year as int, r.date.month as int, r.date.day as int) == ms as int
            / MS_PER_DAY as int,
        r.hour == (ms as int % MS_PER_DAY as int) / MS_PER_HOUR as int,
        r.minute == (ms as int % MS_PER_HOUR as int) / MS_PER_MIN as int,
        r.second == (ms as int % MS_PER_MIN as int) / 1000,
        r.millisecond == ms as int % 1000,
{
    let days = ms / MS_PER_DAY;
    let date = civil_from_days(days);
    let hour = (ms % MS_PER_DAY) / MS_PER_HOUR;
    let minute = (ms % MS_PER_HOUR) / MS_PER_MIN;
    let second = (ms % MS_PER_MIN) / 1000;
    let millisecond = ms % 1000;
    CivilTime { date, hour, minute, second, millisecond }
}

/// The date alone of a millisecond timestamp, read as universal time.
pub fn utc_date_of_ms(ms: u64) -> (r: Date)
    ensures
        r.well_formed(),
        r == spec_date_of_day(ms as int / MS_PER_DAY as int),
        days_from_civil(r.year as int, r.month as int, r.day as int) == ms as int / MS_PER_DAY
            as int,
{
    civil_from_days(ms / MS_PER_DAY)
}

} // verus!
