//! Calendar timestamps with a local-timezone offset.
//!
//! A `Timestamp` holds a civil (calendar) date and time of day together with
//! the local offset from UTC in minutes. Durations between timestamps are
//! computed by converting each to seconds since the Unix epoch; the civil
//! date is kept as-is for calendar-day bucketing.

use vstd::prelude::*;

verus! {

/// A timezone-aware point in time: local calendar fields plus the offset
/// (in minutes) of local time ahead of UTC.
#[derive(Clone, Copy, PartialEq, Eq, Structural, Debug)]
pub struct Timestamp {
    pub year: u32,
    pub month: u32,
    pub day: u32,
    pub hour: u32,
    pub minute: u32,
    pub second: u32,
    pub offset_minutes: i32,
}

impl Timestamp {
    /// Field ranges every timestamp in the library satisfies.
    pub open spec fn wf(self) -> bool {
        &&& 1 <= self.year <= 9999
        &&& 1 <= self.month <= 12
        &&& 1 <= self.day <= 31
        &&& self.hour <= 23
        &&& self.minute <= 59
        &&& self.second <= 59
        &&& -1439 <= self.offset_minutes <= 1439
    }

    /// Two timestamps fall on the same local calendar date.
    pub open spec fn same_date(self, other: Timestamp) -> bool {
        self.year == other.year && self.month == other.month && self.day == other.day
    }
}

/// The `wf` field ranges, computed.
pub fn timestamp_wf(t: &Timestamp) -> (r: bool)
    ensures
        r == t.wf(),
{
    1 <= t.year && t.year <= 9999 && 1 <= t.month && t.month <= 12 && 1 <= t.day && t.day <= 31
        && t.hour <= 23 && t.minute <= 59 && t.second <= 59 && -1439 <= t.offset_minutes
        && t.offset_minutes <= 1439
}

pub open spec fn spec_is_leap_year(y: int) -> bool {
    (y % 4 == 0 && y % 100 != 0) || y % 400 == 0
}

pub fn is_leap_year(y: u32) -> (r: bool)
    ensures
        r == spec_is_leap_year(y as int),
{
    (y % 4 == 0 && y % 100 != 0) || y % 400 == 0
}

pub open spec fn spec_days_in_month(y: int, m: int) -> int {
    if m == 2 {
        if spec_is_leap_year(y) { 29 } else { 28 }
    } else if m == 4 || m == 6 || m == 9 || m == 11 {
        30
    } else {
        31
    }
}

pub fn days_in_month(y: u32, m: u32) -> (r: u32)
    ensures
        r == spec_days_in_month(y as int, m as int),
{
    if m == 2 {
        if is_leap_year(y) { 29 } else { 28 }
    } else if m == 4 || m == 6 || m == 9 || m == 11 {
        30
    } else {
        31
    }
}

/// Days from the Unix epoch (1970-01-01) to the civil date `y-m-d`,
/// negative for earlier dates. Uses era/year-of-era arithmetic over the
/// 400-year Gregorian cycle (146097 days); within the `wf` ranges every
/// intermediate value is non-negative, so `/` is plain integer division.
pub open spec fn spec_day_number(y: int, m: int, d: int) -> int {
    let yy = if m <= 2 { y - 1 } else { y };
    let era = yy / 400;
    let yoe = yy - era * 400;
    let mp = if m > 2 { m - 3 } else { m + 9 };
    let doy = (153 * mp + 2) / 5 + d - 1;
    let doe = yoe * 365 + yoe / 4 - yoe / 100 + doy;
    era * 146097 + doe - 719468
}

/// Local civil seconds minus the offset: seconds since the Unix epoch.
pub open spec fn spec_epoch_seconds(t: Timestamp) -> int {
    spec_day_number(t.year as int, t.month as int, t.day as int) * 86400
        + t.hour * 3600 + t.minute * 60 + t.second
        - t.offset_minutes * 60
}

pub fn day_number(t: &Timestamp) -> (r: i64)
    requires
        t.wf(),
    ensures
        r == spec_day_number(t.year as int, t.month as int, t.day as int),
        -719469 < r < 3000000,
{
    let yy: u64 = if t.month <= 2 { (t.year - 1) as u64 } else { t.year as u64 };
    let era: u64 = yy / 400;
    assert(era * 400 <= yy && era <= 24) by {
        vstd::arithmetic::div_mod::lemma_fundamental_div_mod(yy as int, 400);
    };
    let yoe: u64 = yy - era * 400;
    let mp: u64 = if t.month > 2 { (t.month - 3) as u64 } else { (t.month + 9) as u64 };
    let doy: u64 = (153 * mp + 2) / 5 + (t.day - 1) as u64;
    let doe: u64 = yoe * 365 + yoe / 4 - yoe / 100 + doy;
    (era * 146097 + doe) as i64 - 719468
}

pub fn epoch_seconds(t: &Timestamp) -> (r: i64)
    requires
        t.wf(),
    ensures
        r == spec_epoch_seconds(*t),
        -100000000000 < r < 300000000000,
{
    let days = day_number(t);
    days * 86400 + (t.hour as i64) * 3600 + (t.minute as i64) * 60 + (t.second as i64)
        - (t.offset_minutes as i64) * 60
}

/// The calendar date one day before `t`'s, keeping the time-of-day fields.
/// At the model's lower bound (year 1, January 1) the date is left as it is.
pub open spec fn spec_prev_day(t: Timestamp) -> Timestamp {
    if t.day > 1 {
        Timestamp { day: (t.day - 1) as u32, ..t }
    } else if t.month > 1 {
        Timestamp {
            month: (t.month - 1) as u32,
            day: spec_days_in_month(t.year as int, t.month - 1) as u32,
            ..t
        }
    } else if t.year > 1 {
        Timestamp { year: (t.year - 1) as u32, month: 12, day: 31, ..t }
    } else {
        t
    }
}

pub fn prev_day(t: &Timestamp) -> (r: Timestamp)
    requires
        t.wf(),
    ensures
        r == spec_prev_day(*t),
        r.wf(),
{
    if t.day > 1 {
        Timestamp { day: t.day - 1, ..*t }
    } else if t.month > 1 {
        Timestamp { month: t.month - 1, day: days_in_month(t.year, t.month - 1), ..*t }
    } else if t.year > 1 {
        Timestamp { year: t.year - 1, month: 12, day: 31, ..*t }
    } else {
        *t
    }
}

} // verus!
