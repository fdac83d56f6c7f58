use vstd::prelude::*;
use chrono::{Datelike, TimeZone};

verus! {

/// A moment of local time, as the countdown reads it.
///
/// `today` is the local calendar day, counted so that 0001-01-01 is day 1; `timestamp` is
/// the instant in seconds since the Unix epoch; `weekday` counts from Monday (0) and
/// `day` and `month` are the local day of the month and month of the year.
#[derive(Clone, Copy, Debug, PartialEq, Eq, Structural)]
pub struct Moment {
    pub today: i32,
    pub timestamp: i64,
    pub weekday: u32,
    pub day: u32,
    pub month: u32,
}

impl Moment {
    pub open spec fn wf(self) -> bool {
        &&& self.weekday < 7
        &&& 1 <= self.day <= 31
        &&& 1 <= self.month <= 12
    }
}

/// A calendar date as written in a configuration file.
#[derive(Clone, Copy, Debug, PartialEq, Eq, Structural)]
pub struct ConfigDate {
    pub year: u16,
    pub month: u8,
    pub day: u8,
}

/// A time of day as written in a configuration file.
#[derive(Clone, Copy, Debug, PartialEq, Eq, Structural)]
pub struct ConfigTime {
    pub hour: u8,
    pub minute: u8,
    pub second: u8,
}

/// A local date-time as written in a configuration file: the time of day is midnight when
/// it is left out.
#[derive(Clone, Copy, Debug, PartialEq, Eq, Structural)]
pub struct ConfigDateTime {
    pub date: Option<ConfigDate>,
    pub time: Option<ConfigTime>,
}

/// A resolved local date-time: its local calendar day and its instant.
#[derive(Clone, Copy, Debug, PartialEq, Eq, Structural)]
pub struct LocalInstant {
    pub day: i32,
    pub timestamp: i64,
}

/// How a local date-time maps onto instants in the machine's time zone.
#[derive(Clone, Copy, Debug, PartialEq, Eq, Structural)]
pub enum LocalResolution {
    /// The local time is skipped (a forward transition).
    Nonexistent,
    /// Exactly one instant, in seconds since the Unix epoch.
    Single { timestamp: i64 },
    /// Two instants (a backward transition).
    Ambiguous,
}

#[derive(Clone, Copy, Debug, PartialEq, Eq, Structural)]
pub enum DateError {
    MissingDate,
    /// Month or day out of range.
    InvalidDate,
    /// Hour, minute or second out of range.
    InvalidTime,
    /// The local time does not exist in the machine's time zone.
    NonexistentLocalTime,
    /// The local time names two instants in the machine's time zone.
    AmbiguousLocalTime,
}

pub open spec fn is_leap_year(y: int) -> bool {
    y % 4 == 0 && (y % 100 != 0 || y % 400 == 0)
}

pub open spec fn month_length(y: int, m: int) -> int {
    if m == 2 {
        if is_leap_year(y) { 29 } else { 28 }
    } else if m == 4 || m == 6 || m == 9 || m == 11 {
        30
    } else {
        31
    }
}

pub open spec fn valid_civil(y: int, m: int, d: int) -> bool {
    1 <= m <= 12 && 1 <= d <= month_length(y, m)
}

/// The day number of a proleptic Gregorian date, with 0001-01-01 as day 1.
pub open spec fn civil_day(y: int, m: int, d: int) -> int {
    let y1 = if m <= 2 { y - 1 } else { y };
    let era = y1 / 400;
    let yoe = y1 - era * 400;
    let mp = if m > 2 { m - 3 } else { m + 9 };
    let doy = (153 * mp + 2) / 5 + d - 1;
    let doe = yoe * 365 + yoe / 4 - yoe / 100 + doy;
    era * 146097 + doe - 305
}

pub open spec fn valid_time(t: ConfigTime) -> bool {
    t.hour < 24 && t.minute < 60 && t.second < 60
}

/// The time of day of a configured date-time: midnight when none is given.
pub open spec fn time_or_midnight(dt: ConfigDateTime) -> ConfigTime {
    match dt.time {
        Some(t) => t,
        None => ConfigTime { hour: 0, minute: 0, second: 0 },
    }
}

/// Relies on `chrono::NaiveDate::from_ymd_opt` (proleptic Gregorian calendar, `None` on an
/// invalid month or day) and `NaiveDate::num_days_from_ce` (0001-01-01 is day 1).
#[verifier::external_body]
fn ymd_day_number(year: u16, month: u8, day: u8) -> (r: Option<i32>)
    ensures
        r is Some <==> valid_civil(year as int, month as int, day as int),
        r is Some ==> r->0 == civil_day(year as int, month as int, day as int),
{
    chrono::NaiveDate::from_ymd_opt(year as i32, month as u32, day as u32).map(|d| d.num_days_from_ce())
}

/// Relies on `chrono::Local::from_local_datetime`: how the machine's time zone maps the
/// local date-time at `day` (0001-01-01 is day 1) and the given time of day onto instants.
#[verifier::external_body]
pub(crate) fn resolve_local(day: i32, t: ConfigTime) -> (r: LocalResolution)
    requires
        valid_time(t),
{
    let date = chrono::NaiveDate::from_num_days_from_ce_opt(day);
    let naive = date.and_then(|d| d.and_hms_opt(t.hour as u32, t.minute as u32, t.second as u32));
    match naive.map(|n| chrono::Local.from_local_datetime(&n)) {
        Some(chrono::LocalResult::Single(i)) => LocalResolution::Single { timestamp: i.timestamp() },
        Some(chrono::LocalResult::Ambiguous(_, _)) => LocalResolution::Ambiguous,
        _ => LocalResolution::Nonexistent,
    }
}

/// Relies on `chrono::Local::now`: the current local moment (0001-01-01, day 1, was a Monday).
#[verifier::external_body]
pub(crate) fn current_moment() -> (m: Moment)
    ensures
        m.wf(),
        m.weekday == (m.today - 1) % 7,
{
    let now = chrono::Local::now();
    Moment {
        today: now.date_naive().num_days_from_ce(),
        timestamp: now.timestamp(),
        weekday: now.weekday().num_days_from_monday(),
        day: now.day(),
        month: now.month(),
    }
}

/// The local instant of a resolution found for `day`.
pub fn instant_from_resolution(day: i32, res: LocalResolution) -> (r: Result<LocalInstant, DateError>)
    ensures
        r == instant_of(day, res),
{
    match res {
        LocalResolution::Single { timestamp } => Ok(LocalInstant { day, timestamp }),
        LocalResolution::Ambiguous => Err(DateError::AmbiguousLocalTime),
        LocalResolution::Nonexistent => Err(DateError::NonexistentLocalTime),
    }
}

/// The error that a configured date-time gives whatever the time zone, if any.
pub open spec fn static_date_error(dt: ConfigDateTime) -> Option<DateError> {
    match dt.date {
        None => Some(DateError::MissingDate),
        Some(d) => if !valid_civil(d.year as int, d.month as int, d.day as int) {
            Some(DateError::InvalidDate)
        } else if !valid_time(time_or_midnight(dt)) {
            Some(DateError::InvalidTime)
        } else {
            None
        },
    }
}

/// The configured calendar day of a date-time that has a date.
pub open spec fn config_day(dt: ConfigDateTime) -> int {
    match dt.date {
        Some(d) => civil_day(d.year as int, d.month as int, d.day as int),
        None => 0,
    }
}

/// What is asked of the time zone for a configured date-time: its day and time of day, or
/// the error that it gives whatever the zone.
pub open spec fn query_of(dt: ConfigDateTime) -> Result<(i32, ConfigTime), DateError> {
    match static_date_error(dt) {
        Some(e) => Err(e),
        None => Ok((config_day(dt) as i32, time_or_midnight(dt))),
    }
}

/// The local instant of a resolution found for `day`.
pub open spec fn instant_of(day: i32, res: LocalResolution) -> Result<LocalInstant, DateError> {
    match res {
        LocalResolution::Single { timestamp } => Ok(LocalInstant { day, timestamp }),
        LocalResolution::Ambiguous => Err(DateError::AmbiguousLocalTime),
        LocalResolution::Nonexistent => Err(DateError::NonexistentLocalTime),
    }
}

/// A configured date-time resolved, given what the time zone answered for its query.
pub open spec fn resolved_of(dt: ConfigDateTime, res: LocalResolution) -> Result<LocalInstant, DateError> {
    match query_of(dt) {
        Err(e) => Err(e),
        Ok(q) => instant_of(q.0, res),
    }
}

/// The day and time of day to look up for a configured date-time, or the error that it gives
/// whatever the time zone: a missing date, an invalid date, an invalid time, in that order.
pub fn local_query(dt: &ConfigDateTime) -> (r: Result<(i32, ConfigTime), DateError>)
    ensures
        r == query_of(*dt),
{
    let d = match dt.date {
        Some(d) => d,
        None => { return Err(DateError::MissingDate); },
    };
    let day = match ymd_day_number(d.year, d.month, d.day) {
        Some(n) => n,
        None => { return Err(DateError::InvalidDate); },
    };
    let t = match dt.time {
        Some(t) => t,
        None => ConfigTime { hour: 0, minute: 0, second: 0 },
    };
    if !(t.hour < 24 && t.minute < 60 && t.second < 60) {
        return Err(DateError::InvalidTime);
    }
    Ok((day, t))
}

/// Resolves a configured local date-time in the machine's time zone. A missing date, an
/// invalid date and an invalid time are errors of their own; so are a local time that the
/// zone skips and one that it names twice.
pub fn toml_to_chrono(dt: &ConfigDateTime) -> (r: Result<LocalInstant, DateError>)
    ensures
        exists|res: LocalResolution| r == #[trigger] resolved_of(*dt, res),
        query_of(*dt) matches Err(e) ==> r == Err::<LocalInstant, DateError>(e),
        r matches Ok(i) ==> i.day == config_day(*dt),
{
    let (day, t) = match local_query(dt) {
        Ok(q) => q,
        Err(e) => {
            assert(Err::<LocalInstant, DateError>(e) == resolved_of(*dt, LocalResolution::Ambiguous));
            return Err(e);
        },
    };
    let res = resolve_local(day, t);
    let r = instant_from_resolution(day, res);
    assert(r == resolved_of(*dt, res));
    r
}

} // verus!
