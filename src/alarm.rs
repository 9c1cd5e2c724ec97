//! The alarm controller: keeps the hardware wake-up time in step with the
//! head of the cache, reprogramming only on change, and turns a wake-up time
//! into the digits of the clock's alarm register.

use vstd::prelude::*;

verus! {

/// Alarm time meaning "no alarm".
pub const NO_ALARM: i32 = -1;

/// What the clock must be told.
#[derive(Clone, Copy, Debug, PartialEq, Eq, Structural)]
pub enum AlarmAction {
    /// The requested time is already programmed.
    Keep,
    /// Switch the alarm off.
    Disable,
    /// Program the alarm for this time.
    Arm(i32),
}

/// The last programmed wake-up time, or `NO_ALARM`.
pub struct AlarmState {
    current_alarm_time: i32,
}

impl AlarmState {
    pub closed spec fn current(&self) -> i32 {
        self.current_alarm_time
    }

    /// A controller whose hardware alarm is programmed for `first_alarm`.
    pub fn new(first_alarm: i32) -> (r: AlarmState)
        ensures
            r.current() == first_alarm,
    {
        AlarmState { current_alarm_time: first_alarm }
    }

    pub fn current_alarm_time(&self) -> (r: i32)
        ensures
            r == self.current(),
    {
        self.current_alarm_time
    }

    /// Requests the alarm at `alarm_time`; a negative time asks for no alarm.
    /// Nothing is reprogrammed when the time equals the programmed one.
    #[allow(non_snake_case)]
    pub fn FP_set_alarm(&mut self, alarm_time: i32) -> (r: AlarmAction)
        ensures
            alarm_time == old(self).current() ==> r == AlarmAction::Keep && final(self).current()
                == old(self).current(),
            alarm_time != old(self).current() && alarm_time < 0 ==> r == AlarmAction::Disable
                && final(self).current() == NO_ALARM,
            alarm_time != old(self).current() && alarm_time >= 0 ==> r == AlarmAction::Arm(
                alarm_time,
            ) && final(self).current() == alarm_time,
    {
        if alarm_time == self.current_alarm_time {
            AlarmAction::Keep
        } else if alarm_time < 0 {
            self.current_alarm_time = NO_ALARM;
            AlarmAction::Disable
        } else {
            self.current_alarm_time = alarm_time;
            AlarmAction::Arm(alarm_time)
        }
    }
}

/// Seconds since midnight (UTC) of a Unix time; never negative.
pub open spec fn seconds_into_day(unixtime: i32) -> int {
    unixtime as int % 86400
}

/// Day number (UTC) of a Unix time, counted from 1970-01-01.
pub open spec fn unix_day(unixtime: i32) -> int {
    unixtime as int / 86400
}

/// Day of the month (UTC) of a Unix time in the proleptic Gregorian
/// calendar: the day number is shifted to count from 0000-03-01, split into
/// 400-year eras, then into year of era, day of year (from March) and month.
pub open spec fn utc_day_of_month(unixtime: i32) -> int {
    let z = unix_day(unixtime) + 719468;
    let era = z / 146097;
    let doe = z - era * 146097;
    let yoe = (doe - doe / 1460 + doe / 36524 - doe / 146096) / 365;
    let doy = doe - (365 * yoe + yoe / 4 - yoe / 100);
    let mp = (5 * doy + 2) / 153;
    doy - (153 * mp + 2) / 5 + 1
}

/// Relies on `time::OffsetDateTime::from_unix_timestamp`, which accepts every
/// 32-bit timestamp and dates it by its Julian day number (UTC), and
/// `OffsetDateTime::day`: the Gregorian day of the month, always in `1..=31`.
#[verifier::external_body]
fn day_of_month(unixtime: i32) -> (r: u8)
    ensures
        r == utc_day_of_month(unixtime),
        1 <= r <= 31,
{
    time::OffsetDateTime::from_unix_timestamp(unixtime as i64).unwrap().day()
}

/// Relies on `time::OffsetDateTime::from_unix_timestamp` and
/// `OffsetDateTime::to_hms`: the UTC clock time is hour, minute and second
/// of the seconds into the day, `unixtime.rem_euclid(86400)`.
#[verifier::external_body]
fn time_of_day(unixtime: i32) -> (r: (u8, u8, u8))
    ensures
        r.0 == seconds_into_day(unixtime) / 3600,
        r.1 == (seconds_into_day(unixtime) % 3600) / 60,
        r.2 == seconds_into_day(unixtime) % 60,
{
    time::OffsetDateTime::from_unix_timestamp(unixtime as i64).unwrap().to_hms()
}

/// The alarm register digits (tens, units) of day, hour, minute and second
/// of a Unix time.
pub fn transform_time(unixtime: i32) -> (r: (u8, u8, u8, u8, u8, u8, u8, u8))
    ensures
        r.0 == utc_day_of_month(unixtime) / 10,
        r.1 == utc_day_of_month(unixtime) % 10,
        r.2 == (seconds_into_day(unixtime) / 3600) / 10,
        r.3 == (seconds_into_day(unixtime) / 3600) % 10,
        r.4 == ((seconds_into_day(unixtime) % 3600) / 60) / 10,
        r.5 == ((seconds_into_day(unixtime) % 3600) / 60) % 10,
        r.6 == (seconds_into_day(unixtime) % 60) / 10,
        r.7 == (seconds_into_day(unixtime) % 60) % 10,
{
    let d = day_of_month(unixtime);
    let (h, m, s) = time_of_day(unixtime);
    (d / 10, d % 10, h / 10, h % 10, m / 10, m % 10, s / 10, s % 10)
}

} // verus!
