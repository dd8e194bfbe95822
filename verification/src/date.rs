//! The volume's clock: whole seconds counted from the start of 1904.

use vstd::prelude::*;

verus! {

/// The year of the day at whose first instant (UTC) the volume's clock stands at zero.
pub const EPOCH_YEAR: i32 = 1904;

/// The month of that day.
pub const EPOCH_MONTH: u32 = 1;

/// Its day of the month.
pub const EPOCH_DAY: u32 = 1;

/// The seconds from the start of 1904 to the start of 1970: 66 years, 17 of them leap years.
pub const SECONDS_BEFORE_1970: i64 = 2_082_844_800;

/// An instant, in whole seconds relative to the start of 1970 (UTC).
#[derive(Clone, Copy, Debug, PartialEq, Eq, Structural)]
pub struct Timestamp {
    pub unix_seconds: i64,
}

/// The instant at which the volume's clock shows `seconds`.
pub open spec fn instant_of(seconds: u32) -> Timestamp {
    Timestamp { unix_seconds: (seconds - SECONDS_BEFORE_1970) as i64 }
}

/// `chrono`'s reckoning of the instant that lies `seconds` after midnight (UTC) at the start of
/// 1 January 1904, as that instant's `DateTime::timestamp`. The day comes from
/// `NaiveDate::from_ymd_opt` and `NaiveDate::and_hms_opt`, is placed in UTC by
/// `TimeZone::from_utc_datetime` and moved on by `DateTime::checked_add_signed` over
/// `TimeDelta::try_seconds`. The contract is stated for this one day only: each step has a
/// result, and counted from 1970 the instant is `seconds - 2_082_844_800`.
#[verifier::external_body]
fn unix_seconds_after(year: i32, month: u32, day: u32, seconds: u32) -> (unix: Option<i64>)
    requires
        year == EPOCH_YEAR,
        month == EPOCH_MONTH,
        day == EPOCH_DAY,
    ensures
        unix == Some((seconds - SECONDS_BEFORE_1970) as i64),
{
    let origin = chrono::NaiveDate::from_ymd_opt(year, month, day)?.and_hms_opt(0, 0, 0)?;
    let elapsed = chrono::Duration::try_seconds(i64::from(seconds))?;
    let date = chrono::TimeZone::from_utc_datetime(&chrono::Utc, &origin);
    Some(date.checked_add_signed(elapsed)?.timestamp())
}

impl Timestamp {
    /// The instant at which the volume's clock shows `seconds`.
    pub fn from_volume_seconds(seconds: u32) -> (date: Timestamp)
        ensures
            date == instant_of(seconds),
    {
        let unix = unix_seconds_after(EPOCH_YEAR, EPOCH_MONTH, EPOCH_DAY, seconds);
        Timestamp { unix_seconds: unix.unwrap() }
    }
}

} // verus!
