//! Trusted readings of the wall clock. Every other function of the crate
//! takes instants as plain millisecond values; these are the only places
//! where the current time enters, and nothing is assumed of a reading
//! beyond what its documentation states of every outcome.

use vstd::prelude::*;

use chrono::Datelike;

use crate::calendar::Date;

verus! {

/// Relies on chrono::Utc::now and DateTime::timestamp_millis: the current
/// wall-clock time in milliseconds since the Unix epoch, cast to unsigned.
/// A clock reading depends on the machine, so nothing is promised of it.
#[verifier::external_body]
pub fn now_utc_ms() -> u64 {
    chrono::Utc::now().timestamp_millis() as u64
}

/// Relies on chrono::Local::now and the Datelike methods year, month and
/// day: the current calendar date in the machine's local time zone. The
/// month lies in 1 to 12 and the day in 1 to 31, as chrono documents;
/// nothing more is assumed of a machine-dependent reading.
#[verifier::external_body]
pub fn local_date_today() -> (r: Date)
    ensures
        1 <= r.month <= 12,
        1 <= r.day <= 31,
{
    let now = chrono::Local::now();
    Date { year: now.year() as u64, month: now.month() as u64, day: now.day() as u64 }
}

} // verus!
