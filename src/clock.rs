use vstd::prelude::*;

use crate::errors::TransferError;
use crate::record::RETENTION_WINDOW;

verus! {

#[verifier::external_type_specification]
#[verifier::external_body]
pub struct ExSystemTime(std::time::SystemTime);

#[verifier::external_type_specification]
#[verifier::external_body]
pub struct ExSystemTimeError(std::time::SystemTimeError);

/// Relies on std's `SystemTime::now`: the present reading of the system
/// clock, of which nothing can be promised.
#[verifier::external_body]
fn clock_now() -> std::time::SystemTime {
    std::time::SystemTime::now()
}

/// Relies on std's `SystemTime::duration_since`, measured from
/// `UNIX_EPOCH`: an error when the clock reads a time before the epoch.
#[verifier::external_body]
fn since_epoch(t: &std::time::SystemTime) -> Result<
    core::time::Duration,
    std::time::SystemTimeError,
> {
    t.duration_since(std::time::UNIX_EPOCH)
}

/// Relies on std's `Duration::as_secs`: the whole seconds of a duration.
#[verifier::external_body]
fn whole_seconds(d: &core::time::Duration) -> u64 {
    d.as_secs()
}

/// The present time in whole seconds since the Unix epoch. Fails only when
/// the system clock reads a time before the epoch.
pub fn current_time() -> (r: Result<u64, TransferError>)
    ensures
        r matches Err(e) ==> e is Clock,
{
    let now = clock_now();
    match since_epoch(&now) {
        Ok(d) => Ok(whole_seconds(&d)),
        Err(_) => Err(TransferError::Clock),
    }
}

/// The UTC calendar day, written `dd-mm-yyyy`, of the instant `secs` seconds
/// after the Unix epoch; `None` where the calendar has no such day.
pub uninterp spec fn utc_day_text(secs: int) -> Option<Seq<char>>;

/// Relies on chrono's `DateTime::<Utc>::from_timestamp`, which gives `None`
/// out of its range, and on `format("%d-%m-%Y")`: the text depends on `secs`
/// alone.
#[verifier::external_body]
fn utc_day(secs: i64) -> (r: Option<String>)
    ensures
        match r {
            Some(s) => utc_day_text(secs as int) == Some(s@),
            None => utc_day_text(secs as int) is None,
        },
{
    match chrono::DateTime::<chrono::Utc>::from_timestamp(secs, 0) {
        Some(d) => Some(d.format("%d-%m-%Y").to_string()),
        None => None,
    }
}

/// The instant at which an upload made at `unix_time` expires remotely.
pub open spec fn expiry_instant(unix_time: u64) -> int {
    unix_time + RETENTION_WINDOW
}

/// The day, written `dd-mm-yyyy`, on which an upload made at `unix_time`
/// expires. Fails when that instant has no calendar date.
pub fn readable_date(unix_time: u64) -> (r: Result<String, TransferError>)
    ensures
        match r {
            Ok(s) => expiry_instant(unix_time) <= i64::MAX && utc_day_text(
                expiry_instant(unix_time),
            ) == Some(s@),
            Err(e) => e is InvalidDate && (expiry_instant(unix_time) > i64::MAX || utc_day_text(
                expiry_instant(unix_time),
            ) is None),
        },
{
    if unix_time > i64::MAX as u64 - RETENTION_WINDOW {
        return Err(TransferError::InvalidDate);
    }
    let secs = (unix_time + RETENTION_WINDOW) as i64;
    match utc_day(secs) {
        Some(s) => Ok(s),
        None => Err(TransferError::InvalidDate),
    }
}

} // verus!
