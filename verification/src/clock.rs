//! The local clock, read through the date-time crate and handed to the
//! rest of the core as plain values. Nothing can be promised about *which*
//! instant comes back; the callers' logic is verified for every reading.

use chrono::{Datelike, Timelike};

use vstd::prelude::*;

verus! {

/// One reading of the local clock: the local calendar date, the time of
/// day, and the civil timestamp in seconds.
#[derive(Clone, Copy, Debug)]
pub struct LocalStamp {
    pub year: i32,
    pub month: u8,
    pub day: u8,
    pub hour: u8,
    pub minute: u8,
    pub epoch_seconds: i64,
}

/// Field ranges every clock reading satisfies.
pub open spec fn stamp_wf(s: LocalStamp) -> bool {
    &&& 1 <= s.month <= 12
    &&& 1 <= s.day <= 31
    &&& s.hour < 24
    &&& s.minute < 60
}

/// Relies on chrono::Local::now and chrono's Datelike / Timelike accessors:
/// month() is 1..=12, day() is 1..=31, hour() < 24, minute() < 60. The
/// reading itself is nondeterministic, so nothing more is stated.
#[verifier::external_body]
pub fn local_now() -> (r: LocalStamp)
    ensures
        stamp_wf(r),
{
    let now = chrono::Local::now();
    LocalStamp {
        year: now.year(),
        month: now.month() as u8,
        day: now.day() as u8,
        hour: now.hour() as u8,
        minute: now.minute() as u8,
        epoch_seconds: now.timestamp(),
    }
}

} // verus!
