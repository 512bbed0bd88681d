//! Calendar dates and event start instants as plain values. An event starts
//! either at a date-time (a date plus seconds within that day) or on a whole
//! day (all-day, which sorts as midnight of that date). The digest shows a
//! date as `dd/mm/yy`.

use vstd::prelude::*;

use crate::text::{digit_char, push_two_digits};

verus! {

/// A calendar date, local to the user.
#[derive(Clone, Copy, Debug, PartialEq, Eq, Structural)]
pub struct Date {
    pub year: u16,
    pub month: u8,
    pub day: u8,
}

/// Field ranges of a representable date. Days are not held to the exact
/// month length: the calendar source guarantees real dates, and nothing
/// here depends on month arithmetic.
pub open spec fn date_wf(d: Date) -> bool {
    &&& d.year <= 9999
    &&& 1 <= d.month <= 12
    &&& 1 <= d.day <= 31
}

/// When an event starts: a date, and seconds within that day when the
/// event has a time of day. An all-day event has `has_time == false` and
/// `seconds == 0`, so it sorts as midnight of its date.
#[derive(Clone, Copy, Debug, PartialEq, Eq, Structural)]
pub struct Start {
    pub date: Date,
    pub has_time: bool,
    pub seconds: u32,
}

pub open spec fn start_wf(s: Start) -> bool {
    &&& date_wf(s.date)
    &&& s.seconds < 86400
    &&& (!s.has_time ==> s.seconds == 0)
}

/// A date collapsed to one integer, ordered as the calendar is.
pub open spec fn date_key(d: Date) -> int {
    (d.year * 13 + d.month) * 32 + d.day
}

/// A start instant collapsed to one integer: later starts have larger keys,
/// and an all-day start equals midnight of its date.
pub open spec fn start_key(s: Start) -> int {
    date_key(s.date) * 86400 + s.seconds
}

/// The start key, computed. Fits comfortably in `u64` for representable dates.
pub fn start_key_u64(s: &Start) -> (k: u64)
    requires
        start_wf(*s),
    ensures
        k == start_key(*s),
{
    (((s.date.year as u64) * 13 + (s.date.month as u64)) * 32 + (s.date.day as u64)) * 86400
        + (s.seconds as u64)
}

/// The digest's date text: `dd/mm/yy`, each field zero padded, the year
/// reduced to its last two digits.
pub open spec fn date_label(d: Date) -> Seq<char> {
    seq![
        digit_char(d.day as int / 10),
        digit_char(d.day as int % 10),
        '/',
        digit_char(d.month as int / 10),
        digit_char(d.month as int % 10),
        '/',
        digit_char((d.year as int % 100) / 10),
        digit_char((d.year as int % 100) % 10),
    ]
}

/// Appends `dd/mm/yy` for `d` to `s`.
pub fn push_date_label(s: &mut String, d: &Date)
    requires
        date_wf(*d),
    ensures
        final(s)@ == old(s)@ + date_label(*d),
{
    push_two_digits(s, d.day);
    proof {
        reveal_strlit("/");
    }
    assert("/"@ =~= seq!['/']);
    s.append("/");
    push_two_digits(s, d.month);
    s.append("/");
    push_two_digits(s, (d.year % 100) as u8);
    assert(s@ =~= old(s)@ + date_label(*d));
}

} // verus!
