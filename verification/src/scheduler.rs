//! The reminder scheduler: a state machine polled by a timer loop at a
//! short fixed interval. It fires once per calendar day at (or after) the
//! configured local time — a deduplicated daily alarm, not a fixed-period
//! timer. A force signal fires it at any time without touching the daily
//! bookkeeping. Stopping drains the in-flight cycle before the poll loop
//! exits, so no firing is dropped mid-flight.

use vstd::prelude::*;

use crate::clock::{stamp_wf, LocalStamp};

verus! {

#[derive(Clone, Copy, Debug, PartialEq, Eq, Structural)]
pub enum SchedulerState {
    /// Built, not yet started.
    Idle,
    /// Polling for the next daily alarm or force signal.
    Waiting,
    /// A triggered cycle is running.
    Firing,
    /// Stop requested: the in-flight cycle is being flushed.
    Draining,
    /// The poll loop has exited.
    Stopped,
}

/// The calendar day of a clock reading, as an identity.
#[derive(Clone, Copy, Debug, PartialEq, Eq, Structural)]
pub struct Day {
    pub year: i32,
    pub month: u8,
    pub day: u8,
}

pub open spec fn day_of(now: LocalStamp) -> Day {
    Day { year: now.year, month: now.month, day: now.day }
}

/// The minute of the day of a clock reading.
pub open spec fn minute_of(now: LocalStamp) -> int {
    now.hour * 60 + now.minute
}

/// The daily alarm and its bookkeeping: the configured minute of the
/// local day, and the day it last fired, if any.
pub struct ReminderScheduler {
    pub state: SchedulerState,
    pub fire_minute: u16,
    pub last_fired: Option<Day>,
}

impl ReminderScheduler {
    pub open spec fn wf(&self) -> bool {
        self.fire_minute < 1440
    }

    /// Whether a poll at `now` fires the daily alarm: the scheduler is
    /// waiting, the configured time has been reached, and the alarm has
    /// not already fired on this calendar day.
    pub open spec fn daily_due(&self, now: LocalStamp) -> bool {
        &&& self.state is Waiting
        &&& minute_of(now) >= self.fire_minute
        &&& self.last_fired != Some(day_of(now))
    }

    /// The scheduler after a poll at `now`.
    pub open spec fn poll_next(&self, now: LocalStamp) -> ReminderScheduler {
        if self.daily_due(now) {
            ReminderScheduler {
                state: SchedulerState::Firing,
                fire_minute: self.fire_minute,
                last_fired: Some(day_of(now)),
            }
        } else {
            *self
        }
    }

    /// The scheduler after the triggered cycle completes.
    pub open spec fn cycle_done_next(&self) -> ReminderScheduler {
        if self.state is Firing {
            ReminderScheduler { state: SchedulerState::Waiting, ..*self }
        } else {
            *self
        }
    }

    /// A scheduler that has not fired yet, set to fire daily at
    /// `fire_minute` minutes into the local day.
    pub fn new(fire_minute: u16) -> (r: ReminderScheduler)
        requires
            fire_minute < 1440,
        ensures
            r.wf(),
            r.state is Idle,
            r.fire_minute == fire_minute,
            r.last_fired is None,
    {
        ReminderScheduler { state: SchedulerState::Idle, fire_minute, last_fired: None }
    }

    /// Starts polling.
    pub fn start(&mut self)
        ensures
            final(self).state == (if old(self).state is Idle {
                SchedulerState::Waiting
            } else {
                old(self).state
            }),
            final(self).fire_minute == old(self).fire_minute,
            final(self).last_fired == old(self).last_fired,
    {
        if let SchedulerState::Idle = self.state {
            self.state = SchedulerState::Waiting;
        }
    }

    /// One timer poll: fires exactly when the daily alarm is due, and
    /// then remembers today so a later poll on the same day cannot fire
    /// again.
    pub fn poll(&mut self, now: &LocalStamp) -> (fired: bool)
        requires
            old(self).wf(),
            stamp_wf(*now),
        ensures
            final(self).wf(),
            fired == old(self).daily_due(*now),
            *final(self) == old(self).poll_next(*now),
    {
        let waiting = matches!(self.state, SchedulerState::Waiting);
        let minute: u16 = (now.hour as u16) * 60 + (now.minute as u16);
        let reached = minute >= self.fire_minute;
        let today = Day { year: now.year, month: now.month, day: now.day };
        let fired_today = match self.last_fired {
            Some(d) => d.year == today.year && d.month == today.month && d.day == today.day,
            None => false,
        };
        if waiting && reached && !fired_today {
            self.state = SchedulerState::Firing;
            self.last_fired = Some(today);
            true
        } else {
            false
        }
    }

    /// A force signal: fires immediately from Waiting, independent of the
    /// daily alarm and without resetting its bookkeeping.
    pub fn force(&mut self) -> (fired: bool)
        ensures
            fired == (old(self).state is Waiting),
            final(self).state == (if fired {
                SchedulerState::Firing
            } else {
                old(self).state
            }),
            final(self).fire_minute == old(self).fire_minute,
            final(self).last_fired == old(self).last_fired,
    {
        if let SchedulerState::Waiting = self.state {
            self.state = SchedulerState::Firing;
            true
        } else {
            false
        }
    }

    /// The triggered cycle completed: back to polling.
    pub fn cycle_done(&mut self)
        ensures
            *final(self) == old(self).cycle_done_next(),
    {
        if let SchedulerState::Firing = self.state {
            self.state = SchedulerState::Waiting;
        }
    }

    /// Stop requested from any state: flush what is in flight.
    pub fn begin_drain(&mut self)
        ensures
            final(self).state is Draining,
            final(self).fire_minute == old(self).fire_minute,
            final(self).last_fired == old(self).last_fired,
    {
        self.state = SchedulerState::Draining;
    }

    /// The in-flight cycle is flushed: the poll loop may exit.
    pub fn drained(&mut self)
        requires
            old(self).state is Draining,
        ensures
            final(self).state is Stopped,
            final(self).fire_minute == old(self).fire_minute,
            final(self).last_fired == old(self).last_fired,
    {
        self.state = SchedulerState::Stopped;
    }
}

/// Daily alarm dedup: once a poll fires on a calendar day, no later poll
/// on that same day fires again — neither while the cycle runs nor after
/// it completes. Two timer polls within one day at or after the
/// configured time produce exactly one firing.
pub proof fn lemma_daily_dedup(s: ReminderScheduler, now1: LocalStamp, now2: LocalStamp)
    requires
        s.daily_due(now1),
        day_of(now1) == day_of(now2),
    ensures
        !s.poll_next(now1).daily_due(now2),
        !s.poll_next(now1).cycle_done_next().daily_due(now2),
{
}

} // verus!
