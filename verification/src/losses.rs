//! The global loss tracker: it counts consecutive losing trades of a day and
//! pauses trading once they reach a limit.
//!
//! The tracker reads no clock. The caller tells it today's date and the
//! reading of a monotonic clock in seconds.

use vstd::prelude::*;
use crate::calendar::CivilDate;

verus! {

/// Consecutive losses of the current day and the pause they caused.
#[derive(Debug)]
pub struct GlobalLossTracker {
    pub consecutive_losses: u32,
    pub last_reset_date: CivilDate,
    /// The clock reading at which the pause ends.
    pub cooldown_until: Option<u64>,
}

impl GlobalLossTracker {
    /// A tracker without losses, reset today.
    pub fn new(today: CivilDate) -> (tracker: GlobalLossTracker)
        ensures
            tracker.consecutive_losses == 0,
            tracker.last_reset_date == today,
            tracker.cooldown_until == None::<u64>,
    {
        GlobalLossTracker { consecutive_losses: 0, last_reset_date: today, cooldown_until: None }
    }

    /// The tracker as a new day finds it: cleared where the last reset was on
    /// another day, unchanged otherwise.
    pub open spec fn at_day(self, today: CivilDate) -> GlobalLossTracker {
        if self.last_reset_date != today {
            GlobalLossTracker { consecutive_losses: 0, last_reset_date: today, cooldown_until: None }
        } else {
            self
        }
    }

    /// Clears the count and the pause where the day has changed.
    pub fn reset_if_new_day(&mut self, today: CivilDate)
        ensures
            *final(self) == old(self).at_day(today),
    {
        if self.last_reset_date.year != today.year || self.last_reset_date.month != today.month
            || self.last_reset_date.day != today.day {
            self.consecutive_losses = 0;
            self.last_reset_date = today;
            self.cooldown_until = None;
        }
    }

    /// Records one more loss, after a reset where the day has changed. Once the
    /// count reaches `max_losses` a pause of `cooldown_seconds` starts at `now`,
    /// and the result is `true`.
    pub fn record_loss(&mut self, max_losses: u32, cooldown_seconds: u64, today: CivilDate, now: u64) -> (paused:
        bool)
        requires
            old(self).at_day(today).consecutive_losses < u32::MAX,
            now + cooldown_seconds <= u64::MAX,
        ensures
            final(self).last_reset_date == today,
            final(self).consecutive_losses == old(self).at_day(today).consecutive_losses + 1,
            paused == (final(self).consecutive_losses >= max_losses),
            final(self).cooldown_until == if paused {
                Some((now + cooldown_seconds) as u64)
            } else {
                old(self).at_day(today).cooldown_until
            },
    {
        self.reset_if_new_day(today);
        self.consecutive_losses += 1;
        if self.consecutive_losses >= max_losses {
            self.cooldown_until = Some(now + cooldown_seconds);
            return true;
        }
        false
    }

    /// Tells whether the pause is still running at `now`.
    pub fn is_on_cooldown(&self, now: u64) -> (paused: bool)
        ensures
            paused == match self.cooldown_until {
                Some(until) => now < until,
                None => false,
            },
    {
        match self.cooldown_until {
            Some(until) => now < until,
            None => false,
        }
    }
}

} // verus!
