//! The present moment, as far as the statistics look at it.
//!
//! The library reads no clock. Its caller hands it the moment, taken from
//! the local calendar, and the library holds the numbers to their ranges.

use vstd::prelude::*;

verus! {

/// How many calendar months of history count for a prediction.
pub const HISTORY_MONTHS: u32 = 1;

/// A moment of local time.
#[derive(Clone, Copy, Debug)]
pub struct Moment {
    /// The day of the week, Monday being 1.
    pub weekday: u16,
    /// The hour of the day.
    pub hour: u16,
    /// Seconds since the epoch.
    pub timestamp: i64,
    /// Seconds since the epoch at the moment that lies as many calendar
    /// months earlier as the history counts; none where the calendar cannot
    /// tell that moment.
    pub month_ago: Option<i64>,
}

impl Moment {
    /// The weekday is one of the seven and the hour one of the twenty-four.
    pub open spec fn is_valid(self) -> bool {
        1 <= self.weekday <= 7 && self.hour <= 23
    }

    /// The moment with the given numbers, if the weekday is one of the seven
    /// and the hour one of the twenty-four.
    pub fn new(weekday: u32, hour: u32, timestamp: i64, month_ago: Option<i64>) -> (m: Option<Moment>)
        ensures
            (1 <= weekday <= 7 && hour <= 23) <==> m is Some,
            m matches Some(now) ==> now.is_valid() && now.weekday == weekday && now.hour == hour
                && now.timestamp == timestamp && now.month_ago == month_ago,
    {
        if 1 <= weekday && weekday <= 7 && hour <= 23 {
            Some(Moment { weekday: weekday as u16, hour: hour as u16, timestamp, month_ago })
        } else {
            None
        }
    }
}

} // verus!
