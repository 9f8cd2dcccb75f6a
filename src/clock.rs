use vstd::prelude::*;

verus! {

/// Hour strikes on a 12-hour dial: midnight and noon strike twelve.
pub open spec fn hour_count_of(hour_of_day: nat) -> nat {
    if hour_of_day % 12 == 0 {
        12
    } else {
        hour_of_day % 12
    }
}

/// Quarter strikes for a minute: during the first quarter of the hour the full
/// four-quarter phrase has just been completed.
pub open spec fn quarter_count_of(minute: nat) -> nat {
    if minute / 15 == 0 {
        4
    } else {
        minute / 15
    }
}

/// The strike counts for an hour of the day and a minute of the hour.
pub open spec fn context_of(hour_of_day: nat, minute: nat) -> TimeContext {
    TimeContext {
        quarter_count: quarter_count_of(minute) as u8,
        hour_count: hour_count_of(hour_of_day) as u8,
    }
}

/// The counts that one chime strikes, derived from the time of day.
#[derive(Clone, Copy, Debug, PartialEq, Eq, Structural)]
pub struct TimeContext {
    pub quarter_count: u8,
    pub hour_count: u8,
}

impl TimeContext {
    pub open spec fn wf(self) -> bool {
        &&& 1 <= self.quarter_count <= 4
        &&& 1 <= self.hour_count <= 12
    }

    /// The quarter boundary is the full hour: all four quarters are played.
    pub open spec fn spec_on_the_hour(self) -> bool {
        self.quarter_count == 4
    }

    /// Normalises a local time of day into strike counts.
    pub fn resolve(hour_of_day: u32, minute: u32) -> (r: TimeContext)
        requires
            minute < 60,
        ensures
            r.wf(),
            r == context_of(hour_of_day as nat, minute as nat),
            r.hour_count == hour_count_of(hour_of_day as nat),
            r.quarter_count == quarter_count_of(minute as nat),
            r.hour_count == 12 <==> hour_of_day % 12 == 0,
            r.quarter_count == 4 <==> minute < 15,
            r.spec_on_the_hour() <==> minute < 15,
    {
        let raw_hour = hour_of_day % 12;
        let raw_quarter = minute / 15;
        let hour_count: u8 = if raw_hour == 0 { 12 } else { raw_hour as u8 };
        let quarter_count: u8 = if raw_quarter == 0 { 4 } else { raw_quarter as u8 };
        TimeContext { quarter_count, hour_count }
    }

    /// Whether this chime falls on the full hour.
    pub fn on_the_hour(&self) -> (r: bool)
        ensures
            r == self.spec_on_the_hour(),
    {
        self.quarter_count == 4
    }
}

} // verus!
