//! Wall-clock values: a time of day without a date, and a moment on the local
//! calendar as a day number together with a time of day.

use vstd::prelude::*;

verus! {

/// Seconds in one calendar day.
pub const SECONDS_PER_DAY: u32 = 86_400;

/// Which half of the day an hour on a twelve-hour dial belongs to.
#[derive(Debug, Clone, Copy, PartialEq, Eq, Structural)]
pub enum TimeOfDay {
    AM,
    PM,
}

impl Default for TimeOfDay {
    fn default() -> (t: Self)
        ensures
            t == TimeOfDay::AM,
    {
        TimeOfDay::AM
    }
}

/// A time of day to the second, with no date attached.
#[derive(Debug, Clone, Copy, PartialEq, Eq, Structural)]
pub struct ClockTime {
    hour: u8,
    minute: u8,
    second: u8,
}

impl ClockTime {
    /// The invariant of every value: a real position on a 24-hour clock.
    #[verifier::type_invariant]
    pub closed spec fn wf(self) -> bool {
        self.hour < 24 && self.minute < 60 && self.second < 60
    }

    pub closed spec fn spec_hour(self) -> int {
        self.hour as int
    }

    pub closed spec fn spec_minute(self) -> int {
        self.minute as int
    }

    pub closed spec fn spec_second(self) -> int {
        self.second as int
    }

    /// Seconds elapsed since midnight.
    pub open spec fn seconds(self) -> int {
        self.spec_hour() * 3600 + self.spec_minute() * 60 + self.spec_second()
    }

    /// A well-formed time lies within one day, and its three parts are in range.
    pub proof fn lemma_wf_bounds(self)
        requires
            self.wf(),
        ensures
            0 <= self.spec_hour() < 24,
            0 <= self.spec_minute() < 60,
            0 <= self.spec_second() < 60,
            0 <= self.seconds() < SECONDS_PER_DAY,
    {
    }

    /// The time with these three parts, each taken as a byte.
    pub closed spec fn at(hour: int, minute: int, second: int) -> ClockTime {
        ClockTime { hour: hour as u8, minute: minute as u8, second: second as u8 }
    }

    /// A time of day is its three parts: there is one time for each hour,
    /// minute and second on the clock face, and it has these parts.
    pub proof fn lemma_at(hour: int, minute: int, second: int)
        requires
            0 <= hour < 24,
            0 <= minute < 60,
            0 <= second < 60,
        ensures
            ClockTime::at(hour, minute, second).wf(),
            ClockTime::at(hour, minute, second).spec_hour() == hour,
            ClockTime::at(hour, minute, second).spec_minute() == minute,
            ClockTime::at(hour, minute, second).spec_second() == second,
            ClockTime::at(hour, minute, second).seconds() == hour * 3600 + minute * 60 + second,
    {
    }

    /// Every well-formed time is the time with its parts.
    pub proof fn lemma_is_at(self)
        requires
            self.wf(),
        ensures
            self == ClockTime::at(self.spec_hour(), self.spec_minute(), self.spec_second()),
    {
    }

    /// The time `hour:minute:second`, or `None` when a part is out of range.
    pub fn from_hms_opt(hour: u32, minute: u32, second: u32) -> (r: Option<ClockTime>)
        ensures
            r == (if hour < 24 && minute < 60 && second < 60 {
                Some(ClockTime::at(hour as int, minute as int, second as int))
            } else {
                None
            }),
            r matches Some(t) ==> {
                &&& t.wf()
                &&& t.spec_hour() == hour
                &&& t.spec_minute() == minute
                &&& t.spec_second() == second
            },
    {
        if hour < 24 && minute < 60 && second < 60 {
            Some(ClockTime { hour: hour as u8, minute: minute as u8, second: second as u8 })
        } else {
            None
        }
    }

    /// Midnight, the start of the day.
    pub fn midnight() -> (t: ClockTime)
        ensures
            t == ClockTime::at(0, 0, 0),
            t.wf(),
            t.seconds() == 0,
    {
        ClockTime { hour: 0, minute: 0, second: 0 }
    }

    pub fn hour(&self) -> (h: u32)
        ensures
            h == self.spec_hour(),
            h < 24,
    {
        proof {
            use_type_invariant(self);
        }
        self.hour as u32
    }

    pub fn minute(&self) -> (m: u32)
        ensures
            m == self.spec_minute(),
            m < 60,
    {
        proof {
            use_type_invariant(self);
        }
        self.minute as u32
    }

    pub fn second(&self) -> (s: u32)
        ensures
            s == self.spec_second(),
            s < 60,
    {
        proof {
            use_type_invariant(self);
        }
        self.second as u32
    }

    /// Seconds elapsed since midnight.
    pub fn num_seconds_from_midnight(&self) -> (s: u32)
        ensures
            s == self.seconds(),
            s < SECONDS_PER_DAY,
            self.wf(),
    {
        proof {
            use_type_invariant(self);
        }
        let h: u32 = self.hour as u32;
        let m: u32 = self.minute as u32;
        let s: u32 = self.second as u32;
        h * 3600 + m * 60 + s
    }
}


impl ClockTime {
    /// The hour on a twelve-hour dial, from 1 to 12, with a flag that is
    /// `false` before noon and `true` from noon on.
    pub fn hour12(&self) -> (r: (bool, u32))
        ensures
            r.0 == (self.spec_hour() >= 12),
            r.1 == (if self.spec_hour() % 12 == 0 {
                12
            } else {
                self.spec_hour() % 12
            }),
    {
        let h: u32 = self.hour();
        let dial: u32 = if h % 12 == 0 {
            12
        } else {
            h % 12
        };
        (h >= 12, dial)
    }

    /// The half of the day this time falls in.
    pub fn time_of_day(&self) -> (t: TimeOfDay)
        ensures
            t == (if self.spec_hour() >= 12 {
                TimeOfDay::PM
            } else {
                TimeOfDay::AM
            }),
    {
        if self.hour() >= 12 {
            TimeOfDay::PM
        } else {
            TimeOfDay::AM
        }
    }

    /// Reads a twelve-hour dial: `hour` counts from the start of the half day,
    /// with 12 standing for its first hour; seconds are zero. `None` when the
    /// reading names no time of day.
    pub fn from_hour12(hour: u8, minute: u8, half: TimeOfDay) -> (r: Option<ClockTime>)
        ensures
            r == (if dial_hour(hour, half) < 24 && minute < 60 {
                Some(ClockTime::at(dial_hour(hour, half), minute as int, 0))
            } else {
                None
            }),
            r matches Some(t) ==> {
                &&& t.wf()
                &&& t.spec_hour() == dial_hour(hour, half)
                &&& t.spec_minute() == minute
                &&& t.spec_second() == 0
            },
    {
        let base: u32 = if hour == 12 {
            0
        } else {
            hour as u32
        };
        let shift: u32 = match half {
            TimeOfDay::AM => 0,
            TimeOfDay::PM => 12,
        };
        ClockTime::from_hms_opt(base + shift, minute as u32, 0)
    }
}

/// The hour of the day that a twelve-hour dial shows: 12 is the first hour of
/// its half, and the afternoon half lies twelve hours after the morning one.
pub open spec fn dial_hour(hour: u8, half: TimeOfDay) -> int {
    (if hour == 12 {
        0
    } else {
        hour as int
    }) + (if half == TimeOfDay::PM {
        12int
    } else {
        0int
    })
}

/// Reading a time off the twelve-hour dial and setting the dial to that
/// reading gives the time back, seconds aside.
pub proof fn lemma_hour12_round_trip(t: ClockTime)
    requires
        t.wf(),
    ensures
        ({
            let dial: int = if t.spec_hour() % 12 == 0 {
                12
            } else {
                t.spec_hour() % 12
            };
            let half = if t.spec_hour() >= 12 {
                TimeOfDay::PM
            } else {
                TimeOfDay::AM
            };
            dial_hour(dial as u8, half) == t.spec_hour()
        }),
{
    t.lemma_wf_bounds();
}

/// A moment on the local calendar: a day number and a time within that day.
/// Day numbers count consecutive calendar days; which day is number zero is
/// the caller's convention.
#[derive(Debug, Clone, Copy, PartialEq, Eq, Structural)]
pub struct Moment {
    pub day: i32,
    pub time: ClockTime,
}

impl Moment {
    /// Position on the timeline in seconds, each day counted as 86 400.
    pub open spec fn seconds(self) -> int {
        self.day * (SECONDS_PER_DAY as int) + self.time.seconds()
    }

    pub fn new(day: i32, time: ClockTime) -> (m: Moment)
        ensures
            m.day == day,
            m.time == time,
    {
        Moment { day, time }
    }

    /// Whether `self` lies strictly before `other`.
    pub fn is_before(&self, other: &Moment) -> (b: bool)
        ensures
            b == (self.seconds() < other.seconds()),
    {
        let a: u32 = self.time.num_seconds_from_midnight();
        let c: u32 = other.time.num_seconds_from_midnight();
        assert(self.seconds() < other.seconds() <==> (self.day < other.day || (self.day
            == other.day && a < c))) by (nonlinear_arith)
            requires
                0 <= a < 86_400,
                0 <= c < 86_400,
                self.seconds() == self.day * 86_400 + a,
                other.seconds() == other.day * 86_400 + c,
        ;
        self.day < other.day || (self.day == other.day && a < c)
    }

    /// The later of two moments; `self` when they coincide.
    pub fn later(self, other: Moment) -> (m: Moment)
        ensures
            m == later_of(self, other),
    {
        if self.is_before(&other) {
            other
        } else {
            self
        }
    }
}

/// The later of two moments; the first when they coincide.
pub open spec fn later_of(a: Moment, b: Moment) -> Moment {
    if a.seconds() < b.seconds() {
        b
    } else {
        a
    }
}

/// The first moment strictly after `now` at which the clock shows `time`:
/// today if `time` is still ahead, otherwise tomorrow. `None` only when
/// tomorrow has no day number.
pub open spec fn next_occurrence_of(now: Moment, time: ClockTime) -> Option<Moment> {
    if time.seconds() > now.time.seconds() {
        Some(Moment { day: now.day, time })
    } else if now.day < i32::MAX {
        Some(Moment { day: (now.day + 1) as i32, time })
    } else {
        None
    }
}

/// Computes [`next_occurrence_of`].
pub fn next_occurrence(now: Moment, time: ClockTime) -> (r: Option<Moment>)
    ensures
        r == next_occurrence_of(now, time),
{
    if time.num_seconds_from_midnight() > now.time.num_seconds_from_midnight() {
        Some(Moment { day: now.day, time })
    } else if now.day < i32::MAX {
        Some(Moment { day: now.day + 1, time })
    } else {
        None
    }
}

/// The next occurrence shows the requested time, lies strictly in the future
/// and at most one day ahead, and no moment showing that time lies between
/// `now` and it.
pub proof fn lemma_next_occurrence_is_first(now: Moment, time: ClockTime, other: Moment)
    requires
        now.time.wf(),
        time.wf(),
        next_occurrence_of(now, time) is Some,
    ensures
        ({
            let next = next_occurrence_of(now, time)->0;
            &&& next.time == time
            &&& now.seconds() < next.seconds() <= now.seconds() + SECONDS_PER_DAY
            &&& (other.time == time && now.seconds() < other.seconds()) ==> next.seconds()
                <= other.seconds()
        }),
{
    now.time.lemma_wf_bounds();
    time.lemma_wf_bounds();
    let next = next_occurrence_of(now, time)->0;
    let t = time.seconds();
    let n = now.time.seconds();
    if other.time == time && now.seconds() < other.seconds() {
        assert(next.seconds() <= other.seconds()) by (nonlinear_arith)
            requires
                0 <= t < 86_400,
                0 <= n < 86_400,
                now.day * 86_400 + n < other.day * 86_400 + t,
                next.seconds() == next.day * 86_400 + t,
                other.seconds() == other.day * 86_400 + t,
                (t > n && next.day == now.day) || (t <= n && next.day == now.day + 1),
        ;
    }
}

} // verus!
