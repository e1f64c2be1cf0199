//! Filling in an alarm on a twelve-hour dial, and the two colour themes of a
//! front end.

use crate::config::{Alarm, Volume};
use crate::time::{dial_hour, ClockTime, TimeOfDay};
use vstd::prelude::*;

verus! {

/// The colour theme of a front end.
#[derive(Debug, Clone, Copy, PartialEq, Eq, Structural)]
pub enum Theme {
    Dark,
    Light,
}

impl Default for Theme {
    fn default() -> (t: Self)
        ensures
            t == Theme::Dark,
    {
        Theme::Dark
    }
}

impl Theme {
    /// The other theme.
    pub fn not(self) -> (t: Theme)
        ensures
            t != self,
    {
        match self {
            Theme::Dark => Theme::Light,
            Theme::Light => Theme::Dark,
        }
    }
}

/// An alarm as it is being filled in: the time as an hour on a twelve-hour
/// dial, a minute, and the half of the day.
#[derive(Debug, PartialEq, Eq)]
pub struct AlarmBuilder {
    pub name: String,
    pub hour: u8,
    pub minute: u8,
    pub time_of_day: TimeOfDay,
    pub sound: String,
    pub volume: Volume,
    pub id: u64,
}

/// The hour that the form shows for an hour on the dial: the dial's 12 is
/// shown as 0.
pub open spec fn form_hour(dial: int) -> int {
    if dial == 12 {
        0
    } else {
        dial
    }
}

/// The name that an alarm gets from the name field: none when it is empty.
pub open spec fn name_of(field: String) -> Option<String> {
    if field@.len() == 0 {
        None
    } else {
        Some(field)
    }
}

impl AlarmBuilder {
    /// A form for a new alarm: no name, the time `time` without its seconds,
    /// full volume, no identifier yet.
    pub fn starting_at(time: ClockTime, sound: String) -> (b: AlarmBuilder)
        ensures
            b.name@.len() == 0,
            b.hour == (if time.spec_hour() % 12 == 0 {
                12
            } else {
                time.spec_hour() % 12
            }),
            b.minute == time.spec_minute(),
            b.time_of_day == (if time.spec_hour() >= 12 {
                TimeOfDay::PM
            } else {
                TimeOfDay::AM
            }),
            b.sound == sound,
            b.volume == Volume::of(100),
            b.id == 0,
    {
        let (_, hour) = time.hour12();
        AlarmBuilder {
            name: String::new(),
            hour: hour as u8,
            minute: time.minute() as u8,
            time_of_day: time.time_of_day(),
            sound,
            volume: Volume::full(),
            id: 0,
        }
    }

    /// A form that shows `alarm`, for editing it. An alarm without a name has
    /// an empty name field.
    pub fn from_alarm(alarm: Alarm) -> (b: AlarmBuilder)
        ensures
            alarm.name matches Some(name) ==> b.name == name,
            alarm.name is None ==> b.name@.len() == 0,
            b.hour == form_hour(
                if alarm.time.spec_hour() % 12 == 0 {
                    12
                } else {
                    alarm.time.spec_hour() % 12
                },
            ),
            b.minute == alarm.time.spec_minute(),
            b.time_of_day == (if alarm.time.spec_hour() >= 12 {
                TimeOfDay::PM
            } else {
                TimeOfDay::AM
            }),
            b.sound == alarm.sound,
            b.volume == alarm.volume,
            b.id == alarm.id,
            dial_hour(b.hour, b.time_of_day) == alarm.time.spec_hour(),
    {
        let (_, dial) = alarm.time.hour12();
        let hour: u32 = if dial == 12 {
            0
        } else {
            dial
        };
        let whole: u32 = alarm.time.hour();
        assert(hour == whole % 12);
        assert(whole < 12 ==> whole % 12 == whole);
        assert(12 <= whole < 24 ==> whole % 12 == whole - 12);
        let name = match alarm.name {
            Some(name) => name,
            None => String::new(),
        };
        AlarmBuilder {
            name,
            hour: hour as u8,
            minute: alarm.time.minute() as u8,
            time_of_day: alarm.time.time_of_day(),
            sound: alarm.sound,
            volume: alarm.volume,
            id: alarm.id,
        }
    }

    /// The alarm that the form describes: enabled, silent, at the full minute.
    /// `None` when the dial shows no time of day.
    pub fn build(self) -> (r: Option<Alarm>)
        ensures
            r == (if dial_hour(self.hour, self.time_of_day) < 24 && self.minute < 60 {
                Some(
                    Alarm {
                        name: name_of(self.name),
                        time: ClockTime::at(
                            dial_hour(self.hour, self.time_of_day),
                            self.minute as int,
                            0,
                        ),
                        volume: self.volume,
                        sound: self.sound,
                        enabled: true,
                        rang_today: false,
                        id: self.id,
                    },
                )
            } else {
                None
            }),
    {
        let time = match ClockTime::from_hour12(self.hour, self.minute, self.time_of_day) {
            Some(time) => time,
            None => {
                return None;
            },
        };
        let name = if self.name.as_str().is_empty() {
            None
        } else {
            Some(self.name)
        };
        Some(
            Alarm {
                name,
                time,
                volume: self.volume,
                sound: self.sound,
                enabled: true,
                rang_today: false,
                id: self.id,
            },
        )
    }
}

} // verus!
