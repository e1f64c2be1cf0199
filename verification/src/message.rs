//! The closed catalogue of messages: what a client may ask, what the daemon
//! answers or announces, and what travels inside the daemon.

use crate::config;
use crate::config::{clone_name, Sound, Volume};
use crate::time::ClockTime;
use std::collections::HashMap;
use vstd::prelude::*;

verus! {

/// An alarm as a client submits it. The daemon stores it enabled and silent.
#[derive(Debug, PartialEq, Eq)]
pub struct Alarm {
    pub name: Option<String>,
    pub time: ClockTime,
    pub volume: Volume,
    pub sound: String,
    pub id: u64,
}

impl Clone for Alarm {
    fn clone(&self) -> (r: Self)
        ensures
            r == *self,
    {
        Alarm {
            name: clone_name(&self.name),
            time: self.time,
            volume: self.volume,
            sound: self.sound.clone(),
            id: self.id,
        }
    }
}

impl Alarm {
    /// The record the daemon keeps for a newly submitted alarm.
    pub open spec fn stored(self) -> config::Alarm {
        config::Alarm {
            name: self.name,
            time: self.time,
            volume: self.volume,
            sound: self.sound,
            enabled: true,
            rang_today: false,
            id: self.id,
        }
    }

    /// Computes [`Alarm::stored`].
    pub fn into_stored(self) -> (r: config::Alarm)
        ensures
            r == self.stored(),
    {
        config::Alarm {
            name: self.name,
            time: self.time,
            volume: self.volume,
            sound: self.sound,
            enabled: true,
            rang_today: false,
            id: self.id,
        }
    }
}

/// A change to one field of an alarm.
#[derive(Debug, PartialEq, Eq)]
pub enum AlarmEdit {
    Time(ClockTime),
    Name(Option<String>),
    Sound(String),
    Volume(Volume),
    Enabled(bool),
}

impl Clone for AlarmEdit {
    fn clone(&self) -> (r: Self)
        ensures
            r == *self,
    {
        match self {
            AlarmEdit::Time(t) => AlarmEdit::Time(*t),
            AlarmEdit::Name(n) => AlarmEdit::Name(clone_name(n)),
            AlarmEdit::Sound(s) => AlarmEdit::Sound(s.clone()),
            AlarmEdit::Volume(v) => AlarmEdit::Volume(*v),
            AlarmEdit::Enabled(e) => AlarmEdit::Enabled(*e),
        }
    }
}

impl AlarmEdit {
    /// The alarm with this one field changed and every other field as it was.
    pub open spec fn applied_to(self, alarm: config::Alarm) -> config::Alarm {
        match self {
            AlarmEdit::Time(time) => config::Alarm { time, ..alarm },
            AlarmEdit::Name(name) => config::Alarm { name, ..alarm },
            AlarmEdit::Sound(sound) => config::Alarm { sound, ..alarm },
            AlarmEdit::Volume(volume) => config::Alarm { volume, ..alarm },
            AlarmEdit::Enabled(enabled) => config::Alarm { enabled, ..alarm },
        }
    }

    /// Computes [`AlarmEdit::applied_to`].
    pub fn apply(self, alarm: config::Alarm) -> (r: config::Alarm)
        ensures
            r == self.applied_to(alarm),
    {
        let mut alarm = alarm;
        match self {
            AlarmEdit::Time(time) => {
                alarm.time = time;
            },
            AlarmEdit::Name(name) => {
                alarm.name = name;
            },
            AlarmEdit::Sound(sound) => {
                alarm.sound = sound;
            },
            AlarmEdit::Volume(volume) => {
                alarm.volume = volume;
            },
            AlarmEdit::Enabled(enabled) => {
                alarm.enabled = enabled;
            },
        }
        alarm
    }
}

/// What a client sends to the daemon.
#[derive(Debug, PartialEq, Eq)]
pub enum ClientMessage {
    GetAlarms,
    SetAlarm(u64, AlarmEdit),
    AddAlarm(Alarm),
    RemoveAlarm(u64),
    GetSounds,
    AddSound(Sound),
    RemoveSound(String),
    StopAlarm(u64),
    GetNewUid,
}

/// A change of state, as it travels inside the daemon: first as a request to
/// the owner of the state, then, once applied, as the announcement of it.
#[derive(Debug, PartialEq, Eq)]
pub enum Alert {
    AlarmSet(u64, AlarmEdit),
    AlarmAdded(Alarm),
    AlarmRemoved(u64),
    SoundAdded(Sound),
    SoundRemoved(String),
    AlarmRinging(u64),
    AlarmStopped(u64),
}

impl Clone for Alert {
    fn clone(&self) -> (r: Self)
        ensures
            r == *self,
    {
        match self {
            Alert::AlarmSet(id, edit) => Alert::AlarmSet(*id, edit.clone()),
            Alert::AlarmAdded(alarm) => Alert::AlarmAdded(alarm.clone()),
            Alert::AlarmRemoved(id) => Alert::AlarmRemoved(*id),
            Alert::SoundAdded(sound) => Alert::SoundAdded(sound.clone()),
            Alert::SoundRemoved(name) => Alert::SoundRemoved(name.clone()),
            Alert::AlarmRinging(id) => Alert::AlarmRinging(*id),
            Alert::AlarmStopped(id) => Alert::AlarmStopped(*id),
        }
    }
}

/// A question to the owner of the state that needs an answer of its own.
#[derive(Debug, Clone, Copy, PartialEq, Eq, Structural)]
pub enum ServerCommandKind {
    NewUid,
    GetAlarms,
    GetSounds,
}

/// A question together with the session that is waiting for the answer.
#[derive(Debug, Clone, Copy, PartialEq, Eq, Structural)]
pub struct ServerCommand {
    pub kind: ServerCommandKind,
    pub reciever: u64,
}

/// The owner's answer to a [`ServerCommandKind`].
#[derive(Debug, PartialEq, Eq)]
pub enum ServerResponce {
    NewUid(u64),
    Alarms(HashMap<u64, config::Alarm>),
    Sounds(Vec<Sound>),
}

/// What the daemon sends to a client.
#[derive(Debug, PartialEq, Eq)]
pub enum ServerMessage {
    Alarms(HashMap<u64, config::Alarm>),
    AlarmSet(u64, AlarmEdit),
    AlarmAdded(Alarm),
    AlarmRemoved(u64),
    Sounds(Vec<Sound>),
    SoundAdded(Sound),
    SoundRemoved(String),
    AlarmRinging(u64),
    AlarmStopped(u64),
    Uid(u64),
}

/// A [`ServerMessage`] with its collections as mathematical values.
pub enum ServerMessageView {
    Alarms(Map<u64, config::Alarm>),
    AlarmSet(u64, AlarmEdit),
    AlarmAdded(Alarm),
    AlarmRemoved(u64),
    Sounds(Seq<Sound>),
    SoundAdded(Sound),
    SoundRemoved(String),
    AlarmRinging(u64),
    AlarmStopped(u64),
    Uid(u64),
}

impl View for ServerMessage {
    type V = ServerMessageView;

    open spec fn view(&self) -> ServerMessageView {
        match *self {
            ServerMessage::Alarms(alarms) => ServerMessageView::Alarms(alarms@),
            ServerMessage::AlarmSet(id, edit) => ServerMessageView::AlarmSet(id, edit),
            ServerMessage::AlarmAdded(alarm) => ServerMessageView::AlarmAdded(alarm),
            ServerMessage::AlarmRemoved(id) => ServerMessageView::AlarmRemoved(id),
            ServerMessage::Sounds(sounds) => ServerMessageView::Sounds(sounds@),
            ServerMessage::SoundAdded(sound) => ServerMessageView::SoundAdded(sound),
            ServerMessage::SoundRemoved(name) => ServerMessageView::SoundRemoved(name),
            ServerMessage::AlarmRinging(id) => ServerMessageView::AlarmRinging(id),
            ServerMessage::AlarmStopped(id) => ServerMessageView::AlarmStopped(id),
            ServerMessage::Uid(id) => ServerMessageView::Uid(id),
        }
    }
}

/// The message by which a client learns of a change of state.
pub open spec fn announcement_of(alert: Alert) -> ServerMessageView {
    match alert {
        Alert::AlarmSet(id, edit) => ServerMessageView::AlarmSet(id, edit),
        Alert::AlarmAdded(alarm) => ServerMessageView::AlarmAdded(alarm),
        Alert::AlarmRemoved(id) => ServerMessageView::AlarmRemoved(id),
        Alert::SoundAdded(sound) => ServerMessageView::SoundAdded(sound),
        Alert::SoundRemoved(name) => ServerMessageView::SoundRemoved(name),
        Alert::AlarmRinging(id) => ServerMessageView::AlarmRinging(id),
        Alert::AlarmStopped(id) => ServerMessageView::AlarmStopped(id),
    }
}

/// The message that carries an answer of the owner back to the client.
pub open spec fn reply_of(response: ServerResponce) -> ServerMessageView {
    match response {
        ServerResponce::NewUid(id) => ServerMessageView::Uid(id),
        ServerResponce::Alarms(alarms) => ServerMessageView::Alarms(alarms@),
        ServerResponce::Sounds(sounds) => ServerMessageView::Sounds(sounds@),
    }
}

impl ServerMessage {
    /// Turns a change of state into the message that announces it.
    pub fn announcement(alert: Alert) -> (m: ServerMessage)
        ensures
            m@ == announcement_of(alert),
    {
        match alert {
            Alert::AlarmSet(id, edit) => ServerMessage::AlarmSet(id, edit),
            Alert::AlarmAdded(alarm) => ServerMessage::AlarmAdded(alarm),
            Alert::AlarmRemoved(id) => ServerMessage::AlarmRemoved(id),
            Alert::SoundAdded(sound) => ServerMessage::SoundAdded(sound),
            Alert::SoundRemoved(name) => ServerMessage::SoundRemoved(name),
            Alert::AlarmRinging(id) => ServerMessage::AlarmRinging(id),
            Alert::AlarmStopped(id) => ServerMessage::AlarmStopped(id),
        }
    }

    /// Turns an answer of the owner into the message for the client.
    pub fn reply(response: ServerResponce) -> (m: ServerMessage)
        ensures
            m@ == reply_of(response),
    {
        match response {
            ServerResponce::NewUid(id) => ServerMessage::Uid(id),
            ServerResponce::Alarms(alarms) => ServerMessage::Alarms(alarms),
            ServerResponce::Sounds(sounds) => ServerMessage::Sounds(sounds),
        }
    }
}

} // verus!
