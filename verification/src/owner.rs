//! The owner of the state: the one place where the configuration and the
//! table of armed timers change. It takes one event at a time and answers with
//! the new state and the effects that the embedding program has to carry out.
//!
//! Policies fixed here:
//! - An alarm can only be added under an identifier that the owner has handed
//!   out; adding under an identifier that is in use replaces that alarm.
//! - An alarm whose sound is not in the table is refused, and a sound that an
//!   alarm refers to, or that is the default, cannot be removed. So every
//!   stored alarm can always be scheduled.
//! - A timer exists for exactly the enabled alarms.
//! - Stopping an alarm silences it and leaves its timer alone.
//! - Removing an alarm that does not exist changes nothing and is no error.

use crate::config::{has_name, index_of, names_distinct, with_sound, without_sound};
use crate::config::{clone_sounds, Alarm, Collection, Config, Sound, Sounds, Volume};
use crate::message;
use crate::message::{Alert, AlarmEdit, ServerCommandKind, ServerResponce};
use crate::time::{later_of, next_occurrence, next_occurrence_of, ClockTime, Moment};
use std::collections::HashMap;
use vstd::prelude::*;
use vstd::std_specs::iter::IteratorSpec;

verus! {

/// Why the owner refused an event. The state is then as it was.
#[derive(Debug, PartialEq, Eq)]
pub enum DomainError {
    /// No alarm has this identifier.
    UnknownAlarm(u64),
    /// No sound has this name.
    UnknownSound(String),
    /// The sound is the default or an alarm refers to it.
    SoundInUse(String),
    /// The owner never handed out this identifier.
    UnissuedId(u64),
    /// Every identifier has been handed out.
    UidsExhausted,
    /// The day after the current one has no number.
    CalendarExhausted,
}

/// Something the embedding program must do after an event, in this order.
/// The configuration is written before a timer is armed for it, and an
/// announcement, where there is one, comes last.
#[derive(Debug, PartialEq, Eq)]
pub enum Effect {
    /// Cancel the timer of this alarm and discard its handle.
    Cancel(u64),
    /// Install a one-shot timer for this alarm at this moment.
    Arm(u64, Moment),
    /// Start playing the file at this path, repeating, at this volume.
    Play(u64, String, Volume),
    /// Stop the playback of this alarm.
    Silence(u64),
    /// Write the configuration to durable storage.
    Persist,
    /// Announce this change to every connected session.
    Publish(Alert),
}

/// The state as a mathematical value.
#[verifier::ext_equal]
pub struct State {
    pub alarms: Map<u64, Alarm>,
    pub sounds: Seq<Sound>,
    pub default_sound: String,
    /// For each armed alarm, the moment its timer is set for.
    pub timers: Map<u64, Moment>,
    /// The last identifier handed out; identifiers start at 1.
    pub issued: u64,
}

/// The result of an event: the next state and the effects, or a refusal.
pub type Outcome = Result<(State, Seq<Effect>), DomainError>;

/// Whether some alarm refers to the sound called `name`.
pub open spec fn refers_to(alarms: Map<u64, Alarm>, name: Seq<char>) -> bool {
    exists|id: u64| alarms.contains_key(id) && #[trigger] alarms[id].sound@ == name
}

impl State {
    pub open spec fn wf(self) -> bool {
        &&& names_distinct(self.sounds)
        &&& forall|id: u64| #[trigger]
            self.alarms.contains_key(id) ==> {
                &&& self.alarms[id].id == id
                &&& 1 <= id <= self.issued
                &&& has_name(self.sounds, self.alarms[id].sound@)
                &&& self.alarms[id].rang_today ==> self.alarms[id].enabled
                &&& self.alarms[id].enabled <==> self.timers.contains_key(id)
                &&& self.alarms[id].enabled ==> self.timers[id].time == self.alarms[id].time
            }
        &&& forall|id: u64| #[trigger]
            self.timers.contains_key(id) ==> self.alarms.contains_key(id)
    }

    /// Cancels the timer of `id` if there is one.
    pub open spec fn cancelling(self, id: u64) -> Seq<Effect> {
        if self.timers.contains_key(id) {
            seq![Effect::Cancel(id)]
        } else {
            seq![]
        }
    }

    /// Stops the playback of `id` if it is sounding.
    pub open spec fn silencing(self, id: u64) -> Seq<Effect> {
        if self.alarms.contains_key(id) && self.alarms[id].rang_today {
            seq![Effect::Silence(id)]
        } else {
            seq![]
        }
    }

    /// A new alarm, or a replacement for the alarm that has its identifier.
    pub open spec fn add_alarm(self, alarm: message::Alarm, now: Moment) -> Outcome {
        if alarm.id < 1 || alarm.id > self.issued {
            Err(DomainError::UnissuedId(alarm.id))
        } else if !has_name(self.sounds, alarm.sound@) {
            Err(DomainError::UnknownSound(alarm.sound))
        } else {
            match next_occurrence_of(now, alarm.time) {
                None => Err(DomainError::CalendarExhausted),
                Some(at) => Ok(
                    (
                        State {
                            alarms: self.alarms.insert(alarm.id, alarm.stored()),
                            timers: self.timers.insert(alarm.id, at),
                            ..self
                        },
                        self.silencing(alarm.id) + self.cancelling(alarm.id) + seq![
                            Effect::Persist,
                            Effect::Arm(alarm.id, at),
                            Effect::Publish(Alert::AlarmAdded(alarm)),
                        ],
                    ),
                ),
            }
        }
    }

    /// One field of an alarm changes. A change of time, sound or enablement
    /// schedules the alarm anew if it is enabled and unschedules it if not.
    pub open spec fn set_alarm(self, id: u64, edit: AlarmEdit, now: Moment) -> Outcome {
        if !self.alarms.contains_key(id) {
            Err(DomainError::UnknownAlarm(id))
        } else if edit matches AlarmEdit::Sound(name) && !has_name(self.sounds, name@) {
            Err(DomainError::UnknownSound(edit->Sound_0))
        } else {
            let after = edit.applied_to(self.alarms[id]);
            let tail = seq![Effect::Persist, Effect::Publish(Alert::AlarmSet(id, edit))];
            if edit is Name || edit is Volume {
                Ok((State { alarms: self.alarms.insert(id, after), ..self }, tail))
            } else if after.enabled {
                match next_occurrence_of(now, after.time) {
                    None => Err(DomainError::CalendarExhausted),
                    Some(at) => Ok(
                        (
                            State {
                                alarms: self.alarms.insert(id, after),
                                timers: self.timers.insert(id, at),
                                ..self
                            },
                            self.cancelling(id) + seq![
                                Effect::Persist,
                                Effect::Arm(id, at),
                                Effect::Publish(Alert::AlarmSet(id, edit)),
                            ],
                        ),
                    ),
                }
            } else {
                Ok(
                    (
                        State {
                            alarms: self.alarms.insert(id, Alarm { rang_today: false, ..after }),
                            timers: self.timers.remove(id),
                            ..self
                        },
                        self.silencing(id) + self.cancelling(id) + tail,
                    ),
                )
            }
        }
    }

    /// An alarm goes, with its timer and its playback.
    pub open spec fn remove_alarm(self, id: u64) -> Outcome {
        if !self.alarms.contains_key(id) {
            Ok((self, seq![]))
        } else {
            Ok(
                (
                    State {
                        alarms: self.alarms.remove(id),
                        timers: self.timers.remove(id),
                        ..self
                    },
                    self.silencing(id) + self.cancelling(id) + seq![
                        Effect::Persist,
                        Effect::Publish(Alert::AlarmRemoved(id)),
                    ],
                ),
            )
        }
    }

    /// A sound is put under its name.
    pub open spec fn add_sound(self, sound: Sound) -> Outcome {
        Ok(
            (
                State { sounds: with_sound(self.sounds, sound), ..self },
                seq![Effect::Persist, Effect::Publish(Alert::SoundAdded(sound))],
            ),
        )
    }

    /// A sound that nothing refers to goes.
    pub open spec fn remove_sound(self, name: String) -> Outcome {
        if !has_name(self.sounds, name@) {
            Err(DomainError::UnknownSound(name))
        } else if name@ == self.default_sound@ || refers_to(self.alarms, name@) {
            Err(DomainError::SoundInUse(name))
        } else {
            Ok(
                (
                    State { sounds: without_sound(self.sounds, name@), ..self },
                    seq![Effect::Persist, Effect::Publish(Alert::SoundRemoved(name))],
                ),
            )
        }
    }

    /// The alarm falls silent; its timer stays.
    pub open spec fn stop_alarm(self, id: u64) -> Outcome {
        if !self.alarms.contains_key(id) {
            Err(DomainError::UnknownAlarm(id))
        } else {
            Ok(
                (
                    State {
                        alarms: self.alarms.insert(
                            id,
                            Alarm { rang_today: false, ..self.alarms[id] },
                        ),
                        ..self
                    },
                    self.silencing(id) + seq![Effect::Publish(Alert::AlarmStopped(id))],
                ),
            )
        }
    }

    /// What an [`Alert`] that asks for a change does to the state.
    pub open spec fn step(self, alert: Alert, now: Moment) -> Outcome {
        match alert {
            Alert::AlarmSet(id, edit) => self.set_alarm(id, edit, now),
            Alert::AlarmAdded(alarm) => self.add_alarm(alarm, now),
            Alert::AlarmRemoved(id) => self.remove_alarm(id),
            Alert::SoundAdded(sound) => self.add_sound(sound),
            Alert::SoundRemoved(name) => self.remove_sound(name),
            Alert::AlarmRinging(_) => Ok((self, seq![])),
            Alert::AlarmStopped(id) => self.stop_alarm(id),
        }
    }

    /// Whether the timer that was set for `id` at `at` is the one in force.
    pub open spec fn timer_in_force(self, id: u64, at: Moment) -> bool {
        self.alarms.contains_key(id) && self.timers.contains_key(id) && self.timers[id] == at
    }

    /// The timer set for `id` at `at` has expired. If it is still the one in
    /// force, the alarm rings and is armed for its next occurrence after both
    /// `at` and `now`; a timer that was superseded meanwhile changes nothing.
    pub open spec fn fire(self, id: u64, at: Moment, now: Moment) -> Outcome {
        if !self.timer_in_force(id, at) {
            Ok((self, seq![]))
        } else {
            let alarm = self.alarms[id];
            match next_occurrence_of(later_of(now, at), alarm.time) {
                None => Err(DomainError::CalendarExhausted),
                Some(next) => Ok(
                    (
                        State {
                            alarms: self.alarms.insert(id, Alarm { rang_today: true, ..alarm }),
                            timers: self.timers.insert(id, next),
                            ..self
                        },
                        (if alarm.rang_today {
                            seq![]
                        } else {
                            seq![
                                Effect::Play(
                                    id,
                                    self.sounds[index_of(self.sounds, alarm.sound@)].path,
                                    alarm.volume,
                                ),
                            ]
                        }) + seq![
                            Effect::Cancel(id),
                            Effect::Arm(id, next),
                            Effect::Publish(Alert::AlarmRinging(id)),
                        ],
                    ),
                ),
            }
        }
    }

    /// A new identifier is handed out.
    pub open spec fn issue(self) -> Result<(State, u64), DomainError> {
        if self.issued < u64::MAX {
            Ok((State { issued: (self.issued + 1) as u64, ..self }, (self.issued + 1) as u64))
        } else {
            Err(DomainError::UidsExhausted)
        }
    }

    /// The state that an outcome leaves: the next state, or this one after a
    /// refusal.
    pub open spec fn after(self, outcome: Outcome) -> State {
        match outcome {
            Ok((next, _)) => next,
            Err(_) => self,
        }
    }
}

/// Every event leaves a well-formed state well formed.
pub proof fn lemma_step_keeps_wf(s: State, alert: Alert, now: Moment)
    requires
        s.wf(),
    ensures
        s.after(s.step(alert, now)).wf(),
{
    let next = s.after(s.step(alert, now));
    match alert {
        Alert::AlarmSet(id, edit) => {
            assert(next.wf());
        },
        Alert::AlarmAdded(alarm) => {
            assert(next.wf());
        },
        Alert::AlarmRemoved(id) => {
            assert(next.wf());
        },
        Alert::SoundAdded(sound) => {
            lemma_with_sound_keeps(s.sounds, sound);
            assert(next.wf());
        },
        Alert::SoundRemoved(name) => {
            if s.remove_sound(name) is Ok {
                lemma_without_sound_keeps(s.sounds, name@);
                assert forall|id: u64| #[trigger] next.alarms.contains_key(id) implies has_name(
                    next.sounds,
                    next.alarms[id].sound@,
                ) by {
                    assert(s.alarms[id].sound@ != name@);
                }
            }
            assert(next.wf());
        },
        Alert::AlarmRinging(_) => {},
        Alert::AlarmStopped(id) => {
            assert(next.wf());
        },
    }
}

/// A firing timer leaves a well-formed state well formed.
pub proof fn lemma_fire_keeps_wf(s: State, id: u64, at: Moment, now: Moment)
    requires
        s.wf(),
    ensures
        s.after(s.fire(id, at, now)).wf(),
{
}

/// Handing out an identifier leaves a well-formed state well formed, and the
/// identifier is one that no alarm has.
pub proof fn lemma_issue_keeps_wf(s: State)
    requires
        s.wf(),
        s.issue() is Ok,
    ensures
        (s.issue()->Ok_0).0.wf(),
        !s.alarms.contains_key((s.issue()->Ok_0).1),
{
}

/// Putting a sound under its name keeps the names distinct and every name
/// that was there.
pub proof fn lemma_with_sound_keeps(sounds: Seq<Sound>, sound: Sound)
    requires
        names_distinct(sounds),
    ensures
        names_distinct(with_sound(sounds, sound)),
        has_name(with_sound(sounds, sound), sound.name@),
        forall|name: Seq<char>| has_name(sounds, name) ==> has_name(with_sound(sounds, sound), name),
{
    let after = with_sound(sounds, sound);
    if has_name(sounds, sound.name@) {
        let i = index_of(sounds, sound.name@);
        assert(crate::config::named_at(sounds, i, sound.name@));
        crate::config::lemma_update_keeps_distinct(sounds, i, sound);
        assert(crate::config::named_at(after, i, sound.name@));
        assert forall|name: Seq<char>| has_name(sounds, name) implies has_name(after, name) by {
            let j = index_of(sounds, name);
            assert(crate::config::named_at(sounds, j, name));
            assert(crate::config::named_at(after, j, name));
        }
    } else {
        crate::config::lemma_push_keeps_distinct(sounds, sound);
        assert(crate::config::named_at(after, sounds.len() as int, sound.name@));
        assert forall|name: Seq<char>| has_name(sounds, name) implies has_name(after, name) by {
            let j = index_of(sounds, name);
            assert(crate::config::named_at(sounds, j, name));
            assert(crate::config::named_at(after, j, name));
        }
    }
}

/// Taking a sound out keeps the names distinct and every other name.
pub proof fn lemma_without_sound_keeps(sounds: Seq<Sound>, gone: Seq<char>)
    requires
        names_distinct(sounds),
    ensures
        names_distinct(without_sound(sounds, gone)),
        !has_name(without_sound(sounds, gone), gone),
        forall|name: Seq<char>|
            has_name(sounds, name) && name != gone ==> has_name(without_sound(sounds, gone), name),
{
    let after = without_sound(sounds, gone);
    if has_name(sounds, gone) {
        let i = index_of(sounds, gone);
        assert(crate::config::named_at(sounds, i, gone));
        crate::config::lemma_table_remove(sounds, i);
        assert(crate::config::table_of(after) == crate::config::table_of(sounds).remove(gone));
        assert(!crate::config::table_of(after).contains_key(gone));
        assert forall|name: Seq<char>| has_name(sounds, name) && name != gone implies has_name(
            after,
            name,
        ) by {
            assert(crate::config::table_of(sounds).contains_key(name));
            assert(crate::config::table_of(after).contains_key(name));
        }
    }
}


/// The change that a list of effects announces: the payload of a final
/// `Publish`.
pub open spec fn notice_of(effects: Seq<Effect>) -> Option<Alert> {
    if effects.len() > 0 && effects.last() is Publish {
        Some(effects.last()->Publish_0)
    } else {
        None
    }
}

/// The effects without the final announcement.
pub open spec fn chores_of(effects: Seq<Effect>) -> Seq<Effect> {
    if notice_of(effects) is Some {
        effects.drop_last()
    } else {
        effects
    }
}

/// Whether no effect of `effects` is an announcement.
pub open spec fn silent(effects: Seq<Effect>) -> bool {
    forall|i: int| 0 <= i < effects.len() ==> !(#[trigger] effects[i] is Publish)
}

/// An event announces at most one change, as its last effect, and the change
/// it announces is the one that was asked for.
pub proof fn lemma_step_announces_last(s: State, alert: Alert, now: Moment)
    requires
        s.step(alert, now) is Ok,
    ensures
        silent(chores_of((s.step(alert, now)->Ok_0).1)),
        notice_of((s.step(alert, now)->Ok_0).1) matches Some(told) ==> told == alert,
{
}

/// A firing timer announces at most one change, as its last effect: that
/// the alarm is ringing.
pub proof fn lemma_fire_announces_last(s: State, id: u64, at: Moment, now: Moment)
    requires
        s.fire(id, at, now) is Ok,
    ensures
        silent(chores_of((s.fire(id, at, now)->Ok_0).1)),
        notice_of((s.fire(id, at, now)->Ok_0).1) matches Some(told) ==> told
            == Alert::AlarmRinging(id),
{
}

/// Whether what an operation returned and left behind is what `outcome` says.
pub open spec fn agrees(
    before: State,
    after: State,
    returned: Result<Vec<Effect>, DomainError>,
    outcome: Outcome,
) -> bool {
    match outcome {
        Ok((next, effects)) => returned is Ok && returned->Ok_0@ =~= effects && after =~= next,
        Err(e) => returned is Err && returned->Err_0 == e && after =~= before,
    }
}

/// The owner of the configuration and of the table of armed timers.
pub struct Owner {
    config: Config,
    timers: HashMap<u64, Moment>,
    issued: u64,
}

impl View for Owner {
    type V = State;

    closed spec fn view(&self) -> State {
        State {
            alarms: self.config.alarms.data@,
            sounds: self.config.sounds.sounds@,
            default_sound: self.config.sounds.default_sound,
            timers: self.timers@,
            issued: self.issued,
        }
    }
}

/// Whether an alarm in `alarms` refers to the sound called `name`.
fn in_use(alarms: &HashMap<u64, Alarm>, name: &String) -> (b: bool)
    ensures
        b == refers_to(alarms@, name@),
{
    broadcast use vstd::std_specs::hash::group_hash_axioms;

    let mut found = false;
    let ghost all: Seq<&Alarm> = alarms.values().remaining();
    assert(all.unref().to_set() == alarms@.values());
    for alarm in it: alarms.values()
        invariant
            it.seq() == all,
            found == exists|i: int| 0 <= i < it.index() && (#[trigger] all[i]).sound@ == name@,
    {
        if alarm.sound == *name {
            found = true;
        }
    }
    proof {
        if found {
            let i = choose|i: int| 0 <= i < all.len() && (#[trigger] all[i]).sound@ == name@;
            assert(all.unref()[i] == *all[i]);
            assert(all.unref().to_set().contains(*all[i]));
            assert(alarms@.values().contains(*all[i]));
        }
        if refers_to(alarms@, name@) {
            let id = choose|id: u64| alarms@.contains_key(id) && #[trigger] alarms@[id].sound@
                == name@;
            assert(alarms@.values().contains(alarms@[id]));
            assert(all.unref().to_set().contains(alarms@[id]));
            let i = choose|i: int| 0 <= i < all.unref().len() && all.unref()[i] == alarms@[id];
            assert(all[i].sound@ == name@);
        }
    }
    found
}

impl Owner {
    /// The invariant that every operation keeps.
    pub open spec fn wf(&self) -> bool {
        self@.wf()
    }

    /// The configuration as it stands, for queries and for persisting.
    pub fn config(&self) -> (c: &Config)
        ensures
            c.alarms.data@ == self@.alarms,
            c.sounds.sounds@ == self@.sounds,
            c.sounds.default_sound == self@.default_sound,
    {
        &self.config
    }

    /// The moment for which the alarm `id` is armed, if it is.
    pub fn timer(&self, id: u64) -> (r: Option<Moment>)
        ensures
            r == (if self@.timers.contains_key(id) {
                Some(self@.timers[id])
            } else {
                None
            }),
    {
        broadcast use vstd::std_specs::hash::group_hash_axioms;

        match self.timers.get(&id) {
            Some(at) => Some(*at),
            None => None,
        }
    }

    /// The last identifier handed out.
    pub fn issued(&self) -> (n: u64)
        ensures
            n == self@.issued,
    {
        self.issued
    }

    /// Whether the alarm `id` is sounding.
    fn is_ringing(&self, id: u64) -> (b: bool)
        ensures
            b == (self@.alarms.contains_key(id) && self@.alarms[id].rang_today),
    {
        broadcast use vstd::std_specs::hash::group_hash_axioms;

        match self.config.alarms.data.get(&id) {
            Some(alarm) => alarm.rang_today,
            None => false,
        }
    }

    /// Appends the effect that silences `id`, if it is sounding.
    fn push_silence(&self, id: u64, effects: &mut Vec<Effect>)
        ensures
            final(effects)@ == old(effects)@ + self@.silencing(id),
    {
        if self.is_ringing(id) {
            effects.push(Effect::Silence(id));
        }
        assert(effects@ =~= old(effects)@ + self@.silencing(id));
    }

    /// Appends the effect that cancels the timer of `id`, if it has one.
    fn push_cancel(&self, id: u64, effects: &mut Vec<Effect>)
        ensures
            final(effects)@ == old(effects)@ + self@.cancelling(id),
    {
        broadcast use vstd::std_specs::hash::group_hash_axioms;

        if self.timers.contains_key(&id) {
            effects.push(Effect::Cancel(id));
        }
        assert(effects@ =~= old(effects)@ + self@.cancelling(id));
    }

    fn add_alarm(&mut self, alarm: message::Alarm, now: Moment) -> (r: Result<
        Vec<Effect>,
        DomainError,
    >)
        requires
            old(self).wf(),
        ensures
            agrees(old(self)@, final(self)@, r, old(self)@.add_alarm(alarm, now)),
    {
        broadcast use vstd::std_specs::hash::group_hash_axioms;

        if alarm.id < 1 || alarm.id > self.issued {
            return Err(DomainError::UnissuedId(alarm.id));
        }
        if !self.config.sounds.contains(&alarm.sound) {
            return Err(DomainError::UnknownSound(alarm.sound));
        }
        let at = match next_occurrence(now, alarm.time) {
            Some(at) => at,
            None => {
                return Err(DomainError::CalendarExhausted);
            },
        };
        let id: u64 = alarm.id;
        let mut effects: Vec<Effect> = Vec::new();
        self.push_silence(id, &mut effects);
        self.push_cancel(id, &mut effects);
        effects.push(Effect::Persist);
        effects.push(Effect::Arm(id, at));
        effects.push(Effect::Publish(Alert::AlarmAdded(alarm.clone())));
        self.config.alarms.data.insert(id, alarm.into_stored());
        self.timers.insert(id, at);
        Ok(effects)
    }

    fn set_alarm(&mut self, id: u64, edit: AlarmEdit, now: Moment) -> (r: Result<
        Vec<Effect>,
        DomainError,
    >)
        requires
            old(self).wf(),
        ensures
            agrees(old(self)@, final(self)@, r, old(self)@.set_alarm(id, edit, now)),
    {
        broadcast use vstd::std_specs::hash::group_hash_axioms;

        let (enabled, time): (bool, ClockTime) = match self.config.alarms.data.get(&id) {
            Some(alarm) => (alarm.enabled, alarm.time),
            None => {
                return Err(DomainError::UnknownAlarm(id));
            },
        };
        let edit = match edit {
            AlarmEdit::Sound(name) => {
                if !self.config.sounds.contains(&name) {
                    return Err(DomainError::UnknownSound(name));
                }
                AlarmEdit::Sound(name)
            },
            other => other,
        };
        let plain = match &edit {
            AlarmEdit::Name(_) => true,
            AlarmEdit::Volume(_) => true,
            _ => false,
        };
        let enabled_after = match &edit {
            AlarmEdit::Enabled(e) => *e,
            _ => enabled,
        };
        let time_after = match &edit {
            AlarmEdit::Time(t) => *t,
            _ => time,
        };
        let mut effects: Vec<Effect> = Vec::new();
        let mut arm: Option<Moment> = None;
        if !plain {
            if enabled_after {
                let at = match next_occurrence(now, time_after) {
                    Some(at) => at,
                    None => {
                        return Err(DomainError::CalendarExhausted);
                    },
                };
                self.push_cancel(id, &mut effects);
                arm = Some(at);
            } else {
                self.push_silence(id, &mut effects);
                self.push_cancel(id, &mut effects);
            }
        }
        effects.push(Effect::Persist);
        match arm {
            Some(at) => {
                effects.push(Effect::Arm(id, at));
            },
            None => {},
        }
        effects.push(Effect::Publish(Alert::AlarmSet(id, edit.clone())));
        let before = self.config.alarms.data.remove(&id).unwrap();
        let mut after = edit.apply(before);
        if !plain {
            match arm {
                Some(at) => {
                    self.timers.insert(id, at);
                },
                None => {
                    after.rang_today = false;
                    self.timers.remove(&id);
                },
            }
        }
        self.config.alarms.data.insert(id, after);
        Ok(effects)
    }

    fn remove_alarm(&mut self, id: u64) -> (r: Result<Vec<Effect>, DomainError>)
        requires
            old(self).wf(),
        ensures
            agrees(old(self)@, final(self)@, r, old(self)@.remove_alarm(id)),
    {
        broadcast use vstd::std_specs::hash::group_hash_axioms;

        let mut effects: Vec<Effect> = Vec::new();
        if !self.config.alarms.data.contains_key(&id) {
            return Ok(effects);
        }
        self.push_silence(id, &mut effects);
        self.push_cancel(id, &mut effects);
        effects.push(Effect::Persist);
        effects.push(Effect::Publish(Alert::AlarmRemoved(id)));
        self.config.alarms.data.remove(&id);
        self.timers.remove(&id);
        Ok(effects)
    }

    fn add_sound(&mut self, sound: Sound) -> (r: Result<Vec<Effect>, DomainError>)
        requires
            old(self).wf(),
        ensures
            agrees(old(self)@, final(self)@, r, old(self)@.add_sound(sound)),
    {
        let mut effects: Vec<Effect> = Vec::new();
        effects.push(Effect::Persist);
        effects.push(Effect::Publish(Alert::SoundAdded(sound.clone())));
        self.config.sounds.insert(sound);
        Ok(effects)
    }

    fn remove_sound(&mut self, name: String) -> (r: Result<Vec<Effect>, DomainError>)
        requires
            old(self).wf(),
        ensures
            agrees(old(self)@, final(self)@, r, old(self)@.remove_sound(name)),
    {
        if !self.config.sounds.contains(&name) {
            return Err(DomainError::UnknownSound(name));
        }
        if name == self.config.sounds.default_sound || in_use(&self.config.alarms.data, &name) {
            return Err(DomainError::SoundInUse(name));
        }
        self.config.sounds.remove(&name);
        let mut effects: Vec<Effect> = Vec::new();
        effects.push(Effect::Persist);
        effects.push(Effect::Publish(Alert::SoundRemoved(name)));
        Ok(effects)
    }

    fn stop_alarm(&mut self, id: u64) -> (r: Result<Vec<Effect>, DomainError>)
        requires
            old(self).wf(),
        ensures
            agrees(old(self)@, final(self)@, r, old(self)@.stop_alarm(id)),
    {
        broadcast use vstd::std_specs::hash::group_hash_axioms;

        if !self.config.alarms.data.contains_key(&id) {
            return Err(DomainError::UnknownAlarm(id));
        }
        let mut effects: Vec<Effect> = Vec::new();
        self.push_silence(id, &mut effects);
        effects.push(Effect::Publish(Alert::AlarmStopped(id)));
        let mut alarm = self.config.alarms.data.remove(&id).unwrap();
        alarm.rang_today = false;
        self.config.alarms.data.insert(id, alarm);
        Ok(effects)
    }

    /// Applies one requested change. On success the state is the next state
    /// and the effects come back in the order in which they are to be carried
    /// out; on refusal nothing has changed.
    pub fn apply(&mut self, alert: Alert, now: Moment) -> (r: Result<Vec<Effect>, DomainError>)
        requires
            old(self).wf(),
        ensures
            final(self).wf(),
            agrees(old(self)@, final(self)@, r, old(self)@.step(alert, now)),
    {
        proof {
            lemma_step_keeps_wf(self@, alert, now);
        }
        match alert {
            Alert::AlarmSet(id, edit) => self.set_alarm(id, edit, now),
            Alert::AlarmAdded(alarm) => self.add_alarm(alarm, now),
            Alert::AlarmRemoved(id) => self.remove_alarm(id),
            Alert::SoundAdded(sound) => self.add_sound(sound),
            Alert::SoundRemoved(name) => self.remove_sound(name),
            Alert::AlarmRinging(_) => Ok(Vec::new()),
            Alert::AlarmStopped(id) => self.stop_alarm(id),
        }
    }

    /// Reports that the timer set for `id` at `at` has expired.
    pub fn fire(&mut self, id: u64, at: Moment, now: Moment) -> (r: Result<
        Vec<Effect>,
        DomainError,
    >)
        requires
            old(self).wf(),
        ensures
            final(self).wf(),
            agrees(old(self)@, final(self)@, r, old(self)@.fire(id, at, now)),
    {
        broadcast use vstd::std_specs::hash::group_hash_axioms;

        proof {
            lemma_fire_keeps_wf(self@, id, at, now);
        }
        let mut effects: Vec<Effect> = Vec::new();
        let armed = match self.timers.get(&id) {
            Some(moment) => *moment == at,
            None => false,
        };
        if !armed {
            return Ok(effects);
        }
        let (time, volume, ringing): (ClockTime, Volume, bool) = match self.config.alarms.data.get(
            &id,
        ) {
            Some(alarm) => (alarm.time, alarm.volume, alarm.rang_today),
            None => {
                return Ok(effects);
            },
        };
        let next = match next_occurrence(now.later(at), time) {
            Some(next) => next,
            None => {
                return Err(DomainError::CalendarExhausted);
            },
        };
        if !ringing {
            let mut alarm = self.config.alarms.data.remove(&id).unwrap();
            let path = match self.config.sounds.get(&alarm.sound) {
                Some(sound) => sound.path.clone(),
                None => String::new(),
            };
            effects.push(Effect::Play(id, path, volume));
            alarm.rang_today = true;
            self.config.alarms.data.insert(id, alarm);
        }
        effects.push(Effect::Cancel(id));
        effects.push(Effect::Arm(id, next));
        effects.push(Effect::Publish(Alert::AlarmRinging(id)));
        self.timers.insert(id, next);
        Ok(effects)
    }

    /// Hands out the next identifier: one more than the last, never one that
    /// was handed out before or that an alarm has.
    pub fn get_uid(&mut self) -> (r: Result<u64, DomainError>)
        requires
            old(self).wf(),
        ensures
            final(self).wf(),
            match old(self)@.issue() {
                Ok((next, id)) => r == Ok::<u64, DomainError>(id) && final(self)@ =~= next,
                Err(e) => r == Err::<u64, DomainError>(e) && final(self)@ =~= old(self)@,
            },
    {
        if self.issued < u64::MAX {
            proof {
                lemma_issue_keeps_wf(self@);
            }
            self.issued = self.issued + 1;
            Ok(self.issued)
        } else {
            Err(DomainError::UidsExhausted)
        }
    }
}


/// The list that results from putting the sounds of `list` under their names
/// one after the other; of two sounds with one name the later stays.
pub open spec fn stocked(list: Seq<Sound>) -> Seq<Sound>
    decreases list.len(),
{
    if list.len() == 0 {
        seq![]
    } else {
        with_sound(stocked(list.drop_last()), list.last())
    }
}

/// A stocked list has no name twice.
pub proof fn lemma_stocked_distinct(list: Seq<Sound>)
    ensures
        names_distinct(stocked(list)),
    decreases list.len(),
{
    if list.len() > 0 {
        lemma_stocked_distinct(list.drop_last());
        lemma_with_sound_keeps(stocked(list.drop_last()), list.last());
    }
}

impl State {
    /// The state before any alarm is known.
    pub open spec fn initial(sounds: Seq<Sound>, default_sound: String) -> State {
        State {
            alarms: Map::empty(),
            sounds: stocked(sounds),
            default_sound,
            timers: Map::empty(),
            issued: 0,
        }
    }

    /// An alarm read back from storage is filed under the next identifier,
    /// silent, and armed if it is enabled.
    pub open spec fn enroll(self, alarm: Alarm, now: Moment) -> Outcome {
        if self.issued == u64::MAX {
            Err(DomainError::UidsExhausted)
        } else if !has_name(self.sounds, alarm.sound@) {
            Err(DomainError::UnknownSound(alarm.sound))
        } else {
            let id = (self.issued + 1) as u64;
            let kept = Alarm { id, rang_today: false, ..alarm };
            if alarm.enabled {
                match next_occurrence_of(now, alarm.time) {
                    None => Err(DomainError::CalendarExhausted),
                    Some(at) => Ok(
                        (
                            State {
                                alarms: self.alarms.insert(id, kept),
                                timers: self.timers.insert(id, at),
                                issued: id,
                                ..self
                            },
                            seq![Effect::Arm(id, at)],
                        ),
                    ),
                }
            } else {
                Ok((State { alarms: self.alarms.insert(id, kept), issued: id, ..self }, seq![]))
            }
        }
    }

    /// The alarms of `alarms` are enrolled in order; the first refusal is the
    /// refusal of the whole.
    pub open spec fn enroll_all(self, alarms: Seq<Alarm>, now: Moment) -> Outcome
        decreases alarms.len(),
    {
        if alarms.len() == 0 {
            Ok((self, seq![]))
        } else {
            match self.enroll_all(alarms.drop_last(), now) {
                Err(e) => Err(e),
                Ok((mid, effects)) => match mid.enroll(alarms.last(), now) {
                    Err(e) => Err(e),
                    Ok((next, more)) => Ok((next, effects + more)),
                },
            }
        }
    }
}

/// Enrolling keeps a well-formed state well formed.
pub proof fn lemma_enroll_keeps_wf(s: State, alarm: Alarm, now: Moment)
    requires
        s.wf(),
    ensures
        s.after(s.enroll(alarm, now)).wf(),
{
}

/// A refusal among the first `k` alarms is the refusal of the whole list.
pub proof fn lemma_enroll_refusal_stays(s: State, alarms: Seq<Alarm>, k: int, now: Moment)
    requires
        0 <= k <= alarms.len(),
        s.enroll_all(alarms.take(k), now) is Err,
    ensures
        s.enroll_all(alarms, now) == s.enroll_all(alarms.take(k), now),
    decreases alarms.len(),
{
    if k == alarms.len() {
        assert(alarms.take(k) =~= alarms);
    } else {
        assert(alarms.drop_last().take(k) =~= alarms.take(k));
        lemma_enroll_refusal_stays(s, alarms.drop_last(), k, now);
    }
}

impl Owner {
    /// Starts from what durable storage held: the sounds are put under their
    /// names in order, then the alarms are enrolled in order under the
    /// identifiers 1, 2, ... The effects arm the enabled alarms.
    pub fn new(sounds: Vec<Sound>, default_sound: String, alarms: Vec<Alarm>, now: Moment) -> (r:
        Result<(Owner, Vec<Effect>), DomainError>)
        ensures
            match State::initial(sounds@, default_sound).enroll_all(alarms@, now) {
                Ok((state, effects)) => r is Ok && (r->Ok_0).0@ =~= state && (r->Ok_0).1@
                    =~= effects && (r->Ok_0).0.wf(),
                Err(e) => r is Err && r->Err_0 == e,
            },
    {
        broadcast use vstd::std_specs::hash::group_hash_axioms;

        let mut table = Sounds::new(default_sound);
        let mut i: usize = 0;
        while i < sounds.len()
            invariant
                i <= sounds.len(),
                table.wf(),
                table.sounds@ == stocked(sounds@.take(i as int)),
                table.default_sound == default_sound,
            decreases sounds.len() - i,
        {
            table.insert(sounds[i].clone());
            assert(sounds@.take(i + 1).drop_last() =~= sounds@.take(i as int));
            i += 1;
        }
        assert(sounds@.take(sounds@.len() as int) =~= sounds@);
        let mut owner = Owner {
            config: Config { alarms: Collection::new(), sounds: table },
            timers: HashMap::new(),
            issued: 0,
        };
        let ghost start = State::initial(sounds@, default_sound);
        assert(owner@ =~= start);
        proof {
            lemma_stocked_distinct(sounds@);
        }
        let mut effects: Vec<Effect> = Vec::new();
        let mut j: usize = 0;
        assert(alarms@.take(0) =~= Seq::<Alarm>::empty());
        while j < alarms.len()
            invariant
                j <= alarms.len(),
                owner.wf(),
                start == State::initial(sounds@, default_sound),
                start.enroll_all(alarms@.take(j as int), now) == Ok::<
                    (State, Seq<Effect>),
                    DomainError,
                >((owner@, effects@)),
            decreases alarms.len() - j,
        {
            let ghost before = owner@;
            let ghost sofar = effects@;
            proof {
                assert(alarms@.take(j + 1).drop_last() =~= alarms@.take(j as int));
                assert(alarms@.take(j + 1).last() == alarms@[j as int]);
                lemma_enroll_keeps_wf(before, alarms@[j as int], now);
                assert(start.enroll_all(alarms@.take(j + 1), now) == (match before.enroll(
                    alarms@[j as int],
                    now,
                ) {
                    Err(e) => Err::<(State, Seq<Effect>), DomainError>(e),
                    Ok((next, more)) => Ok((next, sofar + more)),
                }));
                if before.enroll(alarms@[j as int], now) is Err {
                    lemma_enroll_refusal_stays(start, alarms@, j + 1, now);
                }
            }
            if owner.issued == u64::MAX {
                return Err(DomainError::UidsExhausted);
            }
            let mut alarm = alarms[j].clone();
            if !owner.config.sounds.contains(&alarm.sound) {
                return Err(DomainError::UnknownSound(alarm.sound));
            }
            let id: u64 = owner.issued + 1;
            alarm.id = id;
            alarm.rang_today = false;
            if alarm.enabled {
                let at = match next_occurrence(now, alarm.time) {
                    Some(at) => at,
                    None => {
                        return Err(DomainError::CalendarExhausted);
                    },
                };
                owner.timers.insert(id, at);
                effects.push(Effect::Arm(id, at));
            }
            owner.config.alarms.data.insert(id, alarm);
            owner.issued = id;
            proof {
                let (next, more) = before.enroll(alarms@[j as int], now)->Ok_0;
                assert(owner@ =~= next);
                assert(effects@ =~= sofar + more);
            }
            j += 1;
        }
        assert(alarms@.take(alarms@.len() as int) =~= alarms@);
        Ok((owner, effects))
    }

    /// Answers a question. Only a request for an identifier changes the state.
    pub fn answer(&mut self, kind: ServerCommandKind) -> (r: Result<ServerResponce, DomainError>)
        requires
            old(self).wf(),
        ensures
            final(self).wf(),
            match kind {
                ServerCommandKind::NewUid => match old(self)@.issue() {
                    Ok((next, id)) => r matches Ok(ServerResponce::NewUid(n)) && n == id
                        && final(self)@ =~= next,
                    Err(e) => r matches Err(x) && x == e && final(self)@ =~= old(self)@,
                },
                ServerCommandKind::GetAlarms => r matches Ok(ServerResponce::Alarms(alarms))
                    && alarms@ == old(self)@.alarms && final(self)@ =~= old(self)@,
                ServerCommandKind::GetSounds => r matches Ok(ServerResponce::Sounds(sounds))
                    && sounds@ == old(self)@.sounds && final(self)@ =~= old(self)@,
            },
    {
        match kind {
            ServerCommandKind::NewUid => match self.get_uid() {
                Ok(id) => Ok(ServerResponce::NewUid(id)),
                Err(e) => Err(e),
            },
            ServerCommandKind::GetAlarms => Ok(
                ServerResponce::Alarms(self.config.alarms.data.clone()),
            ),
            ServerCommandKind::GetSounds => Ok(
                ServerResponce::Sounds(clone_sounds(&self.config.sounds.sounds)),
            ),
        }
    }
}


impl Owner {
    /// Processes a queue of changes in order, each at its moment, and hands
    /// back what each of them gave. The state ends up as if the changes had
    /// been applied one by one.
    pub fn process(&mut self, queue: Vec<(Alert, Moment)>) -> (results: Vec<
        Result<Vec<Effect>, DomainError>,
    >)
        requires
            old(self).wf(),
        ensures
            final(self).wf(),
            final(self)@ =~= crate::laws::run(old(self)@, queue@),
            results@.len() == queue@.len(),
            forall|i: int|
                0 <= i < queue@.len() ==> agrees(
                    crate::laws::run(old(self)@, queue@.take(i)),
                    crate::laws::run(old(self)@, queue@.take(i + 1)),
                    #[trigger] results@[i],
                    crate::laws::run(old(self)@, queue@.take(i)).step(queue@[i].0, queue@[i].1),
                ),
    {
        let mut results: Vec<Result<Vec<Effect>, DomainError>> = Vec::new();
        let mut i: usize = 0;
        assert(queue@.take(0) =~= Seq::<(Alert, Moment)>::empty());
        while i < queue.len()
            invariant
                i <= queue.len(),
                self.wf(),
                self@ =~= crate::laws::run(old(self)@, queue@.take(i as int)),
                results@.len() == i,
                forall|k: int|
                    0 <= k < i ==> agrees(
                        crate::laws::run(old(self)@, queue@.take(k)),
                        crate::laws::run(old(self)@, queue@.take(k + 1)),
                        #[trigger] results@[k],
                        crate::laws::run(old(self)@, queue@.take(k)).step(queue@[k].0, queue@[k].1),
                    ),
            decreases queue.len() - i,
        {
            let ghost before = self@;
            let alert = queue[i].0.clone();
            let now = queue[i].1;
            proof {
                assert(queue@.take(i + 1) =~= queue@.take(i as int).push(queue@[i as int]));
                crate::laws::lemma_run_step(old(self)@, queue@.take(i as int), alert, now);
            }
            let r = self.apply(alert, now);
            results.push(r);
            i += 1;
        }
        assert(queue@.take(queue@.len() as int) =~= queue@);
        results
    }
}

} // verus!
