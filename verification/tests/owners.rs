use roosty_clockd::config::{Config, Sound, Volume};
use roosty_clockd::message::{Alarm, AlarmEdit, Alert, ServerCommandKind, ServerResponce};
use roosty_clockd::owner::{DomainError, Effect, Owner};
use roosty_clockd::time::{ClockTime, Moment};

fn at(h: u32, m: u32) -> ClockTime {
    ClockTime::from_hms_opt(h, m, 0).unwrap()
}

fn nine() -> Moment {
    Moment::new(10, at(9, 0))
}

fn fresh() -> Owner {
    let config = Config::default();
    let (owner, effects) =
        Owner::new(config.sounds.sounds, config.sounds.default_sound, Vec::new(), nine()).unwrap();
    assert!(effects.is_empty());
    owner
}

fn alarm(id: u64, h: u32, m: u32) -> Alarm {
    Alarm {
        name: Some("wake".to_string()),
        time: at(h, m),
        volume: Volume::new(80).unwrap(),
        sound: "ring".to_string(),
        id,
    }
}

fn stored(h: u32, m: u32, enabled: bool, sound: &str) -> roosty_clockd::config::Alarm {
    roosty_clockd::config::Alarm {
        name: None,
        time: at(h, m),
        volume: Volume::full(),
        sound: sound.to_string(),
        enabled,
        rang_today: true,
        id: 77,
    }
}

#[test]
fn uids_count_up_from_one() {
    let mut o = fresh();
    assert_eq!(o.get_uid(), Ok(1));
    assert_eq!(o.get_uid(), Ok(2));
    assert_eq!(o.issued(), 2);
}

#[test]
fn two_uids_are_distinct_and_both_usable() {
    let mut o = fresh();
    let a = match o.answer(ServerCommandKind::NewUid) {
        Ok(ServerResponce::NewUid(id)) => id,
        other => panic!("{:?}", other),
    };
    let b = match o.answer(ServerCommandKind::NewUid) {
        Ok(ServerResponce::NewUid(id)) => id,
        other => panic!("{:?}", other),
    };
    assert_ne!(a, b);
    assert!(o.apply(Alert::AlarmAdded(alarm(a, 8, 0)), nine()).is_ok());
    assert!(o.apply(Alert::AlarmAdded(alarm(b, 10, 0)), nine()).is_ok());
    let alarms = &o.config().alarms.data;
    assert_eq!(alarms.len(), 2);
    assert_eq!(alarms[&a].time, at(8, 0));
    assert_eq!(alarms[&b].time, at(10, 0));
}

#[test]
fn adding_an_alarm_arms_it_for_tomorrow_when_its_time_has_passed() {
    let mut o = fresh();
    let id = o.get_uid().unwrap();
    let a = alarm(id, 8, 0);
    let effects = o.apply(Alert::AlarmAdded(a.clone()), nine()).unwrap();
    assert_eq!(
        effects,
        vec![
            Effect::Persist,
            Effect::Arm(id, Moment::new(11, at(8, 0))),
            Effect::Publish(Alert::AlarmAdded(a)),
        ]
    );
    assert_eq!(o.timer(id), Some(Moment::new(11, at(8, 0))));
    let kept = &o.config().alarms.data[&id];
    assert!(kept.enabled);
    assert!(!kept.rang_today);
    assert_eq!(kept.name, Some("wake".to_string()));
    assert_eq!(kept.volume.percent(), 80);
    assert_eq!(kept.sound, "ring");
    assert_eq!(kept.id, id);
}

#[test]
fn adding_an_alarm_arms_it_for_today_when_its_time_is_ahead() {
    let mut o = fresh();
    let id = o.get_uid().unwrap();
    let effects = o.apply(Alert::AlarmAdded(alarm(id, 9, 1)), nine()).unwrap();
    assert_eq!(effects[1], Effect::Arm(id, Moment::new(10, at(9, 1))));
}

#[test]
fn adding_under_an_unissued_id_is_refused() {
    let mut o = fresh();
    assert_eq!(o.apply(Alert::AlarmAdded(alarm(1, 8, 0)), nine()), Err(DomainError::UnissuedId(1)));
    assert_eq!(o.apply(Alert::AlarmAdded(alarm(0, 8, 0)), nine()), Err(DomainError::UnissuedId(0)));
    assert!(o.config().alarms.data.is_empty());
    assert_eq!(o.timer(1), None);
}

#[test]
fn adding_with_an_unknown_sound_is_refused() {
    let mut o = fresh();
    let id = o.get_uid().unwrap();
    let mut a = alarm(id, 8, 0);
    a.sound = "gong".to_string();
    assert_eq!(
        o.apply(Alert::AlarmAdded(a), nine()),
        Err(DomainError::UnknownSound("gong".to_string()))
    );
    assert!(o.config().alarms.data.is_empty());
}

#[test]
fn adding_on_the_last_day_is_refused() {
    let mut o = fresh();
    let id = o.get_uid().unwrap();
    let last = Moment::new(i32::MAX, at(9, 0));
    assert_eq!(
        o.apply(Alert::AlarmAdded(alarm(id, 8, 0)), last),
        Err(DomainError::CalendarExhausted)
    );
}

#[test]
fn adding_again_under_the_same_id_replaces_and_cancels_first() {
    let mut o = fresh();
    let id = o.get_uid().unwrap();
    o.apply(Alert::AlarmAdded(alarm(id, 8, 0)), nine()).unwrap();
    let b = alarm(id, 10, 0);
    let effects = o.apply(Alert::AlarmAdded(b.clone()), nine()).unwrap();
    assert_eq!(
        effects,
        vec![
            Effect::Cancel(id),
            Effect::Persist,
            Effect::Arm(id, Moment::new(10, at(10, 0))),
            Effect::Publish(Alert::AlarmAdded(b)),
        ]
    );
    assert_eq!(o.config().alarms.data.len(), 1);
}

#[test]
fn editing_the_time_cancels_then_arms() {
    let mut o = fresh();
    let id = o.get_uid().unwrap();
    o.apply(Alert::AlarmAdded(alarm(id, 8, 0)), nine()).unwrap();
    let edit = AlarmEdit::Time(at(9, 30));
    let effects = o.apply(Alert::AlarmSet(id, edit.clone()), nine()).unwrap();
    assert_eq!(
        effects,
        vec![
            Effect::Cancel(id),
            Effect::Persist,
            Effect::Arm(id, Moment::new(10, at(9, 30))),
            Effect::Publish(Alert::AlarmSet(id, edit)),
        ]
    );
    assert_eq!(o.config().alarms.data[&id].time, at(9, 30));
    assert_eq!(o.config().alarms.data[&id].name, Some("wake".to_string()));
}

#[test]
fn editing_name_or_volume_leaves_the_timer_alone() {
    let mut o = fresh();
    let id = o.get_uid().unwrap();
    o.apply(Alert::AlarmAdded(alarm(id, 8, 0)), nine()).unwrap();
    let before = o.timer(id);
    let edit = AlarmEdit::Name(None);
    let effects = o.apply(Alert::AlarmSet(id, edit.clone()), nine()).unwrap();
    assert_eq!(effects, vec![Effect::Persist, Effect::Publish(Alert::AlarmSet(id, edit))]);
    let edit = AlarmEdit::Volume(Volume::new(5).unwrap());
    let effects = o.apply(Alert::AlarmSet(id, edit.clone()), nine()).unwrap();
    assert_eq!(effects, vec![Effect::Persist, Effect::Publish(Alert::AlarmSet(id, edit))]);
    assert_eq!(o.timer(id), before);
    assert_eq!(o.config().alarms.data[&id].name, None);
    assert_eq!(o.config().alarms.data[&id].volume.percent(), 5);
}

#[test]
fn editing_an_unknown_alarm_is_refused() {
    let mut o = fresh();
    assert_eq!(
        o.apply(Alert::AlarmSet(4, AlarmEdit::Enabled(true)), nine()),
        Err(DomainError::UnknownAlarm(4))
    );
}

#[test]
fn editing_to_an_unknown_sound_is_refused() {
    let mut o = fresh();
    let id = o.get_uid().unwrap();
    o.apply(Alert::AlarmAdded(alarm(id, 8, 0)), nine()).unwrap();
    assert_eq!(
        o.apply(Alert::AlarmSet(id, AlarmEdit::Sound("gong".to_string())), nine()),
        Err(DomainError::UnknownSound("gong".to_string()))
    );
    assert_eq!(o.config().alarms.data[&id].sound, "ring");
}

#[test]
fn firing_rings_plays_and_arms_the_next_day() {
    let mut o = fresh();
    let id = o.get_uid().unwrap();
    o.apply(Alert::AlarmAdded(alarm(id, 9, 1)), nine()).unwrap();
    let due = Moment::new(10, at(9, 1));
    let effects = o.fire(id, due, due).unwrap();
    assert_eq!(
        effects,
        vec![
            Effect::Play(id, "ring.mp3".to_string(), Volume::new(80).unwrap()),
            Effect::Cancel(id),
            Effect::Arm(id, Moment::new(11, at(9, 1))),
            Effect::Publish(Alert::AlarmRinging(id)),
        ]
    );
    assert!(o.config().alarms.data[&id].rang_today);
    assert_eq!(o.timer(id), Some(Moment::new(11, at(9, 1))));
}

#[test]
fn firing_a_little_early_still_arms_the_day_after() {
    let mut o = fresh();
    let id = o.get_uid().unwrap();
    o.apply(Alert::AlarmAdded(alarm(id, 9, 1)), nine()).unwrap();
    let due = Moment::new(10, at(9, 1));
    let early = Moment::new(10, ClockTime::from_hms_opt(9, 0, 59).unwrap());
    let effects = o.fire(id, due, early).unwrap();
    assert_eq!(effects[2], Effect::Arm(id, Moment::new(11, at(9, 1))));
}

#[test]
fn a_superseded_timer_changes_nothing() {
    let mut o = fresh();
    let id = o.get_uid().unwrap();
    o.apply(Alert::AlarmAdded(alarm(id, 9, 1)), nine()).unwrap();
    o.apply(Alert::AlarmSet(id, AlarmEdit::Time(at(12, 0))), nine()).unwrap();
    let stale = Moment::new(10, at(9, 1));
    assert_eq!(o.fire(id, stale, stale), Ok(vec![]));
    assert!(!o.config().alarms.data[&id].rang_today);
    assert_eq!(o.fire(99, stale, stale), Ok(vec![]));
}

#[test]
fn disabling_a_ringing_alarm_silences_it_and_arms_nothing() {
    let mut o = fresh();
    let id = o.get_uid().unwrap();
    o.apply(Alert::AlarmAdded(alarm(id, 9, 1)), nine()).unwrap();
    let due = Moment::new(10, at(9, 1));
    o.fire(id, due, due).unwrap();
    let edit = AlarmEdit::Enabled(false);
    let effects = o.apply(Alert::AlarmSet(id, edit.clone()), due).unwrap();
    assert_eq!(
        effects,
        vec![
            Effect::Silence(id),
            Effect::Cancel(id),
            Effect::Persist,
            Effect::Publish(Alert::AlarmSet(id, edit)),
        ]
    );
    assert_eq!(o.timer(id), None);
    assert!(!o.config().alarms.data[&id].enabled);
    assert!(!o.config().alarms.data[&id].rang_today);
    // Enabling again arms it, with nothing to cancel.
    let edit = AlarmEdit::Enabled(true);
    let effects = o.apply(Alert::AlarmSet(id, edit.clone()), due).unwrap();
    assert_eq!(
        effects,
        vec![
            Effect::Persist,
            Effect::Arm(id, Moment::new(11, at(9, 1))),
            Effect::Publish(Alert::AlarmSet(id, edit)),
        ]
    );
}

#[test]
fn stopping_silences_and_keeps_the_timer() {
    let mut o = fresh();
    let id = o.get_uid().unwrap();
    o.apply(Alert::AlarmAdded(alarm(id, 9, 1)), nine()).unwrap();
    let due = Moment::new(10, at(9, 1));
    o.fire(id, due, due).unwrap();
    let armed = o.timer(id);
    let effects = o.apply(Alert::AlarmStopped(id), due).unwrap();
    assert_eq!(effects, vec![Effect::Silence(id), Effect::Publish(Alert::AlarmStopped(id))]);
    assert_eq!(o.timer(id), armed);
    assert!(!o.config().alarms.data[&id].rang_today);
    let effects = o.apply(Alert::AlarmStopped(id), due).unwrap();
    assert_eq!(effects, vec![Effect::Publish(Alert::AlarmStopped(id))]);
    assert_eq!(o.apply(Alert::AlarmStopped(50), due), Err(DomainError::UnknownAlarm(50)));
}

#[test]
fn a_second_firing_while_ringing_does_not_start_a_second_playback() {
    let mut o = fresh();
    let id = o.get_uid().unwrap();
    o.apply(Alert::AlarmAdded(alarm(id, 9, 1)), nine()).unwrap();
    let due = Moment::new(10, at(9, 1));
    o.fire(id, due, due).unwrap();
    let next = Moment::new(11, at(9, 1));
    let effects = o.fire(id, next, next).unwrap();
    assert_eq!(
        effects,
        vec![
            Effect::Cancel(id),
            Effect::Arm(id, Moment::new(12, at(9, 1))),
            Effect::Publish(Alert::AlarmRinging(id)),
        ]
    );
}

#[test]
fn removing_an_alarm_cancels_its_timer() {
    let mut o = fresh();
    let a = o.get_uid().unwrap();
    let b = o.get_uid().unwrap();
    o.apply(Alert::AlarmAdded(alarm(a, 8, 0)), nine()).unwrap();
    o.apply(Alert::AlarmAdded(alarm(b, 10, 0)), nine()).unwrap();
    let other = o.timer(b);
    let effects = o.apply(Alert::AlarmRemoved(a), nine()).unwrap();
    assert_eq!(
        effects,
        vec![Effect::Cancel(a), Effect::Persist, Effect::Publish(Alert::AlarmRemoved(a))]
    );
    assert_eq!(o.timer(a), None);
    assert_eq!(o.timer(b), other);
    assert_eq!(o.config().alarms.data.len(), 1);
}

#[test]
fn removing_an_absent_alarm_is_a_no_op() {
    let mut o = fresh();
    let b = o.get_uid().unwrap();
    o.apply(Alert::AlarmAdded(alarm(b, 10, 0)), nine()).unwrap();
    let other = o.timer(b);
    assert_eq!(o.apply(Alert::AlarmRemoved(42), nine()), Ok(vec![]));
    assert_eq!(o.apply(Alert::AlarmRemoved(42), nine()), Ok(vec![]));
    assert_eq!(o.timer(b), other);
    assert_eq!(o.config().alarms.data.len(), 1);
}

#[test]
fn ringing_as_a_request_changes_nothing() {
    let mut o = fresh();
    assert_eq!(o.apply(Alert::AlarmRinging(1), nine()), Ok(vec![]));
}

#[test]
fn sounds_can_be_added_and_replaced() {
    let mut o = fresh();
    let gong = Sound::new("gong".to_string(), "/tmp/gong.mp3".to_string());
    let effects = o.apply(Alert::SoundAdded(gong.clone()), nine()).unwrap();
    assert_eq!(effects, vec![Effect::Persist, Effect::Publish(Alert::SoundAdded(gong.clone()))]);
    assert_eq!(o.config().sounds.sounds.len(), 6);
    assert_eq!(o.config().sounds.sounds[5], gong);
    let ring = Sound::new("ring".to_string(), "/other/ring.ogg".to_string());
    o.apply(Alert::SoundAdded(ring.clone()), nine()).unwrap();
    assert_eq!(o.config().sounds.sounds.len(), 6);
    assert_eq!(o.config().sounds.sounds[0], ring);
}

#[test]
fn a_sound_in_use_cannot_be_removed() {
    let mut o = fresh();
    let id = o.get_uid().unwrap();
    o.apply(Alert::AlarmAdded(alarm(id, 8, 0)), nine()).unwrap();
    assert_eq!(
        o.apply(Alert::SoundRemoved("ring".to_string()), nine()),
        Err(DomainError::SoundInUse("ring".to_string()))
    );
    assert_eq!(
        o.apply(Alert::SoundRemoved("beep beep".to_string()), nine()),
        Err(DomainError::SoundInUse("beep beep".to_string()))
    );
    assert_eq!(
        o.apply(Alert::SoundRemoved("gong".to_string()), nine()),
        Err(DomainError::UnknownSound("gong".to_string()))
    );
    assert_eq!(o.config().sounds.sounds.len(), 5);
    let effects = o.apply(Alert::SoundRemoved("rain".to_string()), nine()).unwrap();
    assert_eq!(
        effects,
        vec![Effect::Persist, Effect::Publish(Alert::SoundRemoved("rain".to_string()))]
    );
    assert_eq!(o.config().sounds.sounds.len(), 4);
    o.apply(Alert::AlarmRemoved(id), nine()).unwrap();
    assert!(o.apply(Alert::SoundRemoved("ring".to_string()), nine()).is_ok());
    assert_eq!(o.config().sounds.sounds.len(), 3);
    assert_eq!(o.config().sounds.sounds[0].name, "bing bong");
}

#[test]
fn starting_up_enrolls_stored_alarms_in_order() {
    let config = Config::default();
    let alarms = vec![stored(8, 0, true, "ring"), stored(7, 0, false, "rain"), stored(9, 30, true, "rain")];
    let (o, effects) =
        Owner::new(config.sounds.sounds, config.sounds.default_sound, alarms, nine()).unwrap();
    assert_eq!(
        effects,
        vec![
            Effect::Arm(1, Moment::new(11, at(8, 0))),
            Effect::Arm(3, Moment::new(10, at(9, 30))),
        ]
    );
    assert_eq!(o.issued(), 3);
    let kept = &o.config().alarms.data;
    assert_eq!(kept.len(), 3);
    assert_eq!(kept[&1].id, 1);
    assert_eq!(kept[&2].id, 2);
    assert!(!kept[&1].rang_today);
    assert!(!kept[&2].enabled);
    assert_eq!(o.timer(2), None);
    assert_eq!(o.timer(3), Some(Moment::new(10, at(9, 30))));
}

#[test]
fn starting_up_with_a_dangling_sound_is_refused() {
    let config = Config::default();
    let alarms = vec![stored(8, 0, true, "ring"), stored(7, 0, false, "gong")];
    let r = Owner::new(config.sounds.sounds, config.sounds.default_sound, alarms, nine());
    assert_eq!(r.err(), Some(DomainError::UnknownSound("gong".to_string())));
}

#[test]
fn starting_up_keeps_the_later_of_two_sounds_with_one_name() {
    let sounds = vec![
        Sound::new("a".to_string(), "1".to_string()),
        Sound::new("b".to_string(), "2".to_string()),
        Sound::new("a".to_string(), "3".to_string()),
    ];
    let (o, _) = Owner::new(sounds, "a".to_string(), Vec::new(), nine()).unwrap();
    assert_eq!(
        o.config().sounds.sounds,
        vec![Sound::new("a".to_string(), "3".to_string()), Sound::new("b".to_string(), "2".to_string())]
    );
    assert_eq!(o.config().sounds.default_sound, "a");
}

#[test]
fn answers_are_snapshots() {
    let mut o = fresh();
    let id = o.get_uid().unwrap();
    o.apply(Alert::AlarmAdded(alarm(id, 8, 0)), nine()).unwrap();
    match o.answer(ServerCommandKind::GetAlarms) {
        Ok(ServerResponce::Alarms(alarms)) => {
            assert_eq!(alarms.len(), 1);
            assert_eq!(alarms[&id], o.config().alarms.data[&id]);
        }
        other => panic!("{:?}", other),
    }
    match o.answer(ServerCommandKind::GetSounds) {
        Ok(ServerResponce::Sounds(sounds)) => assert_eq!(sounds, o.config().sounds.sounds),
        other => panic!("{:?}", other),
    }
}
