use roosty_clockd::config::{Config, Sound, Volume};
use roosty_clockd::daemon::Daemon;
use roosty_clockd::message::{Alarm, AlarmEdit, Alert, ClientMessage, ServerMessage};
use roosty_clockd::owner::{DomainError, Effect, Owner};
use roosty_clockd::session::{on_inbound, route, Inbound, Route, Step};
use roosty_clockd::message::ServerCommandKind;
use roosty_clockd::time::{ClockTime, Moment};

fn at(h: u32, m: u32) -> ClockTime {
    ClockTime::from_hms_opt(h, m, 0).unwrap()
}

fn nine() -> Moment {
    Moment::new(10, at(9, 0))
}

fn daemon(capacity: usize) -> Daemon {
    let config = Config::default();
    let (owner, _) =
        Owner::new(config.sounds.sounds, config.sounds.default_sound, Vec::new(), nine()).unwrap();
    Daemon::new(owner, capacity)
}

fn alarm(id: u64) -> Alarm {
    Alarm {
        name: None,
        time: at(8, 0),
        volume: Volume::full(),
        sound: "beep beep".to_string(),
        id,
    }
}

fn uid(d: &mut Daemon) -> u64 {
    match d.handle(ClientMessage::GetNewUid, nine()).reply {
        Some(ServerMessage::Uid(id)) => id,
        other => panic!("{:?}", other),
    }
}

#[test]
fn a_session_that_asked_nothing_is_told_of_an_added_alarm() {
    let mut d = daemon(8);
    let one = d.connect().unwrap();
    let two = d.connect().unwrap();
    let id = uid(&mut d);
    let h = d.handle(ClientMessage::AddAlarm(alarm(id)), nine());
    assert_eq!(h.error, None);
    assert_eq!(h.reply, None);
    assert_eq!(h.effects, vec![Effect::Persist, Effect::Arm(id, Moment::new(11, at(8, 0)))]);
    assert_eq!(d.next_for(two), Some(ServerMessage::AlarmAdded(alarm(id))));
    assert_eq!(d.next_for(one), Some(ServerMessage::AlarmAdded(alarm(id))));
    assert!(d.sent(two));
    assert_eq!(d.next_for(two), None);
    assert!(!d.sent(two));
    assert_eq!(d.next_for(one), Some(ServerMessage::AlarmAdded(alarm(id))));
}

#[test]
fn questions_are_answered_to_the_asker_only() {
    let mut d = daemon(8);
    let one = d.connect().unwrap();
    let two = d.connect().unwrap();
    let a = uid(&mut d);
    let b = uid(&mut d);
    assert_eq!((a, b), (1, 2));
    assert_eq!(d.next_for(one), None);
    assert_eq!(d.next_for(two), None);
    let h = d.handle(ClientMessage::GetSounds, nine());
    assert_eq!(h.reply, Some(ServerMessage::Sounds(Config::default().sounds.sounds)));
    assert!(h.effects.is_empty());
    let h = d.handle(ClientMessage::GetAlarms, nine());
    assert_eq!(h.reply, Some(ServerMessage::Alarms(std::collections::HashMap::new())));
}

#[test]
fn a_refused_change_is_reported_and_not_announced() {
    let mut d = daemon(8);
    let one = d.connect().unwrap();
    let h = d.handle(ClientMessage::SetAlarm(9, AlarmEdit::Enabled(false)), nine());
    assert_eq!(h.error, Some(DomainError::UnknownAlarm(9)));
    assert!(h.effects.is_empty());
    assert_eq!(h.reply, None);
    assert_eq!(d.next_for(one), None);
    let h = d.handle(ClientMessage::RemoveAlarm(9), nine());
    assert_eq!(h.error, None);
    assert!(h.effects.is_empty());
    assert_eq!(d.next_for(one), None);
}

#[test]
fn announcements_arrive_in_the_order_of_processing() {
    let mut d = daemon(8);
    let one = d.connect().unwrap();
    let id = uid(&mut d);
    d.handle(ClientMessage::AddAlarm(alarm(id)), nine());
    d.handle(ClientMessage::SetAlarm(id, AlarmEdit::Name(Some("x".to_string()))), nine());
    d.handle(ClientMessage::AddSound(Sound::new("g".to_string(), "g.mp3".to_string())), nine());
    d.handle(ClientMessage::RemoveSound("g".to_string()), nine());
    d.handle(ClientMessage::StopAlarm(id), nine());
    d.handle(ClientMessage::RemoveAlarm(id), nine());
    let mut seen = Vec::new();
    while let Some(m) = d.next_for(one) {
        seen.push(m);
        d.sent(one);
    }
    assert_eq!(
        seen,
        vec![
            ServerMessage::AlarmAdded(alarm(id)),
            ServerMessage::AlarmSet(id, AlarmEdit::Name(Some("x".to_string()))),
            ServerMessage::SoundAdded(Sound::new("g".to_string(), "g.mp3".to_string())),
            ServerMessage::SoundRemoved("g".to_string()),
            ServerMessage::AlarmStopped(id),
            ServerMessage::AlarmRemoved(id),
        ]
    );
    assert!(d.owner().config().alarms.data.is_empty());
}

#[test]
fn a_firing_timer_is_announced_to_every_session() {
    let mut d = daemon(8);
    let one = d.connect().unwrap();
    let id = uid(&mut d);
    d.handle(ClientMessage::AddAlarm(alarm(id)), nine());
    d.sent(one);
    let due = Moment::new(11, at(8, 0));
    let effects = d.fire(id, due, due).unwrap();
    assert_eq!(
        effects,
        vec![
            Effect::Play(id, "beep_beep.mp3".to_string(), Volume::full()),
            Effect::Cancel(id),
            Effect::Arm(id, Moment::new(12, at(8, 0))),
        ]
    );
    assert_eq!(d.next_for(one), Some(ServerMessage::AlarmRinging(id)));
}

#[test]
fn a_slow_session_loses_its_oldest_announcement() {
    let mut d = daemon(2);
    let slow = d.connect().unwrap();
    let id = uid(&mut d);
    d.submit(Alert::AlarmAdded(alarm(id)), nine()).unwrap();
    d.submit(Alert::AlarmStopped(id), nine()).unwrap();
    d.submit(Alert::AlarmRemoved(id), nine()).unwrap();
    assert_eq!(d.next_for(slow), Some(ServerMessage::AlarmStopped(id)));
    d.sent(slow);
    assert_eq!(d.next_for(slow), Some(ServerMessage::AlarmRemoved(id)));
}

#[test]
fn a_disconnected_session_is_told_nothing() {
    let mut d = daemon(2);
    let one = d.connect().unwrap();
    assert!(d.disconnect(one));
    assert!(!d.disconnect(one));
    let id = uid(&mut d);
    d.submit(Alert::AlarmAdded(alarm(id)), nine()).unwrap();
    assert_eq!(d.next_for(one), None);
}

#[test]
fn every_client_message_has_its_route() {
    assert_eq!(route(ClientMessage::GetAlarms), Route::Query(ServerCommandKind::GetAlarms));
    assert_eq!(route(ClientMessage::GetSounds), Route::Query(ServerCommandKind::GetSounds));
    assert_eq!(route(ClientMessage::GetNewUid), Route::Query(ServerCommandKind::NewUid));
    assert_eq!(route(ClientMessage::AddAlarm(alarm(3))), Route::Change(Alert::AlarmAdded(alarm(3))));
    assert_eq!(
        route(ClientMessage::SetAlarm(3, AlarmEdit::Enabled(true))),
        Route::Change(Alert::AlarmSet(3, AlarmEdit::Enabled(true)))
    );
    assert_eq!(route(ClientMessage::RemoveAlarm(3)), Route::Change(Alert::AlarmRemoved(3)));
    assert_eq!(route(ClientMessage::StopAlarm(3)), Route::Change(Alert::AlarmStopped(3)));
    assert_eq!(
        route(ClientMessage::RemoveSound("x".to_string())),
        Route::Change(Alert::SoundRemoved("x".to_string()))
    );
    assert_eq!(
        route(ClientMessage::AddSound(Sound::rain())),
        Route::Change(Alert::SoundAdded(Sound::rain()))
    );
}

#[test]
fn undecodable_frames_are_skipped_and_broken_streams_close() {
    assert_eq!(on_inbound(Inbound::Undecodable), Step::Skip);
    assert_eq!(on_inbound(Inbound::Broken), Step::Close);
    assert_eq!(
        on_inbound(Inbound::Message(ClientMessage::StopAlarm(1))),
        Step::Forward(Route::Change(Alert::AlarmStopped(1)))
    );
}
