//! What holds of the owner whatever the events are.

use crate::config::has_name;
use crate::message;
use crate::message::{Alert, AlarmEdit};
use crate::owner::{lemma_step_keeps_wf, DomainError, Effect, State};
use crate::time::{next_occurrence_of, Moment};
use vstd::prelude::*;

verus! {

/// The state after the owner has processed `events` one after the other,
/// each at its moment. A refused event leaves the state as it was.
pub open spec fn run(s: State, events: Seq<(Alert, Moment)>) -> State
    decreases events.len(),
{
    if events.len() == 0 {
        s
    } else {
        let mid = run(s, events.drop_last());
        mid.after(mid.step(events.last().0, events.last().1))
    }
}

/// The alarms and sounds of a state: what is written to durable storage.
pub open spec fn persisted(s: State) -> (Map<u64, crate::config::Alarm>, Seq<crate::config::Sound>, String) {
    (s.alarms, s.sounds, s.default_sound)
}

/// However many events are processed, the state stays well formed.
pub proof fn lemma_run_keeps_wf(s: State, events: Seq<(Alert, Moment)>)
    requires
        s.wf(),
    ensures
        run(s, events).wf(),
    decreases events.len(),
{
    if events.len() > 0 {
        lemma_run_keeps_wf(s, events.drop_last());
        let mid = run(s, events.drop_last());
        lemma_step_keeps_wf(mid, events.last().0, events.last().1);
    }
}

/// Processing is serial: the state after a queue of events is the state
/// that results from processing its first part and then, from there, the
/// rest. So whatever sessions the events came from and however they were
/// interleaved, the configuration that ends up persisted is the one that
/// applying them one by one in the order of processing gives.
pub proof fn lemma_run_is_serial(s: State, first: Seq<(Alert, Moment)>, rest: Seq<(Alert, Moment)>)
    ensures
        run(s, first + rest) == run(run(s, first), rest),
        persisted(run(s, first + rest)) == persisted(run(run(s, first), rest)),
    decreases rest.len(),
{
    if rest.len() == 0 {
        assert(first + rest =~= first);
    } else {
        assert((first + rest).drop_last() =~= first + rest.drop_last());
        assert((first + rest).last() == rest.last());
        lemma_run_is_serial(s, first, rest.drop_last());
    }
}

/// One event more is one step more.
pub proof fn lemma_run_step(s: State, events: Seq<(Alert, Moment)>, alert: Alert, now: Moment)
    ensures
        run(s, events.push((alert, now))) == run(s, events).after(run(s, events).step(alert, now)),
{
    assert(events.push((alert, now)).drop_last() =~= events);
}

/// Removing an alarm that does not exist is no error and changes nothing:
/// no alarm, no timer, no effect.
pub proof fn lemma_remove_absent_is_noop(s: State, id: u64, now: Moment)
    requires
        !s.alarms.contains_key(id),
    ensures
        s.step(Alert::AlarmRemoved(id), now) == Ok::<(State, Seq<Effect>), DomainError>(
            (s, Seq::empty()),
        ),
{
}

/// Removing an alarm twice is removing it once.
pub proof fn lemma_remove_twice(s: State, id: u64, now: Moment, later: Moment)
    ensures
        ({
            let once = s.after(s.step(Alert::AlarmRemoved(id), now));
            once.step(Alert::AlarmRemoved(id), later) == Ok::<(State, Seq<Effect>), DomainError>(
                (once, Seq::empty()),
            )
        }),
{
}

/// Removing an alarm, present or not, leaves every other alarm and every
/// other timer as it was.
pub proof fn lemma_remove_spares_others(s: State, id: u64, other: u64, now: Moment)
    requires
        s.wf(),
        other != id,
    ensures
        ({
            let next = s.after(s.step(Alert::AlarmRemoved(id), now));
            &&& next.alarms.contains_key(other) == s.alarms.contains_key(other)
            &&& next.alarms.contains_key(other) ==> next.alarms[other] == s.alarms[other]
            &&& next.timers.contains_key(other) == s.timers.contains_key(other)
            &&& next.timers.contains_key(other) ==> next.timers[other] == s.timers[other]
            &&& !next.alarms.contains_key(id)
            &&& !next.timers.contains_key(id)
        }),
{
}

/// Two identifiers handed out one after the other differ, no alarm has
/// either, and an alarm can be added under each of them: after both
/// additions both alarms are there.
pub proof fn lemma_issued_ids_usable(
    s: State,
    first: message::Alarm,
    second: message::Alarm,
    now: Moment,
)
    requires
        s.wf(),
        s.issued < u64::MAX - 1,
        has_name(s.sounds, first.sound@),
        has_name(s.sounds, second.sound@),
        next_occurrence_of(now, first.time) is Some,
        next_occurrence_of(now, second.time) is Some,
        first.id == s.issued + 1,
        second.id == s.issued + 2,
    ensures
        ({
            let (s1, id1) = s.issue()->Ok_0;
            let (s2, id2) = s1.issue()->Ok_0;
            let s3 = s2.after(s2.step(Alert::AlarmAdded(first), now));
            let s4 = s3.after(s3.step(Alert::AlarmAdded(second), now));
            &&& s.issue() is Ok
            &&& s1.issue() is Ok
            &&& id1 == first.id
            &&& id2 == second.id
            &&& id1 != id2
            &&& !s.alarms.contains_key(id1)
            &&& !s.alarms.contains_key(id2)
            &&& s2.step(Alert::AlarmAdded(first), now) is Ok
            &&& s3.step(Alert::AlarmAdded(second), now) is Ok
            &&& s4.alarms.contains_key(id1)
            &&& s4.alarms.contains_key(id2)
            &&& s4.alarms[id1] == first.stored()
            &&& s4.alarms[id2] == second.stored()
        }),
{
}

/// Disabling an alarm that is sounding stops its playback, cancels its
/// timer and arms nothing: the alarm ends up silent and unscheduled.
pub proof fn lemma_disable_while_ringing(s: State, id: u64, now: Moment)
    requires
        s.wf(),
        s.alarms.contains_key(id),
        s.alarms[id].rang_today,
    ensures
        ({
            let outcome = s.step(Alert::AlarmSet(id, AlarmEdit::Enabled(false)), now);
            &&& outcome is Ok
            &&& (outcome->Ok_0).1 == seq![
                Effect::Silence(id),
                Effect::Cancel(id),
                Effect::Persist,
                Effect::Publish(Alert::AlarmSet(id, AlarmEdit::Enabled(false))),
            ]
            &&& !(outcome->Ok_0).0.timers.contains_key(id)
            &&& !(outcome->Ok_0).0.alarms[id].enabled
            &&& !(outcome->Ok_0).0.alarms[id].rang_today
        }),
{
    let outcome = s.step(Alert::AlarmSet(id, AlarmEdit::Enabled(false)), now);
    assert((outcome->Ok_0).1 =~= seq![
        Effect::Silence(id),
        Effect::Cancel(id),
        Effect::Persist,
        Effect::Publish(Alert::AlarmSet(id, AlarmEdit::Enabled(false))),
    ]);
}

/// Stopping an alarm leaves every timer as it was.
pub proof fn lemma_stop_keeps_timers(s: State, id: u64, now: Moment)
    ensures
        s.after(s.step(Alert::AlarmStopped(id), now)).timers == s.timers,
{
}


/// The timers that are live after one effect is carried out: cancelling
/// takes the timer of the alarm away, arming puts one in.
pub open spec fn after_effect(live: Map<u64, Moment>, effect: Effect) -> Map<u64, Moment> {
    match effect {
        Effect::Cancel(id) => live.remove(id),
        Effect::Arm(id, at) => live.insert(id, at),
        _ => live,
    }
}

/// The timers that are live after `effects` are carried out in order.
pub open spec fn installed(live: Map<u64, Moment>, effects: Seq<Effect>) -> Map<u64, Moment>
    decreases effects.len(),
{
    if effects.len() == 0 {
        live
    } else {
        after_effect(installed(live, effects.drop_last()), effects.last())
    }
}

/// Whether, while `effects` are carried out in order, no timer is ever armed
/// for an alarm that has a live timer at that instant.
pub open spec fn orderly(live: Map<u64, Moment>, effects: Seq<Effect>) -> bool
    decreases effects.len(),
{
    if effects.len() == 0 {
        true
    } else {
        &&& orderly(live, effects.drop_last())
        &&& effects.last() matches Effect::Arm(id, _) ==> !installed(
            live,
            effects.drop_last(),
        ).contains_key(id)
    }
}

/// Carrying out one list of effects after another.
pub proof fn lemma_effects_append(live: Map<u64, Moment>, a: Seq<Effect>, b: Seq<Effect>)
    ensures
        installed(live, a + b) == installed(installed(live, a), b),
        orderly(live, a + b) == (orderly(live, a) && orderly(installed(live, a), b)),
    decreases b.len(),
{
    if b.len() == 0 {
        assert(a + b =~= a);
    } else {
        assert((a + b).drop_last() =~= a + b.drop_last());
        assert((a + b).last() == b.last());
        lemma_effects_append(live, a, b.drop_last());
    }
}

/// Carrying out a single effect.
pub proof fn lemma_effects_single(live: Map<u64, Moment>, effect: Effect)
    ensures
        installed(live, seq![effect]) == after_effect(live, effect),
        orderly(live, seq![effect]) == (effect matches Effect::Arm(id, _) ==> !live.contains_key(
            id,
        )),
{
    assert(seq![effect].drop_last() =~= Seq::<Effect>::empty());
    reveal_with_fuel(installed, 2);
    reveal_with_fuel(orderly, 2);
}

/// Carrying out effects that neither arm nor cancel changes no timer.
pub proof fn lemma_effects_idle(live: Map<u64, Moment>, effects: Seq<Effect>)
    requires
        forall|i: int|
            0 <= i < effects.len() ==> !(#[trigger] effects[i] is Arm) && !(effects[i] is Cancel),
    ensures
        installed(live, effects) == live,
        orderly(live, effects),
    decreases effects.len(),
{
    if effects.len() > 0 {
        lemma_effects_idle(live, effects.drop_last());
    }
}

/// Silencing and cancelling an alarm leaves no timer for it and arms none.
proof fn lemma_prelude(s: State, id: u64)
    ensures
        installed(s.timers, s.silencing(id) + s.cancelling(id)) == s.timers.remove(id),
        orderly(s.timers, s.silencing(id) + s.cancelling(id)),
        installed(s.timers, s.cancelling(id)) == s.timers.remove(id),
        orderly(s.timers, s.cancelling(id)),
        installed(s.timers, s.silencing(id)) == s.timers,
        orderly(s.timers, s.silencing(id)),
{
    lemma_effects_idle(s.timers, s.silencing(id));
    if s.timers.contains_key(id) {
        lemma_effects_single(s.timers, Effect::Cancel(id));
    } else {
        assert(s.timers.remove(id) =~= s.timers);
    }
    lemma_effects_append(s.timers, s.silencing(id), s.cancelling(id));
}

/// Whatever the event, the effects never arm a timer for an alarm whose
/// timer is live: a timer that is in force is cancelled before another is
/// armed in its place. So no alarm ever has two live timers. And once the
/// effects are carried out, the live timers are exactly those of the state.
pub proof fn lemma_step_timers(s: State, alert: Alert, now: Moment)
    requires
        s.step(alert, now) is Ok,
    ensures
        orderly(s.timers, (s.step(alert, now)->Ok_0).1),
        installed(s.timers, (s.step(alert, now)->Ok_0).1) == (s.step(alert, now)->Ok_0).0.timers,
{
    let (next, effects) = s.step(alert, now)->Ok_0;
    match alert {
        Alert::AlarmAdded(alarm) => {
            let id = alarm.id;
            let at = next_occurrence_of(now, alarm.time)->0;
            let head = s.silencing(id) + s.cancelling(id) + seq![Effect::Persist];
            let arm = seq![Effect::Arm(id, at)];
            let tail = seq![Effect::Publish(Alert::AlarmAdded(alarm))];
            assert(effects =~= head + arm + tail);
            lemma_prelude(s, id);
            lemma_effects_idle(s.timers.remove(id), seq![Effect::Persist]);
            lemma_effects_append(
                s.timers,
                s.silencing(id) + s.cancelling(id),
                seq![Effect::Persist],
            );
            lemma_effects_single(s.timers.remove(id), Effect::Arm(id, at));
            lemma_effects_append(s.timers, head, arm);
            lemma_effects_idle(installed(s.timers, head + arm), tail);
            lemma_effects_append(s.timers, head + arm, tail);
            assert(s.timers.remove(id).insert(id, at) =~= s.timers.insert(id, at));
        },
        Alert::AlarmSet(id, edit) => {
            let after = edit.applied_to(s.alarms[id]);
            let tail = seq![Effect::Persist, Effect::Publish(Alert::AlarmSet(id, edit))];
            lemma_prelude(s, id);
            if edit is Name || edit is Volume {
                lemma_effects_idle(s.timers, tail);
            } else if after.enabled {
                let at = next_occurrence_of(now, after.time)->0;
                let head = s.cancelling(id) + seq![Effect::Persist];
                let arm = seq![Effect::Arm(id, at)];
                let told = seq![Effect::Publish(Alert::AlarmSet(id, edit))];
                assert(effects =~= head + arm + told);
                lemma_effects_idle(s.timers.remove(id), seq![Effect::Persist]);
                lemma_effects_append(s.timers, s.cancelling(id), seq![Effect::Persist]);
                lemma_effects_single(s.timers.remove(id), Effect::Arm(id, at));
                lemma_effects_append(s.timers, head, arm);
                lemma_effects_idle(installed(s.timers, head + arm), told);
                lemma_effects_append(s.timers, head + arm, told);
                assert(s.timers.remove(id).insert(id, at) =~= s.timers.insert(id, at));
            } else {
                let head = s.silencing(id) + s.cancelling(id);
                assert(effects =~= head + tail);
                lemma_effects_idle(installed(s.timers, head), tail);
                lemma_effects_append(s.timers, head, tail);
            }
        },
        Alert::AlarmRemoved(id) => {
            if s.alarms.contains_key(id) {
                let head = s.silencing(id) + s.cancelling(id);
                let tail = seq![Effect::Persist, Effect::Publish(Alert::AlarmRemoved(id))];
                assert(effects =~= head + tail);
                lemma_prelude(s, id);
                lemma_effects_idle(installed(s.timers, head), tail);
                lemma_effects_append(s.timers, head, tail);
            }
        },
        Alert::SoundAdded(sound) => {
            lemma_effects_idle(s.timers, effects);
        },
        Alert::SoundRemoved(name) => {
            lemma_effects_idle(s.timers, effects);
        },
        Alert::AlarmRinging(_) => {},
        Alert::AlarmStopped(id) => {
            lemma_effects_idle(s.timers, effects);
        },
    }
}

/// The same holds when a timer fires: the spent timer is cancelled before
/// the alarm is armed for its next occurrence.
pub proof fn lemma_fire_timers(s: State, id: u64, at: Moment, now: Moment)
    requires
        s.fire(id, at, now) is Ok,
    ensures
        orderly(s.timers, (s.fire(id, at, now)->Ok_0).1),
        installed(s.timers, (s.fire(id, at, now)->Ok_0).1) == (s.fire(id, at, now)->Ok_0).0.timers,
{
    let (next, effects) = s.fire(id, at, now)->Ok_0;
    if s.timer_in_force(id, at) {
        let alarm = s.alarms[id];
        let then = next_occurrence_of(crate::time::later_of(now, at), alarm.time)->0;
        let play: Seq<Effect> = if alarm.rang_today {
            seq![]
        } else {
            seq![
                Effect::Play(
                    id,
                    s.sounds[crate::config::index_of(s.sounds, alarm.sound@)].path,
                    alarm.volume,
                ),
            ]
        };
        let cancel = seq![Effect::Cancel(id)];
        let arm = seq![Effect::Arm(id, then)];
        let tell = seq![Effect::Publish(Alert::AlarmRinging(id))];
        assert(effects =~= play + cancel + arm + tell);
        lemma_effects_idle(s.timers, play);
        lemma_effects_single(s.timers, Effect::Cancel(id));
        lemma_effects_append(s.timers, play, cancel);
        lemma_effects_single(s.timers.remove(id), Effect::Arm(id, then));
        lemma_effects_append(s.timers, play + cancel, arm);
        lemma_effects_idle(installed(s.timers, play + cancel + arm), tell);
        lemma_effects_append(s.timers, play + cancel + arm, tell);
        assert(s.timers.remove(id).insert(id, then) =~= s.timers.insert(id, then));
    }
}


/// At start-up no timer is live, each enabled alarm is armed once, and the
/// live timers are then exactly those of the state.
pub proof fn lemma_enroll_timers(s: State, alarms: Seq<crate::config::Alarm>, now: Moment)
    requires
        s.wf(),
        s.enroll_all(alarms, now) is Ok,
    ensures
        (s.enroll_all(alarms, now)->Ok_0).0.wf(),
        orderly(s.timers, (s.enroll_all(alarms, now)->Ok_0).1),
        installed(s.timers, (s.enroll_all(alarms, now)->Ok_0).1) == (s.enroll_all(
            alarms,
            now,
        )->Ok_0).0.timers,
    decreases alarms.len(),
{
    if alarms.len() > 0 {
        lemma_enroll_timers(s, alarms.drop_last(), now);
        let (mid, effects) = s.enroll_all(alarms.drop_last(), now)->Ok_0;
        let (next, more) = mid.enroll(alarms.last(), now)->Ok_0;
        crate::owner::lemma_enroll_keeps_wf(mid, alarms.last(), now);
        let id = (mid.issued + 1) as u64;
        assert(!mid.timers.contains_key(id)) by {
            if mid.timers.contains_key(id) {
                assert(mid.alarms.contains_key(id));
            }
        }
        if alarms.last().enabled {
            lemma_effects_single(mid.timers, more[0]);
            assert(more =~= seq![more[0]]);
        } else {
            lemma_effects_idle(mid.timers, more);
        }
        lemma_effects_append(s.timers, effects, more);
    }
}

} // verus!
