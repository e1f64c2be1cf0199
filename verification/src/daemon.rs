//! The daemon as one value: the owner of the state together with the bus on
//! which every change is announced. Whatever a session asks, the change it
//! brings about reaches every session that is connected at that moment.

use crate::bus::{bounded_push, Bus};
use crate::message::{Alert, ClientMessage, ServerCommandKind, ServerMessage};
use crate::message::{announcement_of, ServerMessageView};
use crate::owner::{chores_of, notice_of, DomainError, Effect, Outcome, Owner, State};
use crate::session::{route, route_of, Route};
use crate::time::Moment;
use vstd::prelude::*;

verus! {

pub struct Daemon {
    owner: Owner,
    bus: Bus<Alert>,
}

/// What a session gets back for a message.
pub struct Handled {
    /// The answer to a question, for this session alone.
    pub reply: Option<ServerMessage>,
    /// What the embedding program has to carry out.
    pub effects: Vec<Effect>,
    /// Why the owner refused, if it did.
    pub error: Option<DomainError>,
}

/// What a queue holds after an outcome was announced: one event more if the
/// outcome announces a change and the bus has room to count it.
pub open spec fn told(queue: Seq<Alert>, outcome: Outcome, capacity: nat, room: bool) -> Seq<
    Alert,
> {
    match outcome {
        Ok((_, effects)) => match notice_of(effects) {
            Some(alert) => if room {
                bounded_push(queue, alert, capacity)
            } else {
                queue
            },
            None => queue,
        },
        Err(_) => queue,
    }
}

impl Daemon {
    pub closed spec fn wf(&self) -> bool {
        self.owner.wf() && self.bus.wf()
    }

    /// The state that the owner holds.
    pub closed spec fn state(&self) -> State {
        self.owner@
    }

    /// Whether `session` is connected.
    pub closed spec fn connected(&self, session: u64) -> bool {
        self.bus.subscribed(session)
    }

    /// The announcements that `session` has not been sent yet.
    pub closed spec fn pending(&self, session: u64) -> Seq<Alert> {
        self.bus.pending(session)
    }

    pub closed spec fn capacity(&self) -> nat {
        self.bus.spec_capacity()
    }

    /// Whether the bus can count one more announcement.
    pub closed spec fn room(&self) -> bool {
        self.bus.published() < u64::MAX
    }

    /// How many sessions have ever connected.
    pub closed spec fn sessions(&self) -> nat {
        self.bus.enrolled()
    }

    /// A daemon around `owner`, with no session connected.
    pub fn new(owner: Owner, capacity: usize) -> (d: Daemon)
        requires
            owner.wf(),
        ensures
            d.wf(),
            d.state() == owner@,
            d.capacity() == capacity,
            d.room(),
            d.sessions() == 0,
            forall|session: u64| !d.connected(session),
    {
        Daemon { owner, bus: Bus::new(capacity) }
    }

    /// The owner, for reading the configuration.
    pub fn owner(&self) -> (o: &Owner)
        ensures
            o@ == self.state(),
    {
        &self.owner
    }

    /// Connects a session. It will be sent what is announced from now on.
    pub fn connect(&mut self) -> (r: Option<u64>)
        requires
            old(self).wf(),
        ensures
            final(self).wf(),
            final(self).state() == old(self).state(),
            final(self).capacity() == old(self).capacity(),
            final(self).room() == old(self).room(),
            r.is_some() <==> old(self).sessions() < u64::MAX,
            r matches Some(session) ==> {
                &&& !old(self).connected(session)
                &&& final(self).connected(session)
                &&& final(self).pending(session) == Seq::<Alert>::empty()
                &&& final(self).sessions() == old(self).sessions() + 1
                &&& forall|other: u64|
                    other != session ==> final(self).connected(other) == old(self).connected(other)
                        && final(self).pending(other) == old(self).pending(other)
            },
            r is None ==> final(self).sessions() == old(self).sessions(),
            r is None ==> forall|other: u64|
                final(self).connected(other) == old(self).connected(other)
                    && final(self).pending(other) == old(self).pending(other),
    {
        self.bus.subscribe()
    }

    /// Disconnects a session. Returns whether it was connected.
    pub fn disconnect(&mut self, session: u64) -> (was: bool)
        requires
            old(self).wf(),
        ensures
            final(self).wf(),
            final(self).state() == old(self).state(),
            final(self).capacity() == old(self).capacity(),
            final(self).room() == old(self).room(),
            final(self).sessions() == old(self).sessions(),
            was == old(self).connected(session),
            !final(self).connected(session),
            forall|other: u64|
                other != session ==> final(self).connected(other) == old(self).connected(other)
                    && final(self).pending(other) == old(self).pending(other),
    {
        self.bus.unsubscribe(session)
    }

    /// Announces the final `Publish` of `effects`, if there is one, and hands
    /// back the other effects.
    fn announce(&mut self, effects: Vec<Effect>, Ghost(outcome): Ghost<Outcome>) -> (chores: Vec<
        Effect,
    >)
        requires
            old(self).wf(),
            outcome matches Ok((_, list)) && list == effects@,
        ensures
            final(self).wf(),
            final(self).state() == old(self).state(),
            final(self).capacity() == old(self).capacity(),
            final(self).sessions() == old(self).sessions(),
            chores@ == chores_of(effects@),
            forall|session: u64| final(self).connected(session) == old(self).connected(session),
            forall|session: u64| #[trigger]
                final(self).connected(session) ==> final(self).pending(session) == told(
                    old(self).pending(session),
                    outcome,
                    old(self).capacity(),
                    old(self).room(),
                ),
    {
        let mut effects = effects;
        let ghost all = effects@;
        match effects.pop() {
            Some(Effect::Publish(alert)) => {
                self.bus.publish(alert);
                effects
            },
            Some(other) => {
                effects.push(other);
                assert(effects@ =~= all);
                effects
            },
            None => effects,
        }
    }

    /// Applies a change and announces it to every connected session.
    pub fn submit(&mut self, alert: Alert, now: Moment) -> (r: Result<Vec<Effect>, DomainError>)
        requires
            old(self).wf(),
        ensures
            final(self).wf(),
            final(self).capacity() == old(self).capacity(),
            final(self).sessions() == old(self).sessions(),
            match old(self).state().step(alert, now) {
                Ok((next, effects)) => r is Ok && r->Ok_0@ == chores_of(effects) && final(self).state() == next,
                Err(e) => r is Err && r->Err_0 == e && final(self).state() == old(self).state(),
            },
            forall|session: u64| final(self).connected(session) == old(self).connected(session),
            forall|session: u64| #[trigger]
                final(self).connected(session) ==> final(self).pending(session) == told(
                    old(self).pending(session),
                    old(self).state().step(alert, now),
                    old(self).capacity(),
                    old(self).room(),
                ),
    {
        let ghost outcome = self.owner@.step(alert, now);
        match self.owner.apply(alert, now) {
            Ok(effects) => {
                let ghost exact: Outcome = Ok((self.owner@, effects@));
                assert(outcome is Ok);
                assert((outcome->Ok_0).1 =~= effects@);
                Ok(self.announce(effects, Ghost(exact)))
            },
            Err(e) => Err(e),
        }
    }

    /// Reports an expired timer and announces the ringing alarm.
    pub fn fire(&mut self, id: u64, at: Moment, now: Moment) -> (r: Result<
        Vec<Effect>,
        DomainError,
    >)
        requires
            old(self).wf(),
        ensures
            final(self).wf(),
            final(self).capacity() == old(self).capacity(),
            final(self).sessions() == old(self).sessions(),
            match old(self).state().fire(id, at, now) {
                Ok((next, effects)) => r is Ok && r->Ok_0@ == chores_of(effects) && final(self).state() == next,
                Err(e) => r is Err && r->Err_0 == e && final(self).state() == old(self).state(),
            },
            forall|session: u64| final(self).connected(session) == old(self).connected(session),
            forall|session: u64| #[trigger]
                final(self).connected(session) ==> final(self).pending(session) == told(
                    old(self).pending(session),
                    old(self).state().fire(id, at, now),
                    old(self).capacity(),
                    old(self).room(),
                ),
    {
        let ghost outcome = self.owner@.fire(id, at, now);
        match self.owner.fire(id, at, now) {
            Ok(effects) => {
                let ghost exact: Outcome = Ok((self.owner@, effects@));
                assert(outcome is Ok);
                assert((outcome->Ok_0).1 =~= effects@);
                Ok(self.announce(effects, Ghost(exact)))
            },
            Err(e) => Err(e),
        }
    }

    /// Answers a question. Nothing is announced.
    pub fn ask(&mut self, kind: ServerCommandKind) -> (r: Result<ServerMessage, DomainError>)
        requires
            old(self).wf(),
        ensures
            final(self).wf(),
            final(self).capacity() == old(self).capacity(),
            final(self).room() == old(self).room(),
            final(self).sessions() == old(self).sessions(),
            forall|session: u64|
                final(self).connected(session) == old(self).connected(session) && final(self).pending(session) == old(self).pending(session),
            match kind {
                ServerCommandKind::NewUid => match old(self).state().issue() {
                    Ok((next, id)) => r is Ok && r->Ok_0@ == ServerMessageView::Uid(id) && final(self).state() == next,
                    Err(e) => r is Err && r->Err_0 == e && final(self).state() == old(self).state(),
                },
                ServerCommandKind::GetAlarms => r is Ok && r->Ok_0@ == ServerMessageView::Alarms(
                    old(self).state().alarms,
                ) && final(self).state() == old(self).state(),
                ServerCommandKind::GetSounds => r is Ok && r->Ok_0@ == ServerMessageView::Sounds(
                    old(self).state().sounds,
                ) && final(self).state() == old(self).state(),
            },
    {
        match self.owner.answer(kind) {
            Ok(response) => Ok(ServerMessage::reply(response)),
            Err(e) => Err(e),
        }
    }

    /// The next announcement for `session`, as the message to send.
    pub fn next_for(&self, session: u64) -> (r: Option<ServerMessage>)
        requires
            self.wf(),
        ensures
            r.is_some() <==> self.pending(session).len() > 0,
            r matches Some(message) ==> message@ == announcement_of(self.pending(session).first()),
    {
        match self.bus.peek(session) {
            Some(alert) => Some(ServerMessage::announcement(alert.clone())),
            None => None,
        }
    }

    /// Marks the next announcement for `session` as sent. Returns whether
    /// there was one.
    pub fn sent(&mut self, session: u64) -> (moved: bool)
        requires
            old(self).wf(),
        ensures
            final(self).wf(),
            final(self).state() == old(self).state(),
            final(self).capacity() == old(self).capacity(),
            final(self).room() == old(self).room(),
            final(self).sessions() == old(self).sessions(),
            moved == (old(self).pending(session).len() > 0),
            moved ==> final(self).pending(session) == old(self).pending(session).drop_first(),
            !moved ==> final(self).pending(session) == old(self).pending(session),
            forall|other: u64| final(self).connected(other) == old(self).connected(other),
            forall|other: u64|
                other != session ==> final(self).pending(other) == old(self).pending(other),
    {
        self.bus.advance(session)
    }

    /// Handles one message of a client: a question is answered, a change is
    /// applied and announced.
    pub fn handle(&mut self, message: ClientMessage, now: Moment) -> (h: Handled)
        requires
            old(self).wf(),
        ensures
            final(self).wf(),
            final(self).capacity() == old(self).capacity(),
            final(self).sessions() == old(self).sessions(),
            forall|session: u64| final(self).connected(session) == old(self).connected(session),
            match route_of(message) {
                Route::Change(alert) => {
                    &&& h.reply is None
                    &&& match old(self).state().step(alert, now) {
                        Ok((next, effects)) => h.error is None && h.effects@ == chores_of(effects)
                            && final(self).state() == next,
                        Err(e) => h.error == Some(e) && h.effects@.len() == 0 && final(self).state() == old(self).state(),
                    }
                    &&& forall|session: u64| #[trigger]
                        final(self).connected(session) ==> final(self).pending(session) == told(
                            old(self).pending(session),
                            old(self).state().step(alert, now),
                            old(self).capacity(),
                            old(self).room(),
                        )
                },
                Route::Query(kind) => {
                    &&& h.effects@.len() == 0
                    &&& forall|session: u64|
                        final(self).pending(session) == old(self).pending(session)
                    &&& match kind {
                        ServerCommandKind::NewUid => match old(self).state().issue() {
                            Ok((next, id)) => h.error is None && h.reply is Some && h.reply->0@
                                == ServerMessageView::Uid(id) && final(self).state() == next,
                            Err(e) => h.error == Some(e) && h.reply is None && final(self).state() == old(self).state(),
                        },
                        ServerCommandKind::GetAlarms => h.error is None && h.reply is Some
                            && h.reply->0@ == ServerMessageView::Alarms(old(self).state().alarms)
                            && final(self).state() == old(self).state(),
                        ServerCommandKind::GetSounds => h.error is None && h.reply is Some
                            && h.reply->0@ == ServerMessageView::Sounds(old(self).state().sounds)
                            && final(self).state() == old(self).state(),
                    }
                },
            },
    {
        match route(message) {
            Route::Change(alert) => match self.submit(alert, now) {
                Ok(effects) => Handled { reply: None, effects, error: None },
                Err(e) => Handled { reply: None, effects: Vec::new(), error: Some(e) },
            },
            Route::Query(kind) => match self.ask(kind) {
                Ok(reply) => Handled { reply: Some(reply), effects: Vec::new(), error: None },
                Err(e) => Handled { reply: None, effects: Vec::new(), error: Some(e) },
            },
        }
    }
}

} // verus!
