//! The decisions of one session: what to do with what arrives from its
//! client. Reading and writing the connection is the embedding program's
//! part; it reports what arrived and carries out the step that comes back.

use crate::frame::{read, starts_with_frame, first_payload, after_first, Reader};
use crate::message::{Alert, ClientMessage, ServerCommandKind};
use vstd::prelude::*;

verus! {

/// Where a message of a client goes.
#[derive(Debug, PartialEq, Eq)]
pub enum Route {
    /// A question that the owner answers to this session alone.
    Query(ServerCommandKind),
    /// A change that the owner applies and then announces to every session.
    Change(Alert),
}

/// The route of each message: the three questions are queries, everything
/// else is a change.
pub open spec fn route_of(message: ClientMessage) -> Route {
    match message {
        ClientMessage::GetAlarms => Route::Query(ServerCommandKind::GetAlarms),
        ClientMessage::GetSounds => Route::Query(ServerCommandKind::GetSounds),
        ClientMessage::GetNewUid => Route::Query(ServerCommandKind::NewUid),
        ClientMessage::SetAlarm(id, edit) => Route::Change(Alert::AlarmSet(id, edit)),
        ClientMessage::AddAlarm(alarm) => Route::Change(Alert::AlarmAdded(alarm)),
        ClientMessage::RemoveAlarm(id) => Route::Change(Alert::AlarmRemoved(id)),
        ClientMessage::AddSound(sound) => Route::Change(Alert::SoundAdded(sound)),
        ClientMessage::RemoveSound(name) => Route::Change(Alert::SoundRemoved(name)),
        ClientMessage::StopAlarm(id) => Route::Change(Alert::AlarmStopped(id)),
    }
}

/// Computes [`route_of`].
pub fn route(message: ClientMessage) -> (r: Route)
    ensures
        r == route_of(message),
{
    match message {
        ClientMessage::GetAlarms => Route::Query(ServerCommandKind::GetAlarms),
        ClientMessage::GetSounds => Route::Query(ServerCommandKind::GetSounds),
        ClientMessage::GetNewUid => Route::Query(ServerCommandKind::NewUid),
        ClientMessage::SetAlarm(id, edit) => Route::Change(Alert::AlarmSet(id, edit)),
        ClientMessage::AddAlarm(alarm) => Route::Change(Alert::AlarmAdded(alarm)),
        ClientMessage::RemoveAlarm(id) => Route::Change(Alert::AlarmRemoved(id)),
        ClientMessage::AddSound(sound) => Route::Change(Alert::SoundAdded(sound)),
        ClientMessage::RemoveSound(name) => Route::Change(Alert::SoundRemoved(name)),
        ClientMessage::StopAlarm(id) => Route::Change(Alert::AlarmStopped(id)),
    }
}

/// No client message asks to announce that an alarm is ringing: that
/// announcement can only come from a timer.
pub proof fn lemma_clients_cannot_ring(message: ClientMessage)
    ensures
        route_of(message) matches Route::Change(alert) ==> !(alert is AlarmRinging),
{
}

/// What the inbound side of a session has to report.
#[derive(Debug, PartialEq, Eq)]
pub enum Inbound {
    /// A frame whose payload is this message.
    Message(ClientMessage),
    /// A whole frame whose payload is no message.
    Undecodable,
    /// The stream failed or ended inside a frame.
    Broken,
}

/// What the session does next.
#[derive(Debug, PartialEq, Eq)]
pub enum Step {
    /// Hand the message on along this route and go on reading.
    Forward(Route),
    /// Drop the frame and go on reading.
    Skip,
    /// Close the session.
    Close,
}

/// A message is forwarded, an undecodable frame is dropped, and a broken
/// stream ends the session.
pub open spec fn step_of(input: Inbound) -> Step {
    match input {
        Inbound::Message(message) => Step::Forward(route_of(message)),
        Inbound::Undecodable => Step::Skip,
        Inbound::Broken => Step::Close,
    }
}

/// Computes [`step_of`].
pub fn on_inbound(input: Inbound) -> (s: Step)
    ensures
        s == step_of(input),
{
    match input {
        Inbound::Message(message) => Step::Forward(route(message)),
        Inbound::Undecodable => Step::Skip,
        Inbound::Broken => Step::Close,
    }
}

/// What the bytes that have arrived so far amount to.
#[derive(Debug, PartialEq, Eq)]
pub enum Poll {
    /// The payload of the next frame.
    Frame(Vec<u8>),
    /// Nothing whole yet; more bytes may come.
    Wait,
    /// The stream has ended between two frames.
    End,
    /// The stream has ended inside a frame.
    Broken,
}

/// Takes the next frame off `reader` if a whole one has arrived. `closed`
/// says that no more bytes will come: what is left then is either nothing,
/// a clean end, or part of a frame, a broken stream.
pub fn poll(reader: &mut Reader, closed: bool) -> (p: Poll)
    ensures
        starts_with_frame(old(reader).remaining()) ==> {
            &&& p matches Poll::Frame(payload)
            &&& payload@ == first_payload(old(reader).remaining())
            &&& final(reader).remaining() == after_first(old(reader).remaining())
        },
        !starts_with_frame(old(reader).remaining()) ==> {
            &&& final(reader).remaining() == old(reader).remaining()
            &&& !closed ==> p is Wait
            &&& closed && old(reader).remaining().len() == 0 ==> p is End
            &&& closed && old(reader).remaining().len() > 0 ==> p is Broken
        },
{
    let mut payload: Vec<u8> = Vec::new();
    match read(reader, &mut payload) {
        Ok(()) => Poll::Frame(payload),
        Err(_) => {
            if !closed {
                Poll::Wait
            } else if reader.remaining_len() == 0 {
                Poll::End
            } else {
                Poll::Broken
            }
        },
    }
}

} // verus!
