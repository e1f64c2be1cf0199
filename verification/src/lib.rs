//! The session layer of an alarm-clock daemon: the one authoritative copy of
//! the alarm and sound configuration, the rules by which alarms are armed and
//! fired, the fan-out of every change to all connected clients, and the framing
//! of messages on the byte stream between daemon and client.
//!
//! Everything here is a function from plain values to plain values. Sockets,
//! threads, the wall clock, timers and audio are the embedding program's
//! business: it feeds events in and carries out the effects that come back.

pub mod builder;
pub mod bus;
pub mod config;
pub mod daemon;
pub mod frame;
pub mod laws;
pub mod message;
pub mod owner;
pub mod session;
pub mod time;
