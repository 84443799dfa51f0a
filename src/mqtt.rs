//! The decisions of the bus session: the client identifier, and how the
//! session reacts to each event the connection delivers. The connection
//! itself is driven by the caller.

use crate::text::{push_radix, push_str, radix};
use vstd::prelude::*;

verus! {

/// The client identifier for a nonce: a fixed prefix and the nonce in
/// lower-case hexadecimal.
pub open spec fn client_id_text(nonce: u32) -> Seq<char> {
    "mqtt2influxdb-"@ + radix(nonce as nat, 16)
}

pub fn client_id(nonce: u32) -> (r: String)
    ensures
        r@ == client_id_text(nonce),
{
    let mut r = String::new();
    push_str(&mut r, "mqtt2influxdb-");
    push_radix(&mut r, nonce as u128, 16);
    r
}

/// An event of the bus connection, reduced to what the session decides on.
pub enum BusEvent {
    /// The broker accepted the connection.
    ConnAck { session_present: bool },
    /// A message was published on a subscribed topic.
    Publish { dup: bool, retain: bool, payload_len: usize },
    /// The client is disconnecting.
    Disconnect,
    /// Any other packet.
    Other,
    /// The connection failed.
    Error,
}

/// What the session does about an event.
#[derive(Debug, PartialEq, Eq, Structural)]
pub enum Reaction {
    /// Subscribe to the topics again: the broker kept no session.
    Subscribe,
    /// Hand the message on for processing.
    Forward,
    /// Leave the event loop.
    Stop,
    /// Wait before polling again.
    Pause,
    /// Nothing to do.
    Ignore,
}

pub open spec fn reaction_to(e: BusEvent) -> Reaction {
    match e {
        BusEvent::ConnAck { session_present } => if session_present {
            Reaction::Ignore
        } else {
            Reaction::Subscribe
        },
        BusEvent::Publish { dup, retain, payload_len } => if !dup && !retain && payload_len > 0 {
            Reaction::Forward
        } else {
            Reaction::Ignore
        },
        BusEvent::Disconnect => Reaction::Stop,
        BusEvent::Other => Reaction::Ignore,
        BusEvent::Error => Reaction::Pause,
    }
}

/// Duplicates, retained messages and empty payloads are not forwarded.
pub fn react(event: &BusEvent) -> (r: Reaction)
    ensures
        r == reaction_to(*event),
{
    match event {
        BusEvent::ConnAck { session_present } => if *session_present {
            Reaction::Ignore
        } else {
            Reaction::Subscribe
        },
        BusEvent::Publish { dup, retain, payload_len } => if !*dup && !*retain && *payload_len > 0 {
            Reaction::Forward
        } else {
            Reaction::Ignore
        },
        BusEvent::Disconnect => Reaction::Stop,
        BusEvent::Other => Reaction::Ignore,
        BusEvent::Error => Reaction::Pause,
    }
}

} // verus!
