//! What a worker does with the events of its configuration stream.
use vstd::prelude::*;

use crate::registration::Registration;
use crate::text::{self, is_blank};

verus! {

/// What the configuration stream gave.
pub enum SseEvent {
    /// An event with this data.
    Message(String),
    /// What was read out of the data of the last event: a registration, or
    /// nothing where the data were none.
    Decoded(Option<Registration>),
    /// An error.
    Failed,
    /// Its end.
    Closed,
}

/// What to do about it.
pub enum SseAction {
    /// Wait for the next event.
    Ignore,
    /// Read a registration out of this text, and say what was read.
    Decode(String),
    /// Hand this registration to the worker, and wait for the next event.
    HandOn(Registration),
    /// Give the connection up with the error.
    Fail,
    /// The connection is over.
    Finish,
}

/// What to do about an event: an event without data but white space, such as
/// one that keeps the connection alive, carries no registration, and data that
/// are no registration are passed over.
pub fn sse_turn(event: SseEvent) -> (r: SseAction)
    ensures
        match event {
            SseEvent::Message(data) => if text::blank(data@) {
                r is Ignore
            } else {
                r matches SseAction::Decode(text) && text@ == data@
            },
            SseEvent::Decoded(Some(registration)) => {
                r matches SseAction::HandOn(handed) && handed@ == registration@
            },
            SseEvent::Decoded(None) => r is Ignore,
            SseEvent::Failed => r is Fail,
            SseEvent::Closed => r is Finish,
        },
{
    match event {
        SseEvent::Message(data) => if is_blank(data.as_str()) {
            SseAction::Ignore
        } else {
            SseAction::Decode(data)
        },
        SseEvent::Decoded(outcome) => match outcome {
            Some(registration) => SseAction::HandOn(registration),
            None => SseAction::Ignore,
        },
        SseEvent::Failed => SseAction::Fail,
        SseEvent::Closed => SseAction::Finish,
    }
}

} // verus!
