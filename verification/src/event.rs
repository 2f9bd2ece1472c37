//! Events as subscribers receive them.

use vstd::prelude::*;
use crate::clock::{is_numeral, millis_string, now_string};
use crate::log::EventBody;
use crate::text::decimal;

verus! {

/// One status event of a workflow: the time of its delivery, as milliseconds
/// since the epoch in decimal, the phase label and the note.
#[derive(Clone, Debug, PartialEq, Eq)]
pub struct Event {
    pub at: String,
    pub phase: String,
    pub note: String,
}

impl Event {
    /// The event with this body, delivered at `at_ms` milliseconds since the epoch.
    pub fn stamped(body: EventBody, at_ms: u128) -> (e: Event)
        ensures
            e.at@ == decimal(at_ms as nat),
            e.phase@ == body.phase@,
            e.note@ == body.note@,
    {
        Event { at: millis_string(at_ms), phase: body.phase, note: body.note }
    }

    /// The event with this body, delivered now. The clock is read at this call.
    pub fn now(body: EventBody) -> (e: Event)
        ensures
            is_numeral(e.at@),
            e.phase@ == body.phase@,
            e.note@ == body.note@,
    {
        Event { at: now_string(), phase: body.phase, note: body.note }
    }
}

} // verus!
