//! Input events, as the kernel's input layer reports them.
use vstd::prelude::*;

verus! {

/// Event type of synchronization reports.
pub const EV_SYN: u16 = 0;

/// Event type of key and button changes.
pub const EV_KEY: u16 = 1;

/// Event type of relative axis movement.
pub const EV_REL: u16 = 2;

/// Synchronization code that ends one atomic group of events.
pub const SYN_REPORT: u16 = 0;

/// One input event: its type, its code within the type, and its value.
/// Timestamps are not part of it: a receiver stamps events on arrival.
#[derive(Clone, Copy, Debug, PartialEq, Eq, Structural)]
pub struct InputEvent {
    pub event_type: u16,
    pub code: u16,
    pub value: i32,
}

impl InputEvent {
    /// The event with the given type, code and value.
    pub fn new(event_type: u16, code: u16, value: i32) -> (r: InputEvent)
        ensures
            r == (InputEvent { event_type, code, value }),
    {
        InputEvent { event_type, code, value }
    }

    /// Whether this is a key event.
    pub open spec fn is_key(self) -> bool {
        self.event_type == EV_KEY
    }

    /// Whether this event ends a group of events.
    pub open spec fn is_report(self) -> bool {
        self.event_type == EV_SYN && self.code == SYN_REPORT && self.value == 0
    }
}

} // verus!
