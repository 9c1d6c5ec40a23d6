//! Whether a window has the focus, and with it the controller events.
//!
//! While the window lacks the focus, the events that the platform reports
//! are dropped (see [`crate::evdev::to_stick_events`]).

use vstd::prelude::*;

verus! {

/// Whether controller events are delivered: they are until the window
/// loses the focus.
pub struct Focus {
    enabled: bool,
}

impl Focus {
    /// Whether events are delivered.
    pub closed spec fn spec_enabled(&self) -> bool {
        self.enabled
    }

    /// The state at start: events are delivered.
    pub fn new() -> (r: Focus)
        ensures
            r.spec_enabled(),
    {
        Focus { enabled: true }
    }

    /// Whether events are delivered.
    pub fn enabled(&self) -> (r: bool)
        ensures
            r == self.spec_enabled(),
    {
        self.enabled
    }
}

/// The window grabbed the focus: deliver events again if they were dropped.
pub fn focus(state: &mut Focus)
    ensures
        final(state).spec_enabled(),
{
    state.enabled = true;
}

/// The window lost the focus: drop events until it gets it back.
pub fn unfocus(state: &mut Focus)
    ensures
        !final(state).spec_enabled(),
{
    state.enabled = false;
}

} // verus!
