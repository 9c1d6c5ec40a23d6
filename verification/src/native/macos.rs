//! Joysticks on macOS, where no device is supported yet: nothing is ever
//! plugged in.

use vstd::prelude::*;

verus! {

/// A joystick that is never plugged in.
pub struct Joystick {}

impl Joystick {
    /// The joystick.
    pub fn create() -> (r: Joystick) {
        Joystick {}
    }

    /// Numbers of axes and buttons, and whether the joystick is unplugged:
    /// always unplugged.
    pub fn map(&self) -> (r: (usize, usize, bool))
        ensures
            r == (0usize, 0usize, true),
    {
        (0, 0, true)
    }

    /// Whether the joystick is plugged in: never.
    pub fn is_plugged_in(&self) -> (r: bool)
        ensures
            !r,
    {
        false
    }

    /// Disconnect the joystick: there is nothing to release.
    pub fn disconnect(&mut self) {
    }

    /// The name of the joystick: unknown.
    pub fn name(&self) -> (r: String)
        ensures
            r@ == "unknown"@,
    {
        "unknown".to_owned()
    }
}

} // verus!
