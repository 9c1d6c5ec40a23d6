//! The set of connected gamepads.

use vstd::prelude::*;

verus! {

/// All connected joysticks, gamepads and controllers, remapped mostly
/// according to the w3c gamepad specification; the platform layer drives
/// the connection and reports each gamepad.
pub struct Gamepads {}

impl Gamepads {
    /// Start a connection with the plugged-in gamepads.
    pub fn new() -> (r: Gamepads) {
        Gamepads {}
    }
}

} // verus!
