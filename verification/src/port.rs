//! The search for newly connected gamepads.

use vstd::prelude::*;

verus! {

/// A search for new connections to gamepads; the platform layer drives it
/// and reports each device that it finds.
pub struct Port {}

impl Port {
    /// Start looking for new connections to gamepads.
    pub fn new() -> (r: Port) {
        Port {}
    }
}

} // verus!
