//! Joysticks on Windows: the capabilities that the multimedia joystick
//! interface reports of the first joystick.

use vstd::prelude::*;

verus! {

/// What the joystick capability query reports that the library reads.
#[derive(Clone, Copy, Debug, PartialEq, Eq, Structural)]
pub struct JoyCaps {
    /// Number of axes in use.
    pub num_axes: u32,
    /// Number of buttons.
    pub num_buttons: u32,
}

/// The first joystick and its capabilities, once they were read.
pub struct Joystick {
    joy_caps: Option<JoyCaps>,
}

impl Joystick {
    /// The capabilities read last, if any.
    pub closed spec fn caps(&self) -> Option<JoyCaps> {
        self.joy_caps
    }

    /// A joystick whose capabilities are not read yet.
    pub fn new() -> (r: Joystick)
        ensures
            r.caps() is None,
    {
        Joystick { joy_caps: None }
    }

    /// Record the capabilities that the query reported (`None` when the
    /// joystick is unplugged) and return the numbers of axes and buttons and
    /// whether the joystick is unplugged: `(0, 0, true)`, with the record
    /// kept, when it is.
    pub fn map(&mut self, caps: Option<JoyCaps>) -> (r: (u32, u32, bool))
        ensures
            match caps {
                Some(c) => r == (c.num_axes, c.num_buttons, false) && final(self).caps() == Some(c),
                None => r == (0u32, 0u32, true) && final(self).caps() == old(self).caps(),
            },
    {
        match caps {
            Some(c) => {
                self.joy_caps = Some(c);
                (c.num_axes, c.num_buttons, false)
            },
            None => (0, 0, true),
        }
    }

    /// Forget the capabilities.
    pub fn disconnect(&mut self)
        ensures
            final(self).caps() is None,
    {
        self.joy_caps = None;
    }

    /// The name of the joystick: unknown.
    pub fn name(&self) -> (r: String)
        ensures
            r@ == "unknown"@,
    {
        "unknown".to_owned()
    }
}

} // verus!
