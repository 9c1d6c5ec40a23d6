//! Which buttons and axes the known joysticks report, by index.
use vstd::prelude::*;
use crate::button::Button;

verus! {

/// An analog axis of a joystick.
#[derive(Clone, Copy, Debug, PartialEq, Eq, Structural)]
pub enum Throttle {
    /// Main stick, horizontal.
    MainX,
    /// Main stick, vertical.
    MainY,
    /// Left throttle.
    L,
    /// Right throttle.
    R,
    /// Point-of-view hat, horizontal.
    PovX,
    /// Point-of-view hat, vertical.
    PovY,
}

/// Model id of the Thrustmaster flight controller.
pub const THRUSTMASTER_ID: i32 = 0x07b5_0316;

/// Model id of the GameCube controller.
pub const GAMECUBE_ID: i32 = 0x0079_1844;

/// Whether the joystick model `id` has a known mapping.
pub open spec fn known_joystick(id: i32) -> bool {
    id == THRUSTMASTER_ID || id == GAMECUBE_ID
}

/// The buttons of a known joystick model, by index.
pub open spec fn model_buttons(id: i32) -> Seq<Button> {
    if id == THRUSTMASTER_ID {
        seq![Button::Action, Button::Accept, Button::Execute, Button::Cancel]
    } else {
        seq![
            Button::Execute,
            Button::Accept,
            Button::Cancel,
            Button::Action,
            Button::L(0),
            Button::R(0),
            Button::Unknown,
            Button::R(1),
            Button::Unknown,
            Button::Menu,
            Button::Unknown,
            Button::Unknown,
            Button::Up,
            Button::Right,
            Button::Down,
            Button::Left,
        ]
    }
}

/// The axes of a known joystick model, by index.
pub open spec fn model_throttles(id: i32) -> Seq<Throttle> {
    if id == THRUSTMASTER_ID {
        seq![Throttle::MainX, Throttle::MainY, Throttle::L, Throttle::PovX, Throttle::PovY, Throttle::R]
    } else {
        seq![Throttle::MainX, Throttle::MainY, Throttle::PovY, Throttle::L, Throttle::R, Throttle::PovX]
    }
}

/// A mapping for a joystick: the button and the axis behind each index.
pub struct JoystickMap {
    pub buttons: Vec<Button>,
    pub throttles: Vec<Throttle>,
}

impl JoystickMap {
    /// Whether joystick model `joystick_id` has a mapping.
    pub fn known(joystick_id: i32) -> (r: bool)
        ensures
            r == known_joystick(joystick_id),
    {
        joystick_id == THRUSTMASTER_ID || joystick_id == GAMECUBE_ID
    }

    /// The mapping of the plugged-in joystick model `joystick_id`.
    pub fn new(joystick_id: i32) -> (r: JoystickMap)
        requires
            known_joystick(joystick_id),
        ensures
            r.buttons@ == model_buttons(joystick_id),
            r.throttles@ == model_throttles(joystick_id),
    {
        if joystick_id == THRUSTMASTER_ID {
            let r = JoystickMap {
                buttons: vec![Button::Action, Button::Accept, Button::Execute, Button::Cancel],
                throttles: vec![
                    Throttle::MainX,
                    Throttle::MainY,
                    Throttle::L,
                    Throttle::PovX,
                    Throttle::PovY,
                    Throttle::R,
                ],
            };
            assert(r.buttons@ =~= model_buttons(joystick_id));
            assert(r.throttles@ =~= model_throttles(joystick_id));
            r
        } else {
            let r = JoystickMap {
                buttons: vec![
                    Button::Execute,
                    Button::Accept,
                    Button::Cancel,
                    Button::Action,
                    Button::L(0),
                    Button::R(0),
                    Button::Unknown,
                    Button::R(1),
                    Button::Unknown,
                    Button::Menu,
                    Button::Unknown,
                    Button::Unknown,
                    Button::Up,
                    Button::Right,
                    Button::Down,
                    Button::Left,
                ],
                throttles: vec![
                    Throttle::MainX,
                    Throttle::MainY,
                    Throttle::PovY,
                    Throttle::L,
                    Throttle::R,
                    Throttle::PovX,
                ],
            };
            assert(r.buttons@ =~= model_buttons(joystick_id));
            assert(r.throttles@ =~= model_throttles(joystick_id));
            r
        }
    }

    /// Whether the joystick has button `button`.
    pub fn has_button(&self, button: Button) -> (r: bool)
        ensures
            r == self.buttons@.contains(button),
    {
        let mut i: usize = 0;
        while i < self.buttons.len()
            invariant
                i <= self.buttons@.len(),
                forall|j: int| 0 <= j < i ==> self.buttons@[j] != button,
            decreases self.buttons@.len() - i,
        {
            if self.buttons[i] == button {
                return true;
            }
            i = i + 1;
        }
        false
    }

    /// Whether the joystick has axis `throttle`.
    pub fn has_throttle(&self, throttle: Throttle) -> (r: bool)
        ensures
            r == self.throttles@.contains(throttle),
    {
        let mut i: usize = 0;
        while i < self.throttles.len()
            invariant
                i <= self.throttles@.len(),
                forall|j: int| 0 <= j < i ==> self.throttles@[j] != throttle,
            decreases self.throttles@.len() - i,
        {
            if self.throttles[i] == throttle {
                return true;
            }
            i = i + 1;
        }
        false
    }

    /// The button behind index `button`.
    pub fn button(&self, button: usize) -> (r: Button)
        requires
            button < self.buttons@.len(),
        ensures
            r == self.buttons@[button as int],
    {
        self.buttons[button]
    }

    /// The axis behind index `throttle`.
    pub fn throttle(&self, throttle: usize) -> (r: Throttle)
        requires
            throttle < self.throttles@.len(),
        ensures
            r == self.throttles@[throttle as int],
    {
        self.throttles[throttle]
    }
}

} // verus!
