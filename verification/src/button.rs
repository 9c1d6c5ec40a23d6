//! The buttons of the first-generation interface and their names.

use vstd::prelude::*;
use vstd::string::StringExecFns;

verus! {

/// A button of a controller.
#[derive(Clone, Copy, Debug, PartialEq, Eq, Structural)]
pub enum Button {
    /// Accept (A button / left top button: missile / circle).
    Accept,
    /// Cancel (B button / side button / cross).
    Cancel,
    /// Execute (X button / trigger / triangle).
    Execute,
    /// Action (Y button / right top button / square).
    Action,
    /// Left button `n`: 0 is the L trigger, 1 the LZ or L bumper; 0 is the
    /// farthest from the user, and the numbers grow as the buttons get closer.
    L(u8),
    /// Right button `n`: 0 is the R trigger, 1 the Z, RZ or R bumper.
    R(u8),
    /// Pause menu (start button).
    Menu,
    /// Show controls (guide on XBox, select on PlayStation).
    Controls,
    /// Exit this screen (back on XBox).
    Exit,
    /// Hat / d-pad up.
    Up,
    /// Hat / d-pad down.
    Down,
    /// Hat / d-pad left.
    Left,
    /// Hat / d-pad right.
    Right,
    /// Movement stick pushed.
    MoveStick,
    /// Camera stick pushed.
    CamStick,
    /// A button that the library does not know.
    Unknown,
}

/// The character of decimal digit `d`.
pub open spec fn digit_char(d: nat) -> char {
    (d + 48) as char
}

/// The decimal digits of `n`, without leading zeros.
pub open spec fn decimal(n: nat) -> Seq<char>
    decreases n,
{
    if n < 10 {
        seq![digit_char(n)]
    } else {
        decimal(n / 10).push(digit_char(n % 10))
    }
}

/// The name of button `b`: `L-n` and `R-n` for the numbered side buttons.
pub open spec fn button_label(b: Button) -> Seq<char> {
    match b {
        Button::Accept => "Accept"@,
        Button::Cancel => "Cancel"@,
        Button::Execute => "Execute"@,
        Button::Action => "Action"@,
        Button::L(n) => "L-"@ + decimal(n as nat),
        Button::R(n) => "R-"@ + decimal(n as nat),
        Button::Menu => "Menu"@,
        Button::Controls => "Controls"@,
        Button::Exit => "Exit"@,
        Button::Up => "Up"@,
        Button::Down => "Down"@,
        Button::Left => "Left"@,
        Button::Right => "Right"@,
        Button::MoveStick => "Movement Stick Push"@,
        Button::CamStick => "Camera Stick Push"@,
        Button::Unknown => "Unknown"@,
    }
}

fn digit_str(d: u8) -> (r: &'static str)
    requires
        d < 10,
    ensures
        r@ == seq![digit_char(d as nat)],
{
    proof {
        reveal_strlit("0");
        reveal_strlit("1");
        reveal_strlit("2");
        reveal_strlit("3");
        reveal_strlit("4");
        reveal_strlit("5");
        reveal_strlit("6");
        reveal_strlit("7");
        reveal_strlit("8");
        reveal_strlit("9");
    }
    match d {
        0 => "0",
        1 => "1",
        2 => "2",
        3 => "3",
        4 => "4",
        5 => "5",
        6 => "6",
        7 => "7",
        8 => "8",
        _ => "9",
    }
}

/// Append the decimal digits of `n` to `s`.
fn push_decimal(s: &mut String, n: u8)
    ensures
        final(s)@ == old(s)@ + decimal(n as nat),
    decreases n,
{
    if n >= 10 {
        push_decimal(s, n / 10);
    }
    s.append(digit_str(n % 10));
    proof {
        if n >= 10 {
            assert(decimal(n as nat) == decimal((n / 10) as nat).push(digit_char((n % 10) as nat)));
        }
    }
}

impl Button {
    /// The name of the button (see [`button_label`]).
    pub fn to_string(&self) -> (r: String)
        ensures
            r@ == button_label(*self),
    {
        match *self {
            Button::Accept => "Accept".to_owned(),
            Button::Cancel => "Cancel".to_owned(),
            Button::Execute => "Execute".to_owned(),
            Button::Action => "Action".to_owned(),
            Button::L(n) => {
                let mut s = "L-".to_owned();
                push_decimal(&mut s, n);
                s
            },
            Button::R(n) => {
                let mut s = "R-".to_owned();
                push_decimal(&mut s, n);
                s
            },
            Button::Menu => "Menu".to_owned(),
            Button::Controls => "Controls".to_owned(),
            Button::Exit => "Exit".to_owned(),
            Button::Up => "Up".to_owned(),
            Button::Down => "Down".to_owned(),
            Button::Left => "Left".to_owned(),
            Button::Right => "Right".to_owned(),
            Button::MoveStick => "Movement Stick Push".to_owned(),
            Button::CamStick => "Camera Stick Push".to_owned(),
            Button::Unknown => "Unknown".to_owned(),
        }
    }
}

} // verus!
