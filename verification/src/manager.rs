//! The first-generation controller manager: it turns the state of each
//! plugged-in controller into a queue of inputs.
//!
//! Polling runs in steps: [`ControllerManager::next`] says whether an input
//! is queued, whether a round ended, or whether the devices are to be
//! scanned; the caller talks to the platform and hands back what it
//! reported (a device plugged in or out, the state after reading its events).
//!
//! Buttons report `Some(true)` when just pressed, `Some(false)` while held
//! and `None` when just released.  Analog values are `f32` bit patterns.

use vstd::prelude::*;
use crate::float_bits::{eq_f32, is_zero_f32, f32_eq, f32_is_zero};

verus! {

/// Controller input.
#[derive(Clone, Copy, Debug, PartialEq, Eq, Structural)]
pub enum Input {
    /// Main joystick movement.
    Move(u32, u32),
    /// Camera / C joystick movement.
    Camera(u32, u32),
    /// Left throttle movement.
    ThrottleL(u32),
    /// Right throttle movement.
    ThrottleR(u32),
    /// Accept (A button / left top button: missile / circle).
    Accept(Option<bool>),
    /// Cancel (B button / side button / cross).
    Cancel(Option<bool>),
    /// Execute (X button / trigger / triangle).
    Execute(Option<bool>),
    /// Action (Y button / right top button / square).
    Action(Option<bool>),
    /// Left button `n` (0: L trigger, 1: LZ / L bumper).
    L(u8, Option<bool>),
    /// Right button `n` (0: R trigger, 1: Z / RZ / R bumper).
    R(u8, Option<bool>),
    /// Pause menu (start button).
    Menu(Option<bool>),
    /// Show controls (guide on XBox, select on PlayStation).
    Controls,
    /// Exit this screen (back on XBox).
    Exit,
    /// Hat / d-pad up.
    Up(Option<bool>),
    /// Hat / d-pad down.
    Down(Option<bool>),
    /// Hat / d-pad left.
    Left(Option<bool>),
    /// Hat / d-pad right.
    Right(Option<bool>),
    /// Movement stick pushed.
    MoveStick(Option<bool>),
    /// Camera stick pushed.
    CamStick(Option<bool>),
    /// A device of this model was plugged in.
    PluggedIn(u32),
    /// A device of this model was unplugged.
    UnPlugged(u32),
}

/// The state of one controller as its events leave it.
#[derive(Clone, Copy, Debug)]
pub struct PadState {
    /// Least raw value of an axis.
    pub min: i32,
    /// Greatest raw value of an axis.
    pub max: i32,
    pub accept: bool,
    pub cancel: bool,
    pub execute: bool,
    pub trigger: bool,
    /// Left buttons, button `n` at bit `n`; 0 is the farthest from the
    /// user.
    pub l: u32,
    /// Right buttons, button `n` at bit `n`; 0 is the farthest from the
    /// user.
    pub r: u32,
    pub menu: bool,
    pub controls: bool,
    pub up: bool,
    pub down: bool,
    pub left: bool,
    pub right: bool,
    pub exit: bool,
    pub move_stick: bool,
    pub cam_stick: bool,
    /// Main joystick X and Y.
    pub move_xy: (u32, u32),
    /// Camera stick X and Y.
    pub cam_xy: (u32, u32),
    pub left_throttle: u32,
    pub right_throttle: u32,
}


/// Bit `b` of `x`.
pub open spec fn bit32(x: u32, b: int) -> bool {
    (x >> (b as u32)) & 1 == 1
}

/// `x` with bit `b` set to `on`.
pub open spec fn with_bit32(x: u32, b: u32, on: bool) -> u32 {
    if on {
        x | (1u32 << b)
    } else {
        x & !(1u32 << b)
    }
}

fn get_bit32(x: u32, b: u32) -> (r: bool)
    requires
        b < 32,
    ensures
        r == bit32(x, b as int),
{
    (x >> b) & 1 == 1
}

fn set_bit32(x: u32, b: u32, on: bool) -> (r: u32)
    requires
        b < 32,
    ensures
        r == with_bit32(x, b, on),
{
    if on {
        x | (1u32 << b)
    } else {
        x & !(1u32 << b)
    }
}

/// A state with every button up, every axis at zero and an empty range.
pub open spec fn empty_state() -> PadState {
    PadState {
        min: 0,
        max: 0,
        accept: false,
        cancel: false,
        execute: false,
        trigger: false,
        l: 0,
        r: 0,
        menu: false,
        controls: false,
        up: false,
        down: false,
        left: false,
        right: false,
        exit: false,
        move_stick: false,
        cam_stick: false,
        move_xy: (0, 0),
        cam_xy: (0, 0),
        left_throttle: 0,
        right_throttle: 0,
    }
}

/// The analog values of a [`PadState`].
#[derive(Clone, Copy, Debug, PartialEq, Eq, Structural)]
pub enum PadAxis {
    MoveX,
    MoveY,
    CamX,
    CamY,
    LeftThrottle,
    RightThrottle,
}

/// A new analog value: the `f32` value `numerator / 50`.
#[derive(Clone, Copy, Debug, PartialEq, Eq, Structural)]
pub struct PadAxisWrite {
    pub axis: PadAxis,
    pub numerator: i32,
}

/// `s` with analog value `a` set to bit pattern `bits`.
pub open spec fn with_pad_axis(s: PadState, a: PadAxis, bits: u32) -> PadState {
    match a {
        PadAxis::MoveX => PadState { move_xy: (bits, s.move_xy.1), ..s },
        PadAxis::MoveY => PadState { move_xy: (s.move_xy.0, bits), ..s },
        PadAxis::CamX => PadState { cam_xy: (bits, s.cam_xy.1), ..s },
        PadAxis::CamY => PadState { cam_xy: (s.cam_xy.0, bits), ..s },
        PadAxis::LeftThrottle => PadState { left_throttle: bits, ..s },
        PadAxis::RightThrottle => PadState { right_throttle: bits, ..s },
    }
}

/// The scaled raw value of an axis event: `(v - min - 128) * 100 + 50`
/// divided (rounding toward zero) by the range; the axis takes a fiftieth
/// of it.
pub open spec fn pad_level(s: PadState, v: i32) -> int {
    let scaled = (v - s.min - 128) * 100 + 50;
    let range = s.max - s.min;
    if scaled >= 0 {
        scaled / range
    } else {
        -((-scaled) / range)
    }
}

/// Whether [`PadState::apply_event`] computes without overflow or division
/// by zero: key codes are shifted down by `0x120`, and every axis event is
/// scaled by the range.
pub open spec fn pad_event_defined(s: PadState, ev_type: i16, ev_code: i16, ev_value: i32) -> bool {
    &&& ev_type == 1 ==> ev_code - 0x120 >= i16::MIN
    &&& ev_type == 3 ==> {
        &&& i32::MIN <= s.max - s.min <= i32::MAX
        &&& s.max != s.min
        &&& i32::MIN <= ev_value - s.min - 128 <= i32::MAX
        &&& i32::MIN <= (ev_value - s.min - 128) * 100 <= i32::MAX
        &&& i32::MIN <= (ev_value - s.min - 128) * 100 + 50 <= i32::MAX
        &&& i32::MIN <= pad_level(s, ev_value) <= i32::MAX
    }
}

/// The effect of a platform event on state `s`: the new state and, for an
/// analog value, the value and the numerator of its new value.
///
/// Key events (type 1) set the button of their key to whether the value is
/// 1.  Absolute axis events (type 3) move an analog value, or, for the hat
/// (codes 16 and 17), set the d-pad buttons on the side of the value's sign.
pub open spec fn spec_pad_apply(s: PadState, ev_type: i16, ev_code: i16, ev_value: i32) -> (
    PadState,
    Option<PadAxisWrite>,
) {
    if ev_type == 1 {
        (pad_key(s, ev_code - 0x120, ev_value == 1), None)
    } else if ev_type == 3 {
        pad_abs(s, ev_code, ev_value)
    } else {
        (s, None)
    }
}

/// Key `key` (the key code less `0x120`) set to `on`: 0 execute, 1 accept,
/// 2 cancel, 3 trigger, 4 the first left button, 5 and 7 the first two
/// right buttons, 9 menu; other keys change nothing.
pub open spec fn pad_key(s: PadState, key: int, on: bool) -> PadState {
    if key == 0 {
        PadState { execute: on, ..s }
    } else if key == 1 {
        PadState { accept: on, ..s }
    } else if key == 2 {
        PadState { cancel: on, ..s }
    } else if key == 3 {
        PadState { trigger: on, ..s }
    } else if key == 4 {
        PadState { l: with_bit32(s.l, 0, on), ..s }
    } else if key == 5 {
        PadState { r: with_bit32(s.r, 0, on), ..s }
    } else if key == 7 {
        PadState { r: with_bit32(s.r, 1, on), ..s }
    } else if key == 9 {
        PadState { menu: on, ..s }
    } else {
        s
    }
}

/// Absolute axis `code` moved to raw value `v`.
pub open spec fn pad_abs(s: PadState, code: i16, v: i32) -> (PadState, Option<PadAxisWrite>) {
    let n = pad_level(s, v) as i32;
    if code == 0 {
        (s, Some(PadAxisWrite { axis: PadAxis::MoveX, numerator: n }))
    } else if code == 1 {
        (s, Some(PadAxisWrite { axis: PadAxis::MoveY, numerator: n }))
    } else if code == 2 {
        (s, Some(PadAxisWrite { axis: PadAxis::CamY, numerator: n }))
    } else if code == 3 {
        (s, Some(PadAxisWrite { axis: PadAxis::LeftThrottle, numerator: n }))
    } else if code == 4 {
        (s, Some(PadAxisWrite { axis: PadAxis::RightThrottle, numerator: n }))
    } else if code == 5 {
        (s, Some(PadAxisWrite { axis: PadAxis::CamX, numerator: n }))
    } else if code == 16 {
        (PadState { right: v > 0, left: v < 0, ..s }, None)
    } else if code == 17 {
        (PadState { up: v < 0, down: v > 0, ..s }, None)
    } else {
        (s, None)
    }
}

impl PadState {
    /// The state at start (see [`empty_state`]).
    pub fn new() -> (r: PadState)
        ensures
            r == empty_state(),
    {
        let r = PadState {
            min: 0,
            max: 0,
            accept: false,
            cancel: false,
            execute: false,
            trigger: false,
            l: 0,
            r: 0,
            menu: false,
            controls: false,
            up: false,
            down: false,
            left: false,
            right: false,
            exit: false,
            move_stick: false,
            cam_stick: false,
            move_xy: (0, 0),
            cam_xy: (0, 0),
            left_throttle: 0,
            right_throttle: 0,
        };
        r
    }

    /// Apply a platform event (see [`spec_pad_apply`]); the caller then sets
    /// the analog value named, if any, to `numerator / 50` as an `f32` with
    /// [`PadState::set_axis`].
    pub fn apply_event(&mut self, ev_type: i16, ev_code: i16, ev_value: i32) -> (r: Option<
        PadAxisWrite,
    >)
        requires
            pad_event_defined(*old(self), ev_type, ev_code, ev_value),
        ensures
            (*final(self), r) == spec_pad_apply(*old(self), ev_type, ev_code, ev_value),
    {
        if ev_type == 1 {
            self.apply_key(ev_code - 0x120, ev_value == 1);
            None
        } else if ev_type == 3 {
            self.apply_abs(ev_code, ev_value)
        } else {
            None
        }
    }

    fn apply_key(&mut self, key: i16, on: bool)
        ensures
            *final(self) == pad_key(*old(self), key as int, on),
    {
        let s = *self;
        *self = if key == 0 {
            PadState { execute: on, ..s }
        } else if key == 1 {
            PadState { accept: on, ..s }
        } else if key == 2 {
            PadState { cancel: on, ..s }
        } else if key == 3 {
            PadState { trigger: on, ..s }
        } else if key == 4 {
            PadState { l: set_bit32(s.l, 0, on), ..s }
        } else if key == 5 {
            PadState { r: set_bit32(s.r, 0, on), ..s }
        } else if key == 7 {
            PadState { r: set_bit32(s.r, 1, on), ..s }
        } else if key == 9 {
            PadState { menu: on, ..s }
        } else {
            s
        };
    }

    fn apply_abs(&mut self, code: i16, v: i32) -> (r: Option<PadAxisWrite>)
        requires
            pad_event_defined(*old(self), 3, code, v),
        ensures
            (*final(self), r) == pad_abs(*old(self), code, v),
    {
        let range = self.max - self.min;
        let scaled = (v - self.min - 128) * 100 + 50;
        let n = scaled / range;
        let s = *self;
        if code == 0 {
            Some(PadAxisWrite { axis: PadAxis::MoveX, numerator: n })
        } else if code == 1 {
            Some(PadAxisWrite { axis: PadAxis::MoveY, numerator: n })
        } else if code == 2 {
            Some(PadAxisWrite { axis: PadAxis::CamY, numerator: n })
        } else if code == 3 {
            Some(PadAxisWrite { axis: PadAxis::LeftThrottle, numerator: n })
        } else if code == 4 {
            Some(PadAxisWrite { axis: PadAxis::RightThrottle, numerator: n })
        } else if code == 5 {
            Some(PadAxisWrite { axis: PadAxis::CamX, numerator: n })
        } else if code == 16 {
            *self = PadState { right: v > 0, left: v < 0, ..s };
            None
        } else if code == 17 {
            *self = PadState { up: v < 0, down: v > 0, ..s };
            None
        } else {
            None
        }
    }

    /// Set analog value `axis` to the `f32` bit pattern `bits`.
    pub fn set_axis(&mut self, axis: PadAxis, bits: u32)
        ensures
            *final(self) == with_pad_axis(*old(self), axis, bits),
    {
        let s = *self;
        *self = match axis {
            PadAxis::MoveX => PadState { move_xy: (bits, s.move_xy.1), ..s },
            PadAxis::MoveY => PadState { move_xy: (s.move_xy.0, bits), ..s },
            PadAxis::CamX => PadState { cam_xy: (bits, s.cam_xy.1), ..s },
            PadAxis::CamY => PadState { cam_xy: (s.cam_xy.0, bits), ..s },
            PadAxis::LeftThrottle => PadState { left_throttle: bits, ..s },
            PadAxis::RightThrottle => PadState { right_throttle: bits, ..s },
        };
    }
}

/// The buttons that report presses, holds and releases.
#[derive(Clone, Copy, Debug, PartialEq, Eq, Structural)]
pub enum ButtonName {
    Accept,
    Cancel,
    Execute,
    Action,
    Menu,
    Left,
    Right,
    Up,
    Down,
    MoveStick,
    CamStick,
    Controls,
    Exit,
    L(u8),
    R(u8),
}

/// The input that button `b` reports with state `x` (controls and exit
/// carry no state).
pub open spec fn button_input(b: ButtonName, x: Option<bool>) -> Input {
    match b {
        ButtonName::Accept => Input::Accept(x),
        ButtonName::Cancel => Input::Cancel(x),
        ButtonName::Execute => Input::Execute(x),
        ButtonName::Action => Input::Action(x),
        ButtonName::Menu => Input::Menu(x),
        ButtonName::Left => Input::Left(x),
        ButtonName::Right => Input::Right(x),
        ButtonName::Up => Input::Up(x),
        ButtonName::Down => Input::Down(x),
        ButtonName::MoveStick => Input::MoveStick(x),
        ButtonName::CamStick => Input::CamStick(x),
        ButtonName::Controls => Input::Controls,
        ButtonName::Exit => Input::Exit,
        ButtonName::L(n) => Input::L(n, x),
        ButtonName::R(n) => Input::R(n, x),
    }
}

fn make_button_input(b: ButtonName, x: Option<bool>) -> (r: Input)
    ensures
        r == button_input(b, x),
{
    match b {
        ButtonName::Accept => Input::Accept(x),
        ButtonName::Cancel => Input::Cancel(x),
        ButtonName::Execute => Input::Execute(x),
        ButtonName::Action => Input::Action(x),
        ButtonName::Menu => Input::Menu(x),
        ButtonName::Left => Input::Left(x),
        ButtonName::Right => Input::Right(x),
        ButtonName::Up => Input::Up(x),
        ButtonName::Down => Input::Down(x),
        ButtonName::MoveStick => Input::MoveStick(x),
        ButtonName::CamStick => Input::CamStick(x),
        ButtonName::Controls => Input::Controls,
        ButtonName::Exit => Input::Exit,
        ButtonName::L(n) => Input::L(n, x),
        ButtonName::R(n) => Input::R(n, x),
    }
}

/// What a button reports between two polls: pressed (`Some(true)`) when it
/// went down, released (`None`) when it went up, held (`Some(false)`) while
/// it stays down; nothing while it stays up.
pub open spec fn button_report(now: bool, before: bool) -> Option<Option<bool>> {
    if now != before {
        Some(if now { Some(true) } else { None })
    } else if now {
        Some(Some(false))
    } else {
        None
    }
}

/// The input of button `b` of controller `i`, if it reports one; controls
/// and exit report only going down.
#[verifier::opaque]
pub open spec fn report(i: usize, b: ButtonName, now: bool, before: bool) -> Seq<(usize, Input)> {
    if b is Controls || b is Exit {
        if now && !before {
            seq![(i, button_input(b, None))]
        } else {
            Seq::empty()
        }
    } else {
        match button_report(now, before) {
            Some(x) => seq![(i, button_input(b, x))],
            None => Seq::empty(),
        }
    }
}

/// The inputs of buttons `items` (name, state now, state before) of
/// controller `i`, in order.
pub open spec fn reports(i: usize, items: Seq<(ButtonName, bool, bool)>) -> Seq<(usize, Input)>
    decreases items.len(),
{
    if items.len() == 0 {
        Seq::empty()
    } else {
        reports(i, items.drop_last()) + report(i, items.last().0, items.last().1, items.last().2)
    }
}

/// The named buttons of a controller, in the order in which they report,
/// with their states in `now` and `before`.
pub open spec fn button_states(before: PadState, now: PadState) -> Seq<(ButtonName, bool, bool)> {
    seq![
        (ButtonName::Accept, now.accept, before.accept),
        (ButtonName::Cancel, now.cancel, before.cancel),
        (ButtonName::Execute, now.execute, before.execute),
        (ButtonName::Action, now.trigger, before.trigger),
        (ButtonName::Menu, now.menu, before.menu),
        (ButtonName::Left, now.left, before.left),
        (ButtonName::Right, now.right, before.right),
        (ButtonName::Up, now.up, before.up),
        (ButtonName::Down, now.down, before.down),
        (ButtonName::Controls, now.controls, before.controls),
        (ButtonName::MoveStick, now.move_stick, before.move_stick),
        (ButtonName::CamStick, now.cam_stick, before.cam_stick),
        (ButtonName::Exit, now.exit, before.exit),
    ]
}

/// An analog stick away from its centre: one of its values is not zero.
pub open spec fn moved(xy: (u32, u32)) -> bool {
    !(is_zero_f32(xy.0) && is_zero_f32(xy.1))
}

/// The inputs of the first `k` left and right buttons, each left button
/// before the right button of the same number.
pub open spec fn lr_inputs(i: usize, before: PadState, now: PadState, k: nat) -> Seq<(usize, Input)>
    decreases k,
{
    if k == 0 {
        Seq::empty()
    } else {
        let b = (k - 1) as int;
        lr_inputs(i, before, now, (k - 1) as nat) + report(
            i,
            ButtonName::L(b as u8),
            bit32(now.l, b),
            bit32(before.l, b),
        ) + report(i, ButtonName::R(b as u8), bit32(now.r, b), bit32(before.r, b))
    }
}

/// The analog inputs of controller `i` in state `now`: both throttles, then
/// the sticks that are away from their centre.
pub open spec fn analog_inputs(i: usize, now: PadState) -> Seq<(usize, Input)> {
    seq![(i, Input::ThrottleL(now.left_throttle)), (i, Input::ThrottleR(now.right_throttle))]
        + (if moved(now.move_xy) {
        seq![(i, Input::Move(now.move_xy.0, now.move_xy.1))]
    } else {
        Seq::empty()
    }) + (if moved(now.cam_xy) {
        seq![(i, Input::Camera(now.cam_xy.0, now.cam_xy.1))]
    } else {
        Seq::empty()
    })
}

/// The inputs of the named buttons of controller `i` going from `before` to
/// `now`.
pub open spec fn button_inputs(i: usize, before: PadState, now: PadState) -> Seq<(usize, Input)> {
    reports(i, button_states(before, now))
}

/// The inputs that controller `i` reports when its state goes from `before`
/// (the buttons as last reported) to `now`: the analog values, the named
/// buttons, then the numbered left and right buttons.
pub open spec fn edge_inputs(i: usize, before: PadState, now: PadState) -> Seq<(usize, Input)> {
    analog_inputs(i, now) + button_inputs(i, before, now) + lr_inputs(i, before, now, 32)
}

/// The buttons as last reported, once `now` is reported: those of `now`,
/// the rest of `before` kept.
pub open spec fn remembered(before: PadState, now: PadState) -> PadState {
    PadState {
        accept: now.accept,
        cancel: now.cancel,
        execute: now.execute,
        trigger: now.trigger,
        l: now.l,
        r: now.r,
        menu: now.menu,
        controls: now.controls,
        up: now.up,
        down: now.down,
        left: now.left,
        right: now.right,
        exit: now.exit,
        move_stick: now.move_stick,
        cam_stick: now.cam_stick,
        ..before
    }
}

fn push_report(queue: &mut Vec<(usize, Input)>, i: usize, b: ButtonName, now: bool, before: bool)
    ensures
        final(queue)@ == old(queue)@ + report(i, b, now, before),
{
    match b {
        ButtonName::Controls | ButtonName::Exit => {
            if now && !before {
                queue.push((i, make_button_input(b, None)));
            }
        },
        _ => {
            if now != before {
                let x = if now { Some(true) } else { None };
                queue.push((i, make_button_input(b, x)));
            } else if now {
                queue.push((i, make_button_input(b, Some(false))));
            }
        },
    }
    proof {
        reveal(report);
        assert(final(queue)@ =~= old(queue)@ + report(i, b, now, before));
    }
}

fn push_analog(queue: &mut Vec<(usize, Input)>, i: usize, now: &PadState)
    ensures
        final(queue)@ == old(queue)@ + analog_inputs(i, *now),
{
    queue.push((i, Input::ThrottleL(now.left_throttle)));
    queue.push((i, Input::ThrottleR(now.right_throttle)));
    if !(f32_is_zero(now.move_xy.0) && f32_is_zero(now.move_xy.1)) {
        queue.push((i, Input::Move(now.move_xy.0, now.move_xy.1)));
    }
    if !(f32_is_zero(now.cam_xy.0) && f32_is_zero(now.cam_xy.1)) {
        queue.push((i, Input::Camera(now.cam_xy.0, now.cam_xy.1)));
    }
    proof {
        assert(queue@ =~= old(queue)@ + analog_inputs(i, *now));
    }
}

fn push_buttons(queue: &mut Vec<(usize, Input)>, i: usize, before: &PadState, now: &PadState)
    ensures
        final(queue)@ == old(queue)@ + button_inputs(i, *before, *now),
{
    let items = vec![
        (ButtonName::Accept, now.accept, before.accept),
        (ButtonName::Cancel, now.cancel, before.cancel),
        (ButtonName::Execute, now.execute, before.execute),
        (ButtonName::Action, now.trigger, before.trigger),
        (ButtonName::Menu, now.menu, before.menu),
        (ButtonName::Left, now.left, before.left),
        (ButtonName::Right, now.right, before.right),
        (ButtonName::Up, now.up, before.up),
        (ButtonName::Down, now.down, before.down),
        (ButtonName::Controls, now.controls, before.controls),
        (ButtonName::MoveStick, now.move_stick, before.move_stick),
        (ButtonName::CamStick, now.cam_stick, before.cam_stick),
        (ButtonName::Exit, now.exit, before.exit),
    ];
    assert(items@ =~= button_states(*before, *now));
    let mut k: usize = 0;
    while k < items.len()
        invariant
            k <= items@.len(),
            items@ == button_states(*before, *now),
            queue@ == old(queue)@ + reports(i, items@.take(k as int)),
        decreases items@.len() - k,
    {
        let (b, n, p) = items[k];
        push_report(queue, i, b, n, p);
        proof {
            assert(items@.take(k + 1).drop_last() =~= items@.take(k as int));
            assert(queue@ =~= old(queue)@ + reports(i, items@.take(k + 1)));
        }
        k = k + 1;
    }
    proof {
        assert(items@.take(k as int) =~= items@);
    }
}

fn push_lr(queue: &mut Vec<(usize, Input)>, i: usize, before: &PadState, now: &PadState)
    ensures
        final(queue)@ == old(queue)@ + lr_inputs(i, *before, *now, 32),
{
    let mut b: u32 = 0;
    while b < 32
        invariant
            b <= 32,
            queue@ == old(queue)@ + lr_inputs(i, *before, *now, b as nat),
        decreases 32 - b,
    {
        push_report(queue, i, ButtonName::L(b as u8), get_bit32(now.l, b), get_bit32(before.l, b));
        push_report(queue, i, ButtonName::R(b as u8), get_bit32(now.r, b), get_bit32(before.r, b));
        proof {
            assert(queue@ =~= old(queue)@ + lr_inputs(i, *before, *now, (b + 1) as nat));
        }
        b = b + 1;
    }
}

/// Queue the inputs of controller `i` going from `before` to `now` (see
/// [`edge_inputs`]).
fn push_edges(queue: &mut Vec<(usize, Input)>, i: usize, before: &PadState, now: &PadState)
    ensures
        final(queue)@ == old(queue)@ + edge_inputs(i, *before, *now),
{
    push_analog(queue, i, now);
    push_buttons(queue, i, before, now);
    push_lr(queue, i, before, now);
    proof {
        assert(queue@ =~= old(queue)@ + edge_inputs(i, *before, *now));
    }
}

/// What the manager keeps of one controller.
#[derive(Clone, Copy, Debug)]
pub struct ControllerSlot {
    /// The buttons as last reported (see [`remembered`]).
    pub oldstate: PadState,
    /// The state after the last events read.
    pub state: PadState,
    /// Model id.
    pub id: u32,
    /// Main joystick as last reported.
    pub move_xy: (u32, u32),
    /// Camera stick as last reported.
    pub cam_xy: (u32, u32),
    /// Left throttle as last reported.
    pub l_throttle: u32,
    /// Right throttle as last reported.
    pub r_throttle: u32,
}

/// A controller that nothing has been read of.
pub open spec fn new_slot() -> ControllerSlot {
    ControllerSlot {
        oldstate: empty_state(),
        state: empty_state(),
        id: 0,
        move_xy: (0, 0),
        cam_xy: (0, 0),
        l_throttle: 0,
        r_throttle: 0,
    }
}

fn make_slot() -> (r: ControllerSlot)
    ensures
        r == new_slot(),
{
    ControllerSlot {
        oldstate: PadState::new(),
        state: PadState::new(),
        id: 0,
        move_xy: (0, 0),
        cam_xy: (0, 0),
        l_throttle: 0,
        r_throttle: 0,
    }
}

/// What to do next to poll the controllers.
#[derive(Clone, Copy, Debug, PartialEq, Eq, Structural)]
pub enum Step {
    /// An input of controller `.0` is next: remap it, then hand it to
    /// [`ControllerManager::change`].
    Input(usize, Input),
    /// The queue is empty after a scan: the poll ends, with no input.
    Done,
    /// The queue is empty: scan the devices, then call
    /// [`ControllerManager::next`] again.
    Scan,
}

/// The contents of a [`ControllerManager`].
pub struct ManagerView {
    pub controllers: Seq<ControllerSlot>,
    /// Inputs not yet reported; the last is reported first.
    pub input: Seq<(usize, Input)>,
    /// Whether the last step was a scan.
    pub reset: bool,
}

/// A manager for controllers.
pub struct ControllerManager {
    controllers: Vec<ControllerSlot>,
    input: Vec<(usize, Input)>,
    reset: bool,
}

impl View for ControllerManager {
    type V = ManagerView;

    closed spec fn view(&self) -> ManagerView {
        ManagerView { controllers: self.controllers@, input: self.input@, reset: self.reset }
    }
}

/// The next step from `m`: the last queued input, taken off the queue; or,
/// with an empty queue, the end of the poll after a scan, else a scan.
pub open spec fn spec_next(m: ManagerView) -> (ManagerView, Step) {
    if m.input.len() > 0 {
        (ManagerView { input: m.input.drop_last(), ..m }, Step::Input(m.input.last().0, m.input.last().1))
    } else if m.reset {
        (ManagerView { reset: false, ..m }, Step::Done)
    } else {
        (ManagerView { reset: true, ..m }, Step::Scan)
    }
}

/// Input `inp` of controller `i` after remapping: the sticks are recorded;
/// a throttle is recorded and reported only when it changes (as an `f32`
/// comparison, so that NaN always counts as a change); other inputs are
/// reported as they are.
pub open spec fn spec_change(m: ManagerView, i: usize, inp: Input) -> (ManagerView, Option<(usize, Input)>) {
    let c = m.controllers[i as int];
    match inp {
        Input::Move(x, y) => (
            ManagerView { controllers: m.controllers.update(i as int, ControllerSlot { move_xy: (x, y), ..c }), ..m },
            Some((i, inp)),
        ),
        Input::Camera(x, y) => (
            ManagerView { controllers: m.controllers.update(i as int, ControllerSlot { cam_xy: (x, y), ..c }), ..m },
            Some((i, inp)),
        ),
        Input::ThrottleL(x) => if !eq_f32(x, c.l_throttle) {
            (
                ManagerView { controllers: m.controllers.update(i as int, ControllerSlot { l_throttle: x, ..c }), ..m },
                Some((i, inp)),
            )
        } else {
            (m, None)
        },
        Input::ThrottleR(x) => if !eq_f32(x, c.r_throttle) {
            (
                ManagerView { controllers: m.controllers.update(i as int, ControllerSlot { r_throttle: x, ..c }), ..m },
                Some((i, inp)),
            )
        } else {
            (m, None)
        },
        _ => (m, Some((i, inp))),
    }
}

/// The controllers resized to `n`, new ones empty (see [`new_slot`]).
pub open spec fn resized(s: Seq<ControllerSlot>, n: nat) -> Seq<ControllerSlot> {
    if n <= s.len() {
        s.take(n as int)
    } else {
        s + Seq::new((n - s.len()) as nat, |k: int| new_slot())
    }
}

impl ControllerManager {
    /// A manager with no controller and nothing queued.
    pub fn new() -> (r: ControllerManager)
        ensures
            r@.controllers == Seq::<ControllerSlot>::empty(),
            r@.input == Seq::<(usize, Input)>::empty(),
            !r@.reset,
    {
        ControllerManager { controllers: Vec::new(), input: Vec::new(), reset: false }
    }

    /// Number of controllers.
    pub fn len(&self) -> (r: usize)
        ensures
            r == self@.controllers.len(),
    {
        self.controllers.len()
    }

    /// The next step (see [`spec_next`]).
    pub fn next(&mut self) -> (r: Step)
        ensures
            (final(self)@, r) == spec_next(old(self)@),
    {
        match self.input.pop() {
            Some((i, inp)) => Step::Input(i, inp),
            None => if self.reset {
                self.reset = false;
                Step::Done
            } else {
                self.reset = true;
                Step::Scan
            },
        }
    }

    /// Record input `input` after remapping, and return it if it is to be
    /// reported (see [`spec_change`]).
    pub fn change(&mut self, input: (usize, Input)) -> (r: Option<(usize, Input)>)
        requires
            input.0 < old(self)@.controllers.len(),
        ensures
            (final(self)@, r) == spec_change(old(self)@, input.0, input.1),
    {
        let i = input.0;
        let c = self.controllers[i];
        let c2 = match input.1 {
            Input::Move(x, y) => ControllerSlot { move_xy: (x, y), ..c },
            Input::Camera(x, y) => ControllerSlot { cam_xy: (x, y), ..c },
            Input::ThrottleL(x) => {
                if f32_eq(x, c.l_throttle) {
                    return None;
                }
                ControllerSlot { l_throttle: x, ..c }
            },
            Input::ThrottleR(x) => {
                if f32_eq(x, c.r_throttle) {
                    return None;
                }
                ControllerSlot { r_throttle: x, ..c }
            },
            _ => {
                return Some(input);
            },
        };
        self.controllers.set(i, c2);
        Some(input)
    }

    /// Begin a scan that found `device_count` devices, `added` the index of
    /// a device just plugged in: when one was, the controllers are resized
    /// to the number of devices.
    pub fn scan(&mut self, device_count: usize, added: Option<usize>)
        ensures
            final(self)@ == if added is Some {
                ManagerView { controllers: resized(old(self)@.controllers, device_count as nat), ..old(self)@ }
            } else {
                old(self)@
            },
    {
        if added.is_some() {
            if device_count <= self.controllers.len() {
                self.controllers.truncate(device_count);
            } else {
                let ghost s = self.controllers@;
                while self.controllers.len() < device_count
                    invariant
                        self@.input == old(self)@.input,
                        self@.reset == old(self)@.reset,
                        s == old(self)@.controllers,
                        s.len() <= self.controllers@.len() <= device_count,
                        self.controllers@ =~= s + Seq::new(
                            (self.controllers@.len() - s.len()) as nat,
                            |k: int| new_slot(),
                        ),
                    decreases device_count - self.controllers.len(),
                {
                    self.controllers.push(make_slot());
                }
            }
            proof {
                assert(self@.controllers =~= resized(old(self)@.controllers, device_count as nat));
            }
        }
    }

    /// Controller `i` was unplugged: queue that.
    pub fn unplugged(&mut self, i: usize)
        requires
            i < old(self)@.controllers.len(),
        ensures
            final(self)@ == (ManagerView {
                input: old(self)@.input.push((i, Input::UnPlugged(old(self)@.controllers[i as int].id))),
                ..old(self)@
            }),
    {
        let id = self.controllers[i].id;
        self.input.push((i, Input::UnPlugged(id)));
    }

    /// Controller `i` was just plugged in, a device of model `id` whose axes
    /// span `min..=max`: record that and queue it.
    pub fn plugged_in(&mut self, i: usize, min: i32, max: i32, id: u32)
        requires
            i < old(self)@.controllers.len(),
        ensures
            final(self)@ == (ManagerView {
                controllers: old(self)@.controllers.update(
                    i as int,
                    plugged_slot(old(self)@.controllers[i as int], min, max, id),
                ),
                input: old(self)@.input.push((i, Input::PluggedIn(id))),
                ..old(self)@
            }),
    {
        let c = plug(self.controllers[i], min, max, id);
        self.controllers.set(i, c);
        self.input.push((i, Input::PluggedIn(id)));
    }

    /// The model id of controller `i`.
    pub fn model(&self, i: usize) -> (r: u32)
        requires
            i < self@.controllers.len(),
        ensures
            r == self@.controllers[i as int].id,
    {
        self.controllers[i].id
    }

    /// The state of controller `i` after the last events read.
    pub fn state(&self, i: usize) -> (r: PadState)
        requires
            i < self@.controllers.len(),
        ensures
            r == self@.controllers[i as int].state,
    {
        self.controllers[i].state
    }

    /// The events of controller `i` were read, leaving it in state `state`:
    /// queue what changed since the last report (see [`edge_inputs`]) and
    /// remember the buttons.
    pub fn polled(&mut self, i: usize, state: PadState)
        requires
            i < old(self)@.controllers.len(),
        ensures
            ({
                let c = old(self)@.controllers[i as int];
                final(self)@ == (ManagerView {
                    controllers: old(self)@.controllers.update(
                        i as int,
                        ControllerSlot { state, oldstate: remembered(c.oldstate, state), ..c },
                    ),
                    input: old(self)@.input + edge_inputs(i, c.oldstate, state),
                    ..old(self)@
                })
            }),
    {
        let c = self.controllers[i];
        push_edges(&mut self.input, i, &c.oldstate, &state);
        let c2 = ControllerSlot { state, oldstate: remember(&c.oldstate, &state), ..c };
        self.controllers.set(i, c2);
    }
}

/// Controller `c` just plugged in, a device of model `id` whose axes span
/// `min..=max`.
pub open spec fn plugged_slot(c: ControllerSlot, min: i32, max: i32, id: u32) -> ControllerSlot {
    ControllerSlot {
        oldstate: PadState { min, max, ..c.oldstate },
        state: PadState { min, max, ..c.state },
        id,
        ..c
    }
}

fn plug(c: ControllerSlot, min: i32, max: i32, id: u32) -> (r: ControllerSlot)
    ensures
        r == plugged_slot(c, min, max, id),
{
    ControllerSlot {
        oldstate: PadState { min, max, ..c.oldstate },
        state: PadState { min, max, ..c.state },
        id,
        ..c
    }
}

fn remember(before: &PadState, now: &PadState) -> (r: PadState)
    ensures
        r == remembered(*before, *now),
{
    PadState {
        accept: now.accept,
        cancel: now.cancel,
        execute: now.execute,
        trigger: now.trigger,
        l: now.l,
        r: now.r,
        menu: now.menu,
        controls: now.controls,
        up: now.up,
        down: now.down,
        left: now.left,
        right: now.right,
        exit: now.exit,
        move_stick: now.move_stick,
        cam_stick: now.cam_stick,
        ..*before
    }
}

/// Whether an input reports a button going down or up (rather than held).
pub open spec fn is_edge(inp: Input) -> bool {
    match inp {
        Input::Accept(x) => x != Some(false),
        Input::Cancel(x) => x != Some(false),
        Input::Execute(x) => x != Some(false),
        Input::Action(x) => x != Some(false),
        Input::L(_, x) => x != Some(false),
        Input::R(_, x) => x != Some(false),
        Input::Menu(x) => x != Some(false),
        Input::Controls => true,
        Input::Exit => true,
        Input::Up(x) => x != Some(false),
        Input::Down(x) => x != Some(false),
        Input::Left(x) => x != Some(false),
        Input::Right(x) => x != Some(false),
        Input::MoveStick(x) => x != Some(false),
        Input::CamStick(x) => x != Some(false),
        _ => false,
    }
}

/// No input of `s` is a button going down or up.
pub open spec fn no_edges(s: Seq<(usize, Input)>) -> bool {
    forall|k: int| 0 <= k < s.len() ==> !is_edge(#[trigger] s[k].1)
}

proof fn lemma_report_steady(i: usize, b: ButtonName, v: bool)
    ensures
        no_edges(report(i, b, v, v)),
{
    reveal(report);
}

proof fn lemma_concat_no_edges(a: Seq<(usize, Input)>, b: Seq<(usize, Input)>)
    requires
        no_edges(a),
        no_edges(b),
    ensures
        no_edges(a + b),
{
    assert forall|k: int| 0 <= k < (a + b).len() implies !is_edge(#[trigger] (a + b)[k].1) by {
        if k < a.len() {
            assert((a + b)[k] == a[k]);
        } else {
            assert((a + b)[k] == b[k - a.len()]);
        }
    }
}

proof fn lemma_reports_steady(i: usize, items: Seq<(ButtonName, bool, bool)>)
    requires
        forall|k: int| 0 <= k < items.len() ==> (#[trigger] items[k]).1 == items[k].2,
    ensures
        no_edges(reports(i, items)),
    decreases items.len(),
{
    if items.len() > 0 {
        let t = items.drop_last();
        assert forall|k: int| 0 <= k < t.len() implies (#[trigger] t[k]).1 == t[k].2 by {
            assert(t[k] == items[k]);
        }
        lemma_reports_steady(i, t);
        let last = items.last();
        assert(last == items[items.len() - 1]);
        lemma_report_steady(i, last.0, last.1);
        lemma_concat_no_edges(reports(i, t), report(i, last.0, last.1, last.2));
    }
}

proof fn lemma_lr_steady(i: usize, before: PadState, now: PadState, k: nat)
    requires
        before.l == now.l,
        before.r == now.r,
    ensures
        no_edges(lr_inputs(i, before, now, k)),
    decreases k,
{
    if k > 0 {
        let b = (k - 1) as int;
        lemma_lr_steady(i, before, now, (k - 1) as nat);
        lemma_report_steady(i, ButtonName::L(b as u8), bit32(now.l, b));
        lemma_report_steady(i, ButtonName::R(b as u8), bit32(now.r, b));
        lemma_concat_no_edges(
            lr_inputs(i, before, now, (k - 1) as nat),
            report(i, ButtonName::L(b as u8), bit32(now.l, b), bit32(before.l, b)),
        );
        lemma_concat_no_edges(
            lr_inputs(i, before, now, (k - 1) as nat) + report(
                i,
                ButtonName::L(b as u8),
                bit32(now.l, b),
                bit32(before.l, b),
            ),
            report(i, ButtonName::R(b as u8), bit32(now.r, b), bit32(before.r, b)),
        );
    }
}

/// A state reported twice reports no button going down or up the second
/// time: the buttons remembered after the first report are those of the
/// state, so every button that is down is reported held.
pub proof fn lemma_repoll_no_edges(i: usize, before: PadState, now: PadState)
    ensures
        no_edges(edge_inputs(i, remembered(before, now), now)),
{
    let r = remembered(before, now);
    let items = button_states(r, now);
    assert forall|k: int| 0 <= k < items.len() implies (#[trigger] items[k]).1 == items[k].2 by {}
    lemma_reports_steady(i, items);
    lemma_lr_steady(i, r, now, 32);
    let a = analog_inputs(i, now);
    assert(no_edges(a));
    lemma_concat_no_edges(a, button_inputs(i, r, now));
    lemma_concat_no_edges(a + button_inputs(i, r, now), lr_inputs(i, r, now, 32));
}

/// A throttle value that comes again is not reported again (unless it is
/// NaN, which differs from every value).
pub proof fn lemma_throttle_repeat(m: ManagerView, i: usize, x: u32)
    requires
        i < m.controllers.len(),
        !crate::float_bits::is_nan_f32(x),
    ensures
        spec_change(spec_change(m, i, Input::ThrottleL(x)).0, i, Input::ThrottleL(x)).1 is None,
        spec_change(spec_change(m, i, Input::ThrottleR(x)).0, i, Input::ThrottleR(x)).1 is None,
{
}

/// Every input of `s` belongs to controller `i`.
pub open spec fn all_of(s: Seq<(usize, Input)>, i: usize) -> bool {
    forall|k: int| 0 <= k < s.len() ==> (#[trigger] s[k]).0 == i
}

proof fn lemma_reports_of(i: usize, items: Seq<(ButtonName, bool, bool)>)
    ensures
        all_of(reports(i, items), i),
    decreases items.len(),
{
    reveal(report);
    if items.len() > 0 {
        lemma_reports_of(i, items.drop_last());
        let a = reports(i, items.drop_last());
        let b = report(i, items.last().0, items.last().1, items.last().2);
        assert forall|k: int| 0 <= k < (a + b).len() implies (#[trigger] (a + b)[k]).0 == i by {
            if k >= a.len() {
                assert((a + b)[k] == b[k - a.len()]);
            }
        }
    }
}

proof fn lemma_lr_of(i: usize, before: PadState, now: PadState, k: nat)
    ensures
        all_of(lr_inputs(i, before, now, k), i),
    decreases k,
{
    reveal(report);
    if k > 0 {
        lemma_lr_of(i, before, now, (k - 1) as nat);
        let b = (k - 1) as int;
        let x = lr_inputs(i, before, now, (k - 1) as nat);
        let y = report(i, ButtonName::L(b as u8), bit32(now.l, b), bit32(before.l, b));
        let z = report(i, ButtonName::R(b as u8), bit32(now.r, b), bit32(before.r, b));
        assert forall|j: int| 0 <= j < (x + y + z).len() implies (#[trigger] (x + y + z)[j]).0 == i by {
            if j < x.len() {
                assert((x + y + z)[j] == x[j]);
            } else if j < x.len() + y.len() {
                assert((x + y + z)[j] == y[j - x.len()]);
            } else {
                assert((x + y + z)[j] == z[j - x.len() - y.len()]);
            }
        }
    }
}

/// What a poll of controller `i` queues is all controller `i`'s.
pub proof fn lemma_edge_inputs_of(i: usize, before: PadState, now: PadState)
    ensures
        all_of(edge_inputs(i, before, now), i),
{
    lemma_reports_of(i, button_states(before, now));
    lemma_lr_of(i, before, now, 32);
    let a = analog_inputs(i, now);
    let b = button_inputs(i, before, now);
    let c = lr_inputs(i, before, now, 32);
    assert forall|j: int| 0 <= j < (a + b + c).len() implies (#[trigger] (a + b + c)[j]).0 == i by {
        if j < a.len() {
            assert((a + b + c)[j] == a[j]);
        } else if j < a.len() + b.len() {
            assert((a + b + c)[j] == b[j - a.len()]);
        } else {
            assert((a + b + c)[j] == c[j - a.len() - b.len()]);
        }
    }
}

/// Every queued input names a controller that the manager has.
pub open spec fn queue_in_range(m: ManagerView) -> bool {
    forall|k: int| 0 <= k < m.input.len() ==> (#[trigger] m.input[k]).0 < m.controllers.len()
}

/// Queued inputs name controllers that exist, and every step keeps it so:
/// taking the next step (whose input, if any, names such a controller), a
/// poll, a plug or unplug, a change, and a scan, which [`spec_next`] asks
/// for only once the queue is empty.
pub proof fn lemma_queue_in_range(
    m: ManagerView,
    i: usize,
    inp: Input,
    st: PadState,
    n: usize,
    added: Option<usize>,
    min: i32,
    max: i32,
    id: u32,
)
    requires
        queue_in_range(m),
        i < m.controllers.len(),
    ensures
        queue_in_range(spec_next(m).0),
        spec_next(m).1 matches Step::Input(j, _) ==> j < m.controllers.len(),
        spec_next(m).1 is Scan ==> m.input.len() == 0,
        queue_in_range(spec_change(m, i, inp).0),
        queue_in_range(
            ManagerView {
                controllers: m.controllers.update(
                    i as int,
                    ControllerSlot {
                        state: st,
                        oldstate: remembered(m.controllers[i as int].oldstate, st),
                        ..m.controllers[i as int]
                    },
                ),
                input: m.input + edge_inputs(i, m.controllers[i as int].oldstate, st),
                ..m
            },
        ),
        queue_in_range(
            ManagerView { input: m.input.push((i, Input::UnPlugged(m.controllers[i as int].id))), ..m },
        ),
        queue_in_range(
            ManagerView {
                controllers: m.controllers.update(
                    i as int,
                    plugged_slot(m.controllers[i as int], min, max, id),
                ),
                input: m.input.push((i, Input::PluggedIn(id))),
                ..m
            },
        ),
        m.input.len() == 0 ==> queue_in_range(
            if added is Some {
                ManagerView { controllers: resized(m.controllers, n as nat), ..m }
            } else {
                m
            },
        ),
{
    let old_s = m.controllers[i as int].oldstate;
    lemma_edge_inputs_of(i, old_s, st);
    let e = edge_inputs(i, old_s, st);
    let q = m.input + e;
    assert forall|k: int| 0 <= k < q.len() implies (#[trigger] q[k]).0 < m.controllers.len() by {
        if k < m.input.len() {
            assert(q[k] == m.input[k]);
        } else {
            assert(q[k] == e[k - m.input.len()]);
        }
    }
    let u = m.input.push((i, Input::UnPlugged(m.controllers[i as int].id)));
    assert forall|k: int| 0 <= k < u.len() implies (#[trigger] u[k]).0 < m.controllers.len() by {
        if k < m.input.len() {
            assert(u[k] == m.input[k]);
        }
    }
    let p = m.input.push((i, Input::PluggedIn(id)));
    assert forall|k: int| 0 <= k < p.len() implies (#[trigger] p[k]).0 < m.controllers.len() by {
        if k < m.input.len() {
            assert(p[k] == m.input[k]);
        }
    }
    if m.input.len() > 0 {
        let d = m.input.drop_last();
        assert forall|k: int| 0 <= k < d.len() implies (#[trigger] d[k]).0 < m.controllers.len() by {
            assert(d[k] == m.input[k]);
        }
        assert(m.input.last() == m.input[m.input.len() - 1]);
    }
}

/// A named button reports at most one input per poll: pressed when it went
/// down, released when it went up, held while it stays down, nothing while
/// it stays up; the controls and exit buttons report only going down.
/// Afterwards the button is remembered as it now is.
pub proof fn lemma_button_report(i: usize, b: ButtonName, now: bool, before: bool)
    ensures
        !(b is Controls || b is Exit) ==> report(i, b, now, before) == if now && !before {
            seq![(i, button_input(b, Some(true)))]
        } else if !now && before {
            seq![(i, button_input(b, None))]
        } else if now && before {
            seq![(i, button_input(b, Some(false)))]
        } else {
            Seq::<(usize, Input)>::empty()
        },
        (b is Controls || b is Exit) ==> report(i, b, now, before) == if now && !before {
            seq![(i, button_input(b, None))]
        } else {
            Seq::<(usize, Input)>::empty()
        },
{
    reveal(report);
}

/// After a poll, the buttons are remembered as polled.
pub proof fn lemma_poll_remembers(before: PadState, now: PadState)
    ensures
        ({
            let r = remembered(before, now);
            &&& r.accept == now.accept && r.cancel == now.cancel && r.execute == now.execute
            &&& r.trigger == now.trigger && r.menu == now.menu && r.controls == now.controls
            &&& r.up == now.up && r.down == now.down && r.left == now.left && r.right == now.right
            &&& r.exit == now.exit && r.move_stick == now.move_stick && r.cam_stick == now.cam_stick
            &&& r.l == now.l && r.r == now.r
        }),
{
}

/// Whether a remapper registered for model `remapper_id` applies to an input
/// of a controller of model `model`: it does for that model, and a remapper
/// for model `0` applies to every model.
pub fn remapper_applies(remapper_id: u32, model: u32) -> (r: bool)
    ensures
        r == (remapper_id == model || remapper_id == 0),
{
    remapper_id == model || remapper_id == 0
}

} // verus!
