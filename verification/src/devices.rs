//! The state of one joystick, gamepad or controller, and the port that holds
//! every plugged-in device.
//!
//! A [`Device`] keeps its six axes as `f32` bit patterns and its buttons as
//! the bits of a `u64`, button `b` at bit `b`.

use vstd::prelude::*;
use crate::float_bits::{lt_f32, f32_lt, clamp_f32, f32_clamp, F32_MAGNITUDE, F32_SIGN};

verus! {

/// A button on a controller.
#[derive(Clone, Copy, Debug, PartialEq, Eq, Structural)]
pub enum Btn {
    /// D-pad left / left arrow key / scroll up: "previous item".
    Left,
    /// D-pad right / right arrow key / scroll down: "next item".
    Right,
    /// D-pad up / up arrow key / R key: "reload, tinker".
    Up,
    /// D-pad down / down arrow key / X key: "put away".
    Down,
    /// One of Y or X / left click: "action, attack, use item".
    X,
    /// A / enter key / right click: "talk, inspect, accept".
    A,
    /// One of Y or X / space key: "jump, upward".
    Y,
    /// B / shift key: "speed things up, cancel".
    B,
    /// L throttle button / ctrl key: "crouch, sneak".
    L,
    /// R throttle button / alt key: "slingshot, bow and arrow".
    R,
    /// L button / W button / backspace key: "throw, send, wave".
    W,
    /// R button / Z button / Z key: "alternative action, kick".
    Z,
    /// Back / select / escape key: "menu, quit, finish".
    F,
    /// Start / E key / menu: "inventory, find".
    E,
    /// First joystick pushed / C key: "toggle crouch".
    D,
    /// Second joystick pushed / F key: "camera, binoculars".
    C,
}

/// The bit of a device's button set that holds button `b`.
pub open spec fn btn_bit(b: Btn) -> u8 {
    match b {
        Btn::Left => 0,
        Btn::Right => 1,
        Btn::Up => 2,
        Btn::Down => 3,
        Btn::X => 4,
        Btn::A => 5,
        Btn::Y => 6,
        Btn::B => 7,
        Btn::L => 8,
        Btn::R => 9,
        Btn::W => 10,
        Btn::Z => 11,
        Btn::F => 12,
        Btn::E => 13,
        Btn::D => 14,
        Btn::C => 15,
    }
}

impl From<Btn> for u8 {
    fn from(b: Btn) -> (r: u8) {
        match b {
            Btn::Left => 0,
            Btn::Right => 1,
            Btn::Up => 2,
            Btn::Down => 3,
            Btn::X => 4,
            Btn::A => 5,
            Btn::Y => 6,
            Btn::B => 7,
            Btn::L => 8,
            Btn::R => 9,
            Btn::W => 10,
            Btn::Z => 11,
            Btn::F => 12,
            Btn::E => 13,
            Btn::D => 14,
            Btn::C => 15,
        }
    }
}

impl vstd::std_specs::convert::FromSpecImpl<Btn> for u8 {
    open spec fn obeys_from_spec() -> bool {
        true
    }

    open spec fn from_spec(v: Btn) -> u8 {
        btn_bit(v)
    }
}

/// Whether bit `i` of `x` is set.
pub open spec fn bit_of(x: u64, i: u64) -> bool {
    x & (1u64 << i) != 0
}

/// `x` with bit `i` set to `on` and every other bit kept.
pub open spec fn with_bit(x: u64, i: u64, on: bool) -> u64 {
    if on {
        x | (1u64 << i)
    } else {
        x & !(1u64 << i)
    }
}

/// Setting a bit sets that bit and keeps the others.
pub proof fn lemma_with_bit(x: u64, i: u64, on: bool, j: u64)
    requires
        i < 64,
        j < 64,
    ensures
        bit_of(with_bit(x, i, on), j) == if j == i { on } else { bit_of(x, j) },
{
    if on {
        assert(((x | (1u64 << i)) & (1u64 << j) != 0) == (if j == i { true } else { x & (1u64
            << j) != 0 })) by (bit_vector)
            requires
                i < 64,
                j < 64,
        ;
    } else {
        assert(((x & !(1u64 << i)) & (1u64 << j) != 0) == (if j == i { false } else { x & (1u64
            << j) != 0 })) by (bit_vector)
            requires
                i < 64,
                j < 64,
        ;
    }
}

/// Bit pattern of the `f32` value `-1.0`.
pub const MINUS_ONE_F32: u32 = 0xBF80_0000;

/// Bit pattern of the `f32` value `1.0`.
pub const ONE_F32: u32 = 0x3F80_0000;

/// Bit pattern of the `f32` value `0.99`, above which a trigger counts as
/// pushed all the way down.
pub const NEARLY_ONE_F32: u32 = 0x3F7D_70A4;

/// Hardware id of the flight controller that has no camera stick.
pub const FLIGHT_STICK_ID: u32 = 0x07B5_0316;

/// Hardware id of the XBox controller, whose A and B are swapped.
pub const XBOX_ID: u32 = 0x0E6F_0501;

/// Hardware id of the PlayStation 3 controller, whose X and Y are swapped.
pub const PS3_ID: u32 = 0x054C_0268;

/// Hardware id of the GameCube controller, whose axes are numbered apart.
pub const GAMECUBE_ID: u32 = 0x0079_1844;

/// The state of a joystick, gamepad or controller device.
#[derive(Clone, Copy, Debug)]
pub struct Device {
    native_handle: u32,
    hardware_id: u32,
    abs_min: i32,
    abs_max: i32,
    joyx: u32,
    joyy: u32,
    camx: u32,
    camy: u32,
    trgl: u32,
    trgr: u32,
    btns: u64,
}

/// The contents of a [`Device`]: the axes are `f32` bit patterns, the
/// buttons the bits of `btns`.
pub struct DeviceView {
    /// Index of the device on the platform.
    pub native_handle: u32,
    /// Hardware id of the device's model.
    pub hardware_id: u32,
    /// Least raw value of an axis.
    pub abs_min: i32,
    /// Greatest raw value of an axis.
    pub abs_max: i32,
    pub joyx: u32,
    pub joyy: u32,
    pub camx: u32,
    pub camy: u32,
    pub trgl: u32,
    pub trgr: u32,
    pub btns: u64,
}

impl View for Device {
    type V = DeviceView;

    closed spec fn view(&self) -> DeviceView {
        DeviceView {
            native_handle: self.native_handle,
            hardware_id: self.hardware_id,
            abs_min: self.abs_min,
            abs_max: self.abs_max,
            joyx: self.joyx,
            joyy: self.joyy,
            camx: self.camx,
            camy: self.camy,
            trgl: self.trgl,
            trgr: self.trgr,
            btns: self.btns,
        }
    }
}

/// A device that holds zero everywhere.
pub open spec fn empty_device() -> DeviceView {
    DeviceView {
        native_handle: 0,
        hardware_id: 0,
        abs_min: 0,
        abs_max: 0,
        joyx: 0,
        joyy: 0,
        camx: 0,
        camy: 0,
        trgl: 0,
        trgr: 0,
        btns: 0,
    }
}

impl Default for Device {
    fn default() -> (r: Device)
        ensures
            r@ == empty_device(),
    {
        Device {
            native_handle: 0,
            hardware_id: 0,
            abs_min: 0,
            abs_max: 0,
            joyx: 0,
            joyy: 0,
            camx: 0,
            camy: 0,
            trgl: 0,
            trgr: 0,
            btns: 0,
        }
    }
}

/// `d` with buttons `a` and `b` exchanged.
pub open spec fn swap_btns(d: DeviceView, a: u8, b: u8) -> DeviceView {
    DeviceView {
        btns: with_bit(
            with_bit(d.btns, a as u64, bit_of(d.btns, b as u64)),
            b as u64,
            bit_of(d.btns, a as u64),
        ),
        ..d
    }
}

/// `d` with the two axes of the main joystick exchanged.
pub open spec fn swap_joy(d: DeviceView) -> DeviceView {
    DeviceView { joyx: d.joyy, joyy: d.joyx, ..d }
}

/// `d` with buttons L and R set to whether each trigger is pushed beyond
/// `0.99`.
pub open spec fn triggers_to_buttons(d: DeviceView) -> DeviceView {
    DeviceView {
        btns: with_bit(
            with_bit(d.btns, 8, lt_f32(NEARLY_ONE_F32, d.trgl)),
            9,
            lt_f32(NEARLY_ONE_F32, d.trgr),
        ),
        ..d
    }
}

/// Half the range of a raw axis, rounded down.
pub open spec fn half_range(min: int, max: int) -> int {
    (max - min) / 2
}

/// Half the width of the dead zone at the centre of a raw axis: an eighth of
/// the range (a quarter of the half range), rounded down.
pub open spec fn dead_half(min: int, max: int) -> int {
    half_range(min, max) / 4
}

/// The raw value at the centre of an axis.
pub open spec fn centre(min: int, max: int) -> int {
    min + half_range(min, max)
}

/// A raw axis value `val` in `min..=max`, centred and with the dead zone
/// taken out: values closer to the centre than the dead zone's half width
/// are zero, the others are moved towards the centre by that half width.
/// The second number is the greatest value that the first can reach.
pub open spec fn spec_deadzone(min: int, max: int, val: int) -> (int, int) {
    let d = dead_half(min, max);
    let off = val - centre(min, max);
    let v = if -d < off && off < d {
        0
    } else if off < d {
        off + d
    } else {
        off - d
    };
    (v, half_range(min, max) - d)
}

/// Whether `x` fits in an `i32`.
pub open spec fn is_i32(x: int) -> bool {
    i32::MIN <= x <= i32::MAX
}

/// Whether [`deadzone`] computes without overflow.
pub open spec fn deadzone_defined(min: i32, max: i32, val: i32) -> bool {
    &&& is_i32(max - min)
    &&& is_i32(val - centre(min as int, max as int))
    &&& is_i32(spec_deadzone(min as int, max as int, val as int).0)
}

/// `a / b` rounded toward zero, as integer division does (`/` on `int` is
/// Euclidean division, which rounds a non-negative `a` toward zero for
/// either sign of `b`).
pub open spec fn div_toward_zero(a: int, b: int) -> int {
    if a >= 0 {
        a / b
    } else {
        -((-a) / b)
    }
}

/// `x` brought into `lo..=hi`.
pub open spec fn clamp_int(x: int, lo: int, hi: int) -> int {
    if x < lo { lo } else if x > hi { hi } else { x }
}

/// The level, in `-127..=127`, of raw axis value `val` in `min..=max`: the
/// value out of [`spec_deadzone`] scaled from its own range to `127`.
pub open spec fn spec_transform(min: i32, max: i32, val: i32) -> int {
    let (v, full) = spec_deadzone(min as int, max as int, val as int);
    clamp_int(div_toward_zero(v * 127, full), -127, 127)
}

/// Whether [`transform`] computes without overflow or division by zero.
pub open spec fn transform_defined(min: i32, max: i32, val: i32) -> bool {
    let (v, full) = spec_deadzone(min as int, max as int, val as int);
    &&& deadzone_defined(min, max, val)
    &&& full != 0
    &&& is_i32(v * 127)
    &&& is_i32(div_toward_zero(v * 127, full))
}

proof fn lemma_shift_right(a: i32)
    ensures
        (a >> 1u32) as int == (a as int) / 2,
        (a >> 2u32) as int == (a as int) / 4,
{
    assert((a >> 1u32) * 2 + (a & 1) == a) by (bit_vector);
    assert(0 <= (a & 1) <= 1) by (bit_vector);
    assert((a >> 2u32) * 4 + (a & 3) == a) by (bit_vector);
    assert(0 <= (a & 3) <= 3) by (bit_vector);
}

/// Centre raw axis value `val` of an axis that spans `min..=max` and take
/// out the dead zone; also return the greatest value that the result can
/// reach.
pub fn deadzone(min: i32, max: i32, val: i32) -> (r: (i32, i32))
    requires
        deadzone_defined(min, max, val),
    ensures
        r.0 == spec_deadzone(min as int, max as int, val as int).0,
        r.1 == spec_deadzone(min as int, max as int, val as int).1,
{
    let range = max - min;
    let halfr = range >> 1u32;
    let deadz = halfr >> 2u32;
    proof {
        lemma_shift_right(range);
        lemma_shift_right(halfr);
    }
    let midpt = min + halfr;
    let value = val - midpt;
    let value = if value < deadz {
        if value > -deadz {
            0
        } else {
            value + deadz
        }
    } else {
        value - deadz
    };
    (value, (range >> 1u32) - deadz)
}

/// The level, in `-127..=127`, of raw value `val` of an axis that spans
/// `min..=max`: `127` and `-127` stand for the two ends, `0` for the dead
/// zone at the centre.
pub fn transform(min: i32, max: i32, val: i32) -> (r: i32)
    requires
        transform_defined(min, max, val),
    ensures
        r == spec_transform(min, max, val),
        -127 <= r <= 127,
{
    let (value, full) = deadzone(min, max, val);
    let scaled = (value * 127) / full;
    assert(scaled == div_toward_zero(value * 127, full as int));
    if scaled < -127 {
        -127
    } else if scaled > 127 {
        127
    } else {
        scaled
    }
}


/// The six axes of a device.
#[derive(Clone, Copy, Debug, PartialEq, Eq, Structural)]
pub enum Axis {
    /// Main joystick, X.
    JoyX,
    /// Main joystick, Y.
    JoyY,
    /// Camera stick, X.
    CamX,
    /// Camera stick, Y.
    CamY,
    /// Left trigger.
    TrgL,
    /// Right trigger.
    TrgR,
}

/// A new value for an axis: the `f32` value `level / 127`.
#[derive(Clone, Copy, Debug, PartialEq, Eq, Structural)]
pub struct AxisWrite {
    pub axis: Axis,
    pub level: i32,
}

/// `d` with axis `a` set to bit pattern `bits`.
pub open spec fn with_axis(d: DeviceView, a: Axis, bits: u32) -> DeviceView {
    match a {
        Axis::JoyX => DeviceView { joyx: bits, ..d },
        Axis::JoyY => DeviceView { joyy: bits, ..d },
        Axis::CamX => DeviceView { camx: bits, ..d },
        Axis::CamY => DeviceView { camy: bits, ..d },
        Axis::TrgL => DeviceView { trgl: bits, ..d },
        Axis::TrgR => DeviceView { trgr: bits, ..d },
    }
}

/// The button that key `key` (the key code less `0x120`) stands for on a
/// device of model `hardware_id`: the XBox controller has A and B swapped,
/// the PlayStation 3 controller X and Y.
pub open spec fn key_button(hardware_id: u32, key: int) -> Option<Btn> {
    let xbox = hardware_id == XBOX_ID;
    let ps3 = hardware_id == PS3_ID;
    if key == 0 || key == 19 {
        Some(if ps3 { Btn::Y } else { Btn::X })
    } else if key == 1 || key == 17 {
        Some(if xbox { Btn::B } else { Btn::A })
    } else if key == 2 || key == 16 {
        Some(if xbox { Btn::A } else { Btn::B })
    } else if key == 3 || key == 20 {
        Some(if ps3 { Btn::X } else { Btn::Y })
    } else if key == 4 || key == 24 {
        Some(Btn::L)
    } else if key == 5 || key == 25 {
        Some(Btn::R)
    } else if key == 6 || key == 22 {
        Some(Btn::W)
    } else if key == 7 || key == 23 {
        Some(Btn::Z)
    } else if key == 8 || key == 26 {
        Some(Btn::F)
    } else if key == 9 || key == 27 {
        Some(Btn::E)
    } else if key == 12 || key == 256 {
        Some(Btn::Up)
    } else if key == 13 || key == 259 {
        Some(Btn::Right)
    } else if key == 14 || key == 257 {
        Some(Btn::Down)
    } else if key == 15 || key == 258 {
        Some(Btn::Left)
    } else if key == 29 {
        Some(Btn::D)
    } else if key == 30 {
        Some(Btn::C)
    } else {
        None
    }
}

/// The axis that absolute axis code `code` moves on a device of model
/// `hardware_id`, besides the main joystick (codes 0 and 1): the GameCube
/// controller numbers the camera stick and the triggers apart.
pub open spec fn abs_axis(hardware_id: u32, code: int) -> Option<Axis> {
    let gc = hardware_id == GAMECUBE_ID;
    if code == 0 {
        Some(Axis::JoyX)
    } else if code == 1 {
        Some(Axis::JoyY)
    } else if code == 16 || code == 17 || code == 40 {
        None
    } else if code == (if gc { 5int } else { 3 }) {
        Some(Axis::CamX)
    } else if code == (if gc { 2int } else { 4 }) {
        Some(Axis::CamY)
    } else if code == (if gc { 3int } else { 2 }) {
        Some(Axis::TrgL)
    } else if code == (if gc { 4int } else { 5 }) {
        Some(Axis::TrgR)
    } else {
        None
    }
}

/// The level of a trigger for raw value `val`: `val` brought into
/// `-127..=127` and read as a byte, so that negative values wrap to
/// `129..=255`.
pub open spec fn trigger_level(val: i32) -> int {
    let c = clamp_int(val as int, -127, 127);
    if c < 0 { c + 256 } else { c }
}

/// Whether [`Device::apply_event`] computes without overflow: key codes are
/// shifted down by `0x120`, and the raw value of every axis event goes
/// through [`transform`].
pub open spec fn event_defined(d: DeviceView, ev_type: i16, ev_code: i16, ev_value: i32) -> bool {
    &&& ev_type == 1 ==> ev_code - 0x120 >= i16::MIN
    &&& ev_type == 3 ==> transform_defined(d.abs_min, d.abs_max, ev_value)
}

/// The effect of a platform event on device `d`: the new state and, for an
/// axis, the axis and the level that the axis takes (as `level / 127`).
///
/// Key events (type 1) press the button of their key when the value is 1
/// and release it otherwise.  Absolute axis events (type 3) move an axis,
/// or, for the hat (codes 16 and 17), press the d-pad button on the side
/// that the value's sign points to and release the other.  Other events
/// change nothing.
pub open spec fn spec_apply(d: DeviceView, ev_type: i16, ev_code: i16, ev_value: i32) -> (
    DeviceView,
    Option<AxisWrite>,
) {
    if ev_type == 1 {
        match key_button(d.hardware_id, ev_code - 0x120) {
            Some(b) => (
                DeviceView { btns: with_bit(d.btns, btn_bit(b) as u64, ev_value == 1), ..d },
                None,
            ),
            None => (d, None),
        }
    } else if ev_type == 3 {
        if ev_code == 16 {
            (
                DeviceView {
                    btns: with_bit(with_bit(d.btns, 0, ev_value < 0), 1, ev_value > 0),
                    ..d
                },
                None,
            )
        } else if ev_code == 17 {
            (
                DeviceView {
                    btns: with_bit(with_bit(d.btns, 2, ev_value < 0), 3, ev_value > 0),
                    ..d
                },
                None,
            )
        } else {
            match abs_axis(d.hardware_id, ev_code as int) {
                Some(a) => {
                    let level = if a == Axis::TrgL || a == Axis::TrgR {
                        trigger_level(ev_value)
                    } else {
                        spec_transform(d.abs_min, d.abs_max, ev_value)
                    };
                    (d, Some(AxisWrite { axis: a, level: level as i32 }))
                },
                None => (d, None),
            }
        }
    } else {
        (d, None)
    }
}


fn trigger_byte(val: i32) -> (r: i32)
    ensures
        r == trigger_level(val),
{
    let c = if val < -127 {
        -127
    } else if val > 127 {
        127
    } else {
        val
    };
    if c < 0 {
        c + 256
    } else {
        c
    }
}

/// Whether [`transform`] can take these values (see [`transform_defined`]).
pub fn transform_in_range(min: i32, max: i32, val: i32) -> (r: bool)
    ensures
        r == transform_defined(min, max, val),
{
    let range = max as i64 - min as i64;
    if range < i32::MIN as i64 || range > i32::MAX as i64 {
        return false;
    }
    let halfr = if range >= 0 { range / 2 } else { -((1 - range) / 2) };
    let deadz = if halfr >= 0 { halfr / 4 } else { -((3 - halfr) / 4) };
    let midpt = min as i64 + halfr;
    let value = val as i64 - midpt;
    if value < i32::MIN as i64 || value > i32::MAX as i64 {
        return false;
    }
    let value = if value < deadz {
        if value > -deadz {
            0
        } else {
            value + deadz
        }
    } else {
        value - deadz
    };
    if value < i32::MIN as i64 || value > i32::MAX as i64 {
        return false;
    }
    let full = halfr - deadz;
    let scaled = value * 127;
    if full == 0 || scaled < i32::MIN as i64 || scaled > i32::MAX as i64 {
        return false;
    }
    proof {
        lemma_quotient_fits(scaled as int, full as int);
    }
    !(scaled == i32::MIN as i64 && full == -1)
}

proof fn lemma_quotient_fits(a: int, b: int)
    requires
        is_i32(a),
        b != 0,
    ensures
        is_i32(div_toward_zero(a, b)) <==> !(a == i32::MIN && b == -1),
{
    if a >= 0 {
        if b > 0 {
            assert(0 <= a / b <= a) by (nonlinear_arith)
                requires
                    a >= 0,
                    b > 0,
            ;
        } else {
            assert(-a <= a / b <= 0) by (nonlinear_arith)
                requires
                    a >= 0,
                    b < 0,
            ;
        }
    } else {
        if b > 0 {
            assert(0 <= (-a) / b <= -a) by (nonlinear_arith)
                requires
                    a < 0,
                    b > 0,
            ;
        } else if b == -1 {
            assert((-a) / b == a);
        } else {
            assert(a < (-a) / b <= 0) by (nonlinear_arith)
                requires
                    a < 0,
                    b < -1,
            ;
        }
    }
}


impl Device {
    /// The index of the device on the platform.
    pub fn native_handle(&self) -> (r: u32)
        ensures
            r == self@.native_handle,
    {
        self.native_handle
    }

    /// The hardware id of the device's model.
    pub fn hardware_id(&self) -> (r: u32)
        ensures
            r == self@.hardware_id,
    {
        self.hardware_id
    }

    /// The main joystick's X and Y, as `f32` bit patterns.  Every device has
    /// one.
    pub fn joy(&self) -> (r: Option<(u32, u32)>)
        ensures
            r == Some((self@.joyx, self@.joyy)),
    {
        Some((self.joyx, self.joyy))
    }

    /// The camera stick's X and Y, as `f32` bit patterns, if the device has
    /// a camera stick: all but the flight controller have one.
    pub fn cam(&self) -> (r: Option<(u32, u32)>)
        ensures
            r == if self@.hardware_id == FLIGHT_STICK_ID {
                None
            } else {
                Some((self@.camx, self@.camy))
            },
    {
        if self.hardware_id == FLIGHT_STICK_ID {
            None
        } else {
            Some((self.camx, self.camy))
        }
    }

    /// The left and right trigger values, as `f32` bit patterns.
    pub fn lrt(&self) -> (r: Option<(u32, u32)>)
        ensures
            r == Some((self@.trgl, self@.trgr)),
    {
        Some((self.trgl, self.trgr))
    }

    /// Whether button `b` is pressed (`Some(true)`) or not (`Some(false)`);
    /// every button exists on every device.
    pub fn btn(&self, b: u8) -> (r: Option<bool>)
        requires
            b < 64,
        ensures
            r == Some(bit_of(self@.btns, b as u64)),
    {
        Some(self.btns & (1u64 << b) != 0)
    }

    /// Whether [`Device::apply_event`] can take this event (see
    /// [`event_defined`]).
    pub fn event_in_range(&self, ev_type: i16, ev_code: i16, ev_value: i32) -> (r: bool)
        ensures
            r == event_defined(self@, ev_type, ev_code, ev_value),
    {
        if ev_type == 1 && ev_code < i16::MIN + 0x120 {
            return false;
        }
        if ev_type == 3 {
            return transform_in_range(self.abs_min, self.abs_max, ev_value);
        }
        true
    }

    /// Apply a platform event: press or release a button, or name the axis
    /// that moves and its level (see [`spec_apply`]); the caller then sets
    /// that axis to the `f32` value `level / 127` with [`Device::set_axis`].
    pub fn apply_event(&mut self, ev_type: i16, ev_code: i16, ev_value: i32) -> (r: Option<
        AxisWrite,
    >)
        requires
            event_defined(old(self)@, ev_type, ev_code, ev_value),
        ensures
            (final(self)@, r) == spec_apply(old(self)@, ev_type, ev_code, ev_value),
    {
        if ev_type == 1 {
            let key = ev_code - 0x120;
            let b = if key == 0 || key == 19 {
                if self.hardware_id == PS3_ID { Btn::Y } else { Btn::X }
            } else if key == 1 || key == 17 {
                if self.hardware_id == XBOX_ID { Btn::B } else { Btn::A }
            } else if key == 2 || key == 16 {
                if self.hardware_id == XBOX_ID { Btn::A } else { Btn::B }
            } else if key == 3 || key == 20 {
                if self.hardware_id == PS3_ID { Btn::X } else { Btn::Y }
            } else if key == 4 || key == 24 {
                Btn::L
            } else if key == 5 || key == 25 {
                Btn::R
            } else if key == 6 || key == 22 {
                Btn::W
            } else if key == 7 || key == 23 {
                Btn::Z
            } else if key == 8 || key == 26 {
                Btn::F
            } else if key == 9 || key == 27 {
                Btn::E
            } else if key == 12 || key == 256 {
                Btn::Up
            } else if key == 13 || key == 259 {
                Btn::Right
            } else if key == 14 || key == 257 {
                Btn::Down
            } else if key == 15 || key == 258 {
                Btn::Left
            } else if key == 29 {
                Btn::D
            } else if key == 30 {
                Btn::C
            } else {
                return None;
            };
            self.set_btn(u8::from(b), ev_value == 1);
            None
        } else if ev_type == 3 {
            let value = transform(self.abs_min, self.abs_max, ev_value);
            let gc = self.hardware_id == GAMECUBE_ID;
            let (cam_x, cam_y, lrt_l, lrt_r): (i16, i16, i16, i16) = if gc {
                (5, 2, 3, 4)
            } else {
                (3, 4, 2, 5)
            };
            if ev_code == 0 {
                Some(AxisWrite { axis: Axis::JoyX, level: value })
            } else if ev_code == 1 {
                Some(AxisWrite { axis: Axis::JoyY, level: value })
            } else if ev_code == 16 {
                self.set_btn(u8::from(Btn::Left), ev_value < 0);
                self.set_btn(u8::from(Btn::Right), ev_value > 0);
                None
            } else if ev_code == 17 {
                self.set_btn(u8::from(Btn::Up), ev_value < 0);
                self.set_btn(u8::from(Btn::Down), ev_value > 0);
                None
            } else if ev_code == 40 {
                None
            } else if ev_code == cam_x {
                Some(AxisWrite { axis: Axis::CamX, level: value })
            } else if ev_code == cam_y {
                Some(AxisWrite { axis: Axis::CamY, level: value })
            } else if ev_code == lrt_l {
                Some(AxisWrite { axis: Axis::TrgL, level: trigger_byte(ev_value) })
            } else if ev_code == lrt_r {
                Some(AxisWrite { axis: Axis::TrgR, level: trigger_byte(ev_value) })
            } else {
                None
            }
        } else {
            None
        }
    }

    fn set_btn(&mut self, b: u8, on: bool)
        requires
            b < 64,
        ensures
            final(self)@ == (DeviceView { btns: with_bit(old(self)@.btns, b as u64, on), ..old(self)@ }),
    {
        if on {
            self.btns = self.btns | (1u64 << b);
        } else {
            self.btns = self.btns & !(1u64 << b);
        }
    }

    /// Set axis `axis` to the `f32` bit pattern `bits`.
    pub fn set_axis(&mut self, axis: Axis, bits: u32)
        ensures
            final(self)@ == with_axis(old(self)@, axis, bits),
    {
        match axis {
            Axis::JoyX => self.joyx = bits,
            Axis::JoyY => self.joyy = bits,
            Axis::CamX => self.camx = bits,
            Axis::CamY => self.camy = bits,
            Axis::TrgL => self.trgl = bits,
            Axis::TrgR => self.trgr = bits,
        }
    }

    /// Exchange buttons `a` and `b`.
    pub fn mod_swap_btn(&mut self, a: u8, b: u8)
        requires
            a < 64,
            b < 64,
        ensures
            final(self)@ == swap_btns(old(self)@, a, b),
    {
        let new_b = self.btn(a).unwrap();
        let new_a = self.btn(b).unwrap();
        if new_a {
            self.btns = self.btns | (1u64 << a);
        } else {
            self.btns = self.btns & !(1u64 << a);
        }
        if new_b {
            self.btns = self.btns | (1u64 << b);
        } else {
            self.btns = self.btns & !(1u64 << b);
        }
    }

    /// Exchange X and Y of the main joystick.
    pub fn mod_swap_joy(&mut self)
        ensures
            final(self)@ == swap_joy(old(self)@),
    {
        let x = self.joyx;
        self.joyx = self.joyy;
        self.joyy = x;
    }

    /// Copy the left trigger's value to the camera stick's Y (pitch).
    pub fn mod_l2pitch(&mut self)
        ensures
            final(self)@ == (DeviceView { camy: old(self)@.trgl, ..old(self)@ }),
    {
        self.camy = self.trgl;
    }

    /// Press L while the left trigger is pushed beyond `0.99` and release it
    /// otherwise; the same for R and the right trigger.
    pub fn mod_t2lr(&mut self)
        ensures
            final(self)@ == triggers_to_buttons(old(self)@),
    {
        let l = u8::from(Btn::L);
        let r = u8::from(Btn::R);
        if f32_lt(NEARLY_ONE_F32, self.trgl) {
            self.btns = self.btns | (1u64 << l);
        } else {
            self.btns = self.btns & !(1u64 << l);
        }
        if f32_lt(NEARLY_ONE_F32, self.trgr) {
            self.btns = self.btns | (1u64 << r);
        } else {
            self.btns = self.btns & !(1u64 << r);
        }
    }

    /// Expand the axes of old controllers such as the GameCube's. `scaled`
    /// holds each axis multiplied by `0.75` (the caller does the `f32`
    /// product); each result is then limited to the axis' range, `-1.0..=1.0`
    /// for the sticks and `0.0..=1.0` for the triggers, so that a centred
    /// axis stays at `0.0`.
    pub fn mod_expand(&mut self, scaled: ScaledAxes)
        ensures
            final(self)@ == expanded(old(self)@, scaled),
    {
        self.joyx = f32_clamp(scaled.joyx, MINUS_ONE_F32, ONE_F32);
        self.joyy = f32_clamp(scaled.joyy, MINUS_ONE_F32, ONE_F32);
        self.camx = f32_clamp(scaled.camx, MINUS_ONE_F32, ONE_F32);
        self.camy = f32_clamp(scaled.camy, MINUS_ONE_F32, ONE_F32);
        self.trgl = f32_clamp(scaled.trgl, 0, ONE_F32);
        self.trgr = f32_clamp(scaled.trgr, 0, ONE_F32);
    }
}

/// The six axes of a device, each already multiplied by the expansion factor
/// `0.75` (`f32` bit patterns).
#[derive(Clone, Copy, Debug, PartialEq, Eq)]
pub struct ScaledAxes {
    pub joyx: u32,
    pub joyy: u32,
    pub camx: u32,
    pub camy: u32,
    pub trgl: u32,
    pub trgr: u32,
}

/// A device after [`Device::mod_expand`] with the scaled axes `s`.
pub open spec fn expanded(d: DeviceView, s: ScaledAxes) -> DeviceView {
    DeviceView {
        joyx: clamp_f32(s.joyx, MINUS_ONE_F32, ONE_F32),
        joyy: clamp_f32(s.joyy, MINUS_ONE_F32, ONE_F32),
        camx: clamp_f32(s.camx, MINUS_ONE_F32, ONE_F32),
        camy: clamp_f32(s.camy, MINUS_ONE_F32, ONE_F32),
        trgl: clamp_f32(s.trgl, 0, ONE_F32),
        trgr: clamp_f32(s.trgr, 0, ONE_F32),
        ..d
    }
}

/// Expansion keeps a centred axis at `0.0` and leaves every stick axis in
/// `-1.0..=1.0` and every trigger in `0.0..=1.0`.
pub proof fn lemma_expand_centre_and_range(d: DeviceView, s: ScaledAxes)
    ensures
        s.joyx == 0 ==> expanded(d, s).joyx == 0,
        s.joyy == 0 ==> expanded(d, s).joyy == 0,
        s.camx == 0 ==> expanded(d, s).camx == 0,
        s.camy == 0 ==> expanded(d, s).camy == 0,
        s.trgl == 0 ==> expanded(d, s).trgl == 0,
        s.trgr == 0 ==> expanded(d, s).trgr == 0,
        !lt_f32(expanded(d, s).joyx, MINUS_ONE_F32) && !lt_f32(ONE_F32, expanded(d, s).joyx),
        !lt_f32(expanded(d, s).joyy, MINUS_ONE_F32) && !lt_f32(ONE_F32, expanded(d, s).joyy),
        !lt_f32(expanded(d, s).camx, MINUS_ONE_F32) && !lt_f32(ONE_F32, expanded(d, s).camx),
        !lt_f32(expanded(d, s).camy, MINUS_ONE_F32) && !lt_f32(ONE_F32, expanded(d, s).camy),
        !lt_f32(expanded(d, s).trgl, 0) && !lt_f32(ONE_F32, expanded(d, s).trgl),
        !lt_f32(expanded(d, s).trgr, 0) && !lt_f32(ONE_F32, expanded(d, s).trgr),
{
    assert(0u32 & F32_MAGNITUDE == 0) by (bit_vector);
    assert(MINUS_ONE_F32 & F32_MAGNITUDE == 0x3F80_0000) by (bit_vector);
    assert(MINUS_ONE_F32 & F32_SIGN != 0) by (bit_vector);
    assert(ONE_F32 & F32_MAGNITUDE == 0x3F80_0000) by (bit_vector);
    assert(ONE_F32 & F32_SIGN == 0) by (bit_vector);
    assert(0u32 & F32_SIGN == 0) by (bit_vector);
}

/// What the platform reports of a plugged-in device: its hardware id and
/// the raw range of its axes.
#[derive(Clone, Copy, Debug, PartialEq, Eq, Structural)]
pub struct StickInfo {
    pub hardware_id: u32,
    pub abs_min: i32,
    pub abs_max: i32,
}

/// A device freshly plugged in at index `index`: axes at zero, no button
/// pressed.
pub open spec fn plugged_device(index: int, info: StickInfo) -> DeviceView {
    DeviceView {
        native_handle: index as u32,
        hardware_id: info.hardware_id,
        abs_min: info.abs_min,
        abs_max: info.abs_max,
        ..empty_device()
    }
}

/// `s` after the device described by `info` is plugged in at index `index`:
/// the list grows with empty devices up to that index where it is shorter,
/// and the device takes that place.
pub open spec fn spec_add_stick(s: Seq<DeviceView>, index: int, info: StickInfo) -> Seq<DeviceView> {
    let grown = if s.len() <= index {
        s + Seq::new((index + 1 - s.len()) as nat, |i: int| empty_device())
    } else {
        s
    };
    grown.update(index, plugged_device(index, info))
}

/// An interface to all joystick, gamepad and controller devices.
pub struct Port {
    controllers: Vec<Device>,
}

impl View for Port {
    type V = Seq<DeviceView>;

    closed spec fn view(&self) -> Seq<DeviceView> {
        self.controllers@.map_values(|d: Device| d@)
    }
}

impl Port {
    /// An interface to the devices currently plugged in, `sticks[i]`
    /// describing the device at index `i`.
    pub fn new(sticks: &[StickInfo]) -> (r: Port)
        ensures
            r@.len() == sticks@.len(),
            forall|i: int| 0 <= i < sticks@.len() ==> r@[i] == plugged_device(i, sticks@[i]),
    {
        let mut port = Port { controllers: Vec::new() };
        let mut i: usize = 0;
        while i < sticks.len()
            invariant
                i <= sticks@.len(),
                port@.len() == i,
                forall|j: int| 0 <= j < i ==> port@[j] == plugged_device(j, sticks@[j]),
            decreases sticks@.len() - i,
        {
            let ghost before = port@;
            port.add_stick(i, sticks[i]);
            proof {
                assert(port@ =~= before.push(plugged_device(i as int, sticks@[i as int])));
            }
            i = i + 1;
        }
        port
    }

    /// Record the device described by `info` as plugged in at index
    /// `index`, growing the list with empty devices where it is shorter.
    pub fn add_stick(&mut self, index: usize, info: StickInfo)
        requires
            index < usize::MAX,
        ensures
            final(self)@ == spec_add_stick(old(self)@, index as int, info),
    {
        let ghost s = self@;
        while self.controllers.len() <= index
            invariant
                index < usize::MAX,
                s.len() <= self@.len() <= index + 1 || (s.len() > index && self@.len() == s.len()),
                self@ =~= (if s.len() <= index {
                    s + Seq::new((self@.len() - s.len()) as nat, |i: int| empty_device())
                } else {
                    s
                }),
            decreases index + 1 - self.controllers.len(),
        {
            let ghost before = self@;
            self.controllers.push(Device::default());
            proof {
                assert(self@ =~= before.push(empty_device()));
            }
        }
        let device = Device {
            native_handle: index as u32,
            hardware_id: info.hardware_id,
            abs_min: info.abs_min,
            abs_max: info.abs_max,
            joyx: 0,
            joyy: 0,
            camx: 0,
            camy: 0,
            trgl: 0,
            trgr: 0,
            btns: 0,
        };
        self.controllers.set(index, device);
        proof {
            assert(self@ =~= spec_add_stick(s, index as int, info));
        }
    }

    /// Number of devices.
    pub fn len(&self) -> (r: usize)
        ensures
            r == self@.len(),
    {
        self.controllers.len()
    }

    /// The state of device `stick`.
    pub fn get(&self, stick: u16) -> (r: &Device)
        requires
            stick < self@.len(),
        ensures
            r@ == self@[stick as int],
    {
        &self.controllers[stick as usize]
    }

    /// Exchange devices `a` and `b`; useful when, in a game, players one and
    /// two swap controllers.
    pub fn swap(&mut self, a: u16, b: u16)
        requires
            a < old(self)@.len(),
            b < old(self)@.len(),
        ensures
            final(self)@ == old(self)@.update(a as int, old(self)@[b as int]).update(
                b as int,
                old(self)@[a as int],
            ),
    {
        let da = self.controllers[a as usize];
        let db = self.controllers[b as usize];
        self.controllers.set(a as usize, db);
        self.controllers.set(b as usize, da);
        proof {
            assert(self@ =~= old(self)@.update(a as int, old(self)@[b as int]).update(
                b as int,
                old(self)@[a as int],
            ));
        }
    }

    /// The name of device `a`, as the platform reports it (`reported`);
    /// "Unknown" where the platform reports none.
    pub fn name(&self, a: u16, reported: Option<&str>) -> (r: String)
        ensures
            r@ == match reported {
                Some(n) => n@,
                None => "Unknown"@,
            },
    {
        match reported {
            Some(n) => n.to_owned(),
            None => "Unknown".to_owned(),
        }
    }

    /// Apply a platform event to device `stick` (see [`Device::apply_event`]).
    pub fn apply_event(&mut self, stick: u16, ev_type: i16, ev_code: i16, ev_value: i32) -> (r:
        Option<AxisWrite>)
        requires
            stick < old(self)@.len(),
            event_defined(old(self)@[stick as int], ev_type, ev_code, ev_value),
        ensures
            final(self)@ == old(self)@.update(
                stick as int,
                spec_apply(old(self)@[stick as int], ev_type, ev_code, ev_value).0,
            ),
            r == spec_apply(old(self)@[stick as int], ev_type, ev_code, ev_value).1,
    {
        let mut d = self.controllers[stick as usize];
        let r = d.apply_event(ev_type, ev_code, ev_value);
        self.controllers.set(stick as usize, d);
        proof {
            assert(self@ =~= old(self)@.update(
                stick as int,
                spec_apply(old(self)@[stick as int], ev_type, ev_code, ev_value).0,
            ));
        }
        r
    }

    /// Set axis `axis` of device `stick` to the `f32` bit pattern `bits`.
    pub fn set_axis(&mut self, stick: u16, axis: Axis, bits: u32)
        requires
            stick < old(self)@.len(),
        ensures
            final(self)@ == old(self)@.update(stick as int, with_axis(old(self)@[stick as int], axis, bits)),
    {
        let mut d = self.controllers[stick as usize];
        d.set_axis(axis, bits);
        self.controllers.set(stick as usize, d);
        proof {
            assert(self@ =~= old(self)@.update(stick as int, with_axis(old(self)@[stick as int], axis, bits)));
        }
    }
}

/// Exchanging the same two buttons twice gives back the device as it was.
pub proof fn lemma_swap_btns_twice(d: DeviceView, a: u8, b: u8)
    requires
        a < 64,
        b < 64,
    ensures
        swap_btns(swap_btns(d, a, b), a, b) == d,
{
    let x = d.btns;
    let i = a as u64;
    let j = b as u64;
    assert({
        let y = with_bit(with_bit(x, i, bit_of(x, j)), j, bit_of(x, i));
        with_bit(with_bit(y, i, bit_of(y, j)), j, bit_of(y, i)) == x
    }) by (bit_vector)
        requires
            i < 64,
            j < 64,
    ;
}

/// Exchanging buttons `a` and `b` is the same as exchanging `b` and `a`.
pub proof fn lemma_swap_btns_symmetric(d: DeviceView, a: u8, b: u8)
    requires
        a < 64,
        b < 64,
    ensures
        swap_btns(d, a, b) == swap_btns(d, b, a),
{
    let x = d.btns;
    let i = a as u64;
    let j = b as u64;
    assert(with_bit(with_bit(x, i, bit_of(x, j)), j, bit_of(x, i)) == with_bit(
        with_bit(x, j, bit_of(x, i)),
        i,
        bit_of(x, j),
    )) by (bit_vector)
        requires
            i < 64,
            j < 64,
    ;
}

/// Exchanging the axes of the main joystick twice gives back the device as
/// it was.
pub proof fn lemma_swap_joy_twice(d: DeviceView)
    ensures
        swap_joy(swap_joy(d)) == d,
{
}

/// A hat event never leaves both buttons of one of its directions pressed:
/// after horizontal hat event (code 16) Left and Right are not both
/// pressed, and after a vertical one (code 17) Up and Down are not; the
/// pressed one is on the side of the value's sign, and a zero value releases
/// both.
pub proof fn lemma_hat_exclusive(d: DeviceView, code: i16, value: i32)
    requires
        code == 16 || code == 17,
    ensures
        ({
            let n = spec_apply(d, 3, code, value).0.btns;
            let (lo, hi): (u64, u64) = if code == 16 { (0, 1) } else { (2, 3) };
            &&& bit_of(n, lo) == (value < 0)
            &&& bit_of(n, hi) == (value > 0)
            &&& !(bit_of(n, lo) && bit_of(n, hi))
        }),
{
    let (lo, hi): (u64, u64) = if code == 16 { (0, 1) } else { (2, 3) };
    lemma_with_bit(d.btns, lo, value < 0, lo);
    lemma_with_bit(with_bit(d.btns, lo, value < 0), hi, value > 0, lo);
    lemma_with_bit(with_bit(d.btns, lo, value < 0), hi, value > 0, hi);
}

/// A key event sets the button of its key, pressed exactly when the value
/// is 1, and leaves every other button and every axis as it was.
pub proof fn lemma_key_event(d: DeviceView, code: i16, value: i32, j: u64)
    requires
        key_button(d.hardware_id, code - 0x120) is Some,
        j < 64,
    ensures
        ({
            let n = spec_apply(d, 1, code, value).0;
            let b = btn_bit(key_button(d.hardware_id, code - 0x120)->0) as u64;
            &&& bit_of(n.btns, j) == if j == b { value == 1 } else { bit_of(d.btns, j) }
            &&& n == (DeviceView { btns: n.btns, ..d })
        }),
{
    let b = btn_bit(key_button(d.hardware_id, code - 0x120)->0) as u64;
    lemma_with_bit(d.btns, b, value == 1, j);
}

/// Exchanging the same two devices twice gives back the port as it was.
pub proof fn lemma_port_swap_twice(s: Seq<DeviceView>, a: int, b: int)
    requires
        0 <= a < s.len(),
        0 <= b < s.len(),
    ensures
        ({
            let t = s.update(a, s[b]).update(b, s[a]);
            t.update(a, t[b]).update(b, t[a])
        }) == s,
{
    let t = s.update(a, s[b]).update(b, s[a]);
    assert(t.update(a, t[b]).update(b, t[a]) =~= s);
}

/// The level of a raw axis value always lies in `-127..=127`, and it is zero
/// in the dead zone.
pub proof fn lemma_transform_range(min: i32, max: i32, val: i32)
    ensures
        -127 <= spec_transform(min, max, val) <= 127,
        transform_defined(min, max, val) && spec_deadzone(min as int, max as int, val as int).0
            == 0 ==> spec_transform(min, max, val) == 0,
{
    let full = spec_deadzone(min as int, max as int, val as int).1;
    assert(full != 0 ==> 0int / full == 0) by (nonlinear_arith);
}

} // verus!
