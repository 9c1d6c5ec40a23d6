//! Controller events and their numeric identifiers.
//!
//! Every event has a one-byte identifier; the remapping database and
//! [`crate::controller::Controller`] work in terms of these identifiers.
//! Analog payloads are carried as the IEEE-754 bit pattern of an `f64`.

use vstd::prelude::*;
use crate::float_bits::is_zero_f64;

verus! {

/// Bit pattern of the `f64` value `1.0`.
pub const ONE_F64: u64 = 0x3FF0_0000_0000_0000;

/// Bit pattern of `f64::NAN`.
pub const NAN_F64: u64 = 0x7FF8_0000_0000_0000;

/// An event from a [`Controller`](crate::controller::Controller).
///
/// Analog payloads (`u64`) are the bit patterns of `f64` values.
#[derive(Debug, Clone, Copy, PartialEq, Eq, Structural)]
pub enum Event {
    /// Controller unplugged.
    Disconnect,
    /// Exit / Main / Home / Mode
    Exit(bool),
    /// A / 1 / 4 / Circle.  Action A (Primary action).
    ActionA(bool),
    /// B / 2 / 3 / Cross.  Action B (Secondary action).
    ActionB(bool),
    /// C.  Action C (Tertiary action).
    ActionC(bool),
    /// Y / X / Square.  Action H (Horizontal action).
    ActionH(bool),
    /// X / Y / Triangle.  Action V (Vertical action).
    ActionV(bool),
    /// Z (in 6-button layout).  Action D.
    ActionD(bool),
    /// Left Menu / Back / Select / Minus / Stop
    MenuL(bool),
    /// Right Menu / Forward / Start / Plus / Play
    MenuR(bool),
    /// Thumb Push Button On Main / Left Joystick
    Joy(bool),
    /// Thumb Push Button On Camera / Right Joystick
    Cam(bool),
    /// Left shoulder button (near button if no trigger)
    BumperL(bool),
    /// Right shoulder button (near button if no trigger)
    BumperR(bool),
    /// Left Bumper Trigger (far button if no trigger) - between 0.0 and 1.0
    TriggerL(u64),
    /// Right Bumper Trigger (far button if no trigger) - between 0.0 and 1.0
    TriggerR(u64),
    /// D-Pad Up
    Up(bool),
    /// D-Pad Down
    Down(bool),
    /// D-Pad Left
    Left(bool),
    /// D-Pad Right
    Right(bool),
    /// Extra Hat Up
    HatUp(bool),
    /// Extra Hat Down
    HatDown(bool),
    /// Extra Hat Left
    HatLeft(bool),
    /// Extra Hat Right
    HatRight(bool),
    /// Mic Hat Up
    MicUp(bool),
    /// Mic Hat Down
    MicDown(bool),
    /// Mic Hat Left
    MicLeft(bool),
    /// Mic Hat Right
    MicRight(bool),
    /// POV/Main Hat Up
    PovUp(bool),
    /// POV/Main Hat Down
    PovDown(bool),
    /// POV/Main Hat Left
    PovLeft(bool),
    /// POV/Main Hat Right
    PovRight(bool),
    /// Main stick horizontal axis (A / D) - between -1.0 and 1.0
    JoyX(u64),
    /// Main stick vertical / depth axis (W / S) - between -1.0 and 1.0
    JoyY(u64),
    /// Main stick rotation / yaw axis - between -1.0 and 1.0
    JoyZ(u64),
    /// Secondary stick X axis (Mouse X Position) - between -1.0 and 1.0
    CamX(u64),
    /// Secondary stick Y axis (Mouse Y Position) - between -1.0 and 1.0
    CamY(u64),
    /// Secondary stick Z axis - between -1.0 and 1.0
    CamZ(u64),
    /// Slew Control - between 0.0 and 1.0
    Slew(u64),
    /// Stationary throttle (0.0 is forward, 1.0 is backward)
    Throttle(u64),
    /// Left stationary throttle (0.0 is forward, 1.0 is backward)
    ThrottleL(u64),
    /// Right stationary throttle (0.0 is forward, 1.0 is backward)
    ThrottleR(u64),
    /// Volume axis (0.0 is off, 1.0 is full volume)
    Volume(u64),
    /// Steering wheel - between 0.0 and 1.0
    Wheel(u64),
    /// Ship rudder - between 0.0 and 1.0
    Rudder(u64),
    /// Gas Pedal - between 0.0 and 1.0
    Gas(u64),
    /// Brake Pedal - between 0.0 and 1.0
    Brake(u64),
    /// Mic Hat Push Button
    MicPush(bool),
    /// Flightstick trigger button on the back.
    Trigger(bool),
    /// Flightstick Side Bumper Button
    Bumper(bool),
    /// Flightstick Top Left Action Button
    ActionL(bool),
    /// Flightstick Top Middle Action Button
    ActionM(bool),
    /// Flightstick Top Right Action Button
    ActionR(bool),
    /// Pinky Button
    Pinky(bool),
    /// Pinky three-way switch Forward.
    PinkyForward(bool),
    /// Pinky three-way switch Backward.
    PinkyBackward(bool),
    /// Flaps three-way switch Forward.
    FlapsUp(bool),
    /// Flaps three-way switch Backward.
    FlapsDown(bool),
    /// Boat three-way switch Forward.
    BoatForward(bool),
    /// Boat three-way switch Backward.
    BoatBackward(bool),
    /// Autopilot three-way switch Forward.
    AutopilotPath(bool),
    /// Autopilot three-way switch Backward.
    AutopilotAlt(bool),
    /// Left Engine Operate three-way switch Backward.
    EngineMotorL(bool),
    /// Right Engine Operate three-way switch Backward.
    EngineMotorR(bool),
    /// Engine Fuel Flow Left two-way switch
    EngineFuelFlowL(bool),
    /// Engine Fuel Flow Right two-way switch
    EngineFuelFlowR(bool),
    /// Left Engine Operate three-way switch Forward.
    EngineIgnitionL(bool),
    /// Right Engine Operate three-way switch Forward.
    EngineIgnitionR(bool),
    /// Speedbrake three-way switch Backward.
    SpeedbrakeBackward(bool),
    /// Speedbrake three-way switch Forward.
    SpeedbrakeForward(bool),
    /// China hat three-way switch Backward.
    ChinaBackward(bool),
    /// China hat three-way switch Forward.
    ChinaForward(bool),
    /// APU (Auxiliary Power Unit) two-way switch
    Apu(bool),
    /// Radar Altimeter two-way switch (Altitude measurements)
    RadarAltimeter(bool),
    /// Landing Gear Horn Silence Button
    LandingGearSilence(bool),
    /// EAC (Enhanced Attitude Control - Autopilot) two-way switch
    Eac(bool),
    /// Autopilot Toggle Button
    AutopilotToggle(bool),
    /// Throttle button (Left)
    ThrottleButton(bool),
    /// Mouse delta position horizontal - between -1.0 and 1.0
    MouseX(u64),
    /// Mouse delta position vertical - between -1.0 and 1.0
    MouseY(u64),
    /// Mouse primary button
    Mouse(bool),
    /// Numbered or unlabeled programmable action buttons (If unlabelled,
    /// prefer numbering from left to right, upper to lower)
    Number(i8, bool),
    /// Back left grip button (upper if there are two)
    PaddleLeft(bool),
    /// Back right grip button (upper if there are two)
    PaddleRight(bool),
    /// Left Pinky Button / Back lower right grip button
    PinkyLeft(bool),
    /// Right Pinky Button / Back lower left grip button
    PinkyRight(bool),
    /// Context Menu Button on a mouse (Right Click)
    Context(bool),
    /// DPI Button on a mouse
    Dpi(bool),
    /// Scroll Wheel X on a mouse - between -1.0 and 1.0
    ScrollX(u64),
    /// Scroll Wheel Y on a mouse - between -1.0 and 1.0
    ScrollY(u64),
    /// Scroll Button on a mouse
    Scroll(bool),
    /// Trim Hat Up
    TrimUp(bool),
    /// Trim Hat Down
    TrimDown(bool),
    /// Trim Hat Left
    TrimLeft(bool),
    /// Trim Hat Right
    TrimRight(bool),
    /// Horizontal axis under the action buttons - between -1.0 and 1.0
    ActionWheelX(u64),
    /// Vertical axis under the action buttons - between -1.0 and 1.0
    ActionWheelY(u64),
}

/// The `f64` bit pattern of a pressed (`1.0`) or released (`0.0`) button.
pub open spec fn bool_bits(p: bool) -> u64 {
    if p { ONE_F64 } else { 0 }
}

/// Identifier and value of an event, as the remapping database numbers them.
pub open spec fn spec_to_id(e: Event) -> (u8, u64) {
    match e {
        Event::Disconnect => (0x00, NAN_F64),
        Event::Exit(p) => (0x01, bool_bits(p)),
        Event::ActionA(p) => (0x02, bool_bits(p)),
        Event::ActionB(p) => (0x03, bool_bits(p)),
        Event::ActionC(p) => (0x04, bool_bits(p)),
        Event::ActionH(p) => (0x05, bool_bits(p)),
        Event::ActionV(p) => (0x06, bool_bits(p)),
        Event::ActionD(p) => (0x07, bool_bits(p)),
        Event::MenuL(p) => (0x08, bool_bits(p)),
        Event::MenuR(p) => (0x09, bool_bits(p)),
        Event::Joy(p) => (0x0A, bool_bits(p)),
        Event::Cam(p) => (0x0B, bool_bits(p)),
        Event::BumperL(p) => (0x0C, bool_bits(p)),
        Event::BumperR(p) => (0x0D, bool_bits(p)),
        Event::TriggerL(v) => (0x0E, v),
        Event::TriggerR(v) => (0x0F, v),
        Event::Up(p) => (0x10, bool_bits(p)),
        Event::Down(p) => (0x11, bool_bits(p)),
        Event::Left(p) => (0x12, bool_bits(p)),
        Event::Right(p) => (0x13, bool_bits(p)),
        Event::HatUp(p) => (0x14, bool_bits(p)),
        Event::HatDown(p) => (0x15, bool_bits(p)),
        Event::HatLeft(p) => (0x16, bool_bits(p)),
        Event::HatRight(p) => (0x17, bool_bits(p)),
        Event::MicUp(p) => (0x18, bool_bits(p)),
        Event::MicDown(p) => (0x19, bool_bits(p)),
        Event::MicLeft(p) => (0x1A, bool_bits(p)),
        Event::MicRight(p) => (0x1B, bool_bits(p)),
        Event::PovUp(p) => (0x1C, bool_bits(p)),
        Event::PovDown(p) => (0x1D, bool_bits(p)),
        Event::PovLeft(p) => (0x1E, bool_bits(p)),
        Event::PovRight(p) => (0x1F, bool_bits(p)),
        Event::JoyX(v) => (0x20, v),
        Event::JoyY(v) => (0x21, v),
        Event::JoyZ(v) => (0x22, v),
        Event::CamX(v) => (0x23, v),
        Event::CamY(v) => (0x24, v),
        Event::CamZ(v) => (0x25, v),
        Event::Slew(v) => (0x26, v),
        Event::Throttle(v) => (0x27, v),
        Event::ThrottleL(v) => (0x28, v),
        Event::ThrottleR(v) => (0x29, v),
        Event::Volume(v) => (0x2A, v),
        Event::Wheel(v) => (0x2B, v),
        Event::Rudder(v) => (0x2C, v),
        Event::Gas(v) => (0x2D, v),
        Event::Brake(v) => (0x2E, v),
        Event::MicPush(p) => (0x2F, bool_bits(p)),
        Event::Trigger(p) => (0x30, bool_bits(p)),
        Event::Bumper(p) => (0x31, bool_bits(p)),
        Event::ActionL(p) => (0x32, bool_bits(p)),
        Event::ActionM(p) => (0x33, bool_bits(p)),
        Event::ActionR(p) => (0x34, bool_bits(p)),
        Event::Pinky(p) => (0x35, bool_bits(p)),
        Event::PinkyForward(p) => (0x36, bool_bits(p)),
        Event::PinkyBackward(p) => (0x37, bool_bits(p)),
        Event::FlapsUp(p) => (0x38, bool_bits(p)),
        Event::FlapsDown(p) => (0x39, bool_bits(p)),
        Event::BoatForward(p) => (0x3A, bool_bits(p)),
        Event::BoatBackward(p) => (0x3B, bool_bits(p)),
        Event::AutopilotPath(p) => (0x3C, bool_bits(p)),
        Event::AutopilotAlt(p) => (0x3D, bool_bits(p)),
        Event::EngineMotorL(p) => (0x3E, bool_bits(p)),
        Event::EngineMotorR(p) => (0x3F, bool_bits(p)),
        Event::EngineFuelFlowL(p) => (0x40, bool_bits(p)),
        Event::EngineFuelFlowR(p) => (0x41, bool_bits(p)),
        Event::EngineIgnitionL(p) => (0x42, bool_bits(p)),
        Event::EngineIgnitionR(p) => (0x43, bool_bits(p)),
        Event::SpeedbrakeBackward(p) => (0x44, bool_bits(p)),
        Event::SpeedbrakeForward(p) => (0x45, bool_bits(p)),
        Event::ChinaBackward(p) => (0x46, bool_bits(p)),
        Event::ChinaForward(p) => (0x47, bool_bits(p)),
        Event::Apu(p) => (0x48, bool_bits(p)),
        Event::RadarAltimeter(p) => (0x49, bool_bits(p)),
        Event::LandingGearSilence(p) => (0x4A, bool_bits(p)),
        Event::Eac(p) => (0x4B, bool_bits(p)),
        Event::AutopilotToggle(p) => (0x4C, bool_bits(p)),
        Event::ThrottleButton(p) => (0x4D, bool_bits(p)),
        Event::MouseX(v) => (0x4E, v),
        Event::MouseY(v) => (0x4F, v),
        Event::Mouse(p) => (0x50, bool_bits(p)),
        Event::Number(n, p) => ((n as u8) | 0x80, bool_bits(p)),
        Event::PaddleLeft(p) => (0x51, bool_bits(p)),
        Event::PaddleRight(p) => (0x52, bool_bits(p)),
        Event::PinkyLeft(p) => (0x53, bool_bits(p)),
        Event::PinkyRight(p) => (0x54, bool_bits(p)),
        Event::Context(p) => (0x55, bool_bits(p)),
        Event::Dpi(p) => (0x56, bool_bits(p)),
        Event::ScrollX(v) => (0x57, v),
        Event::ScrollY(v) => (0x58, v),
        Event::Scroll(p) => (0x59, bool_bits(p)),
        Event::TrimUp(p) => (0x5A, bool_bits(p)),
        Event::TrimDown(p) => (0x5B, bool_bits(p)),
        Event::TrimLeft(p) => (0x5C, bool_bits(p)),
        Event::TrimRight(p) => (0x5D, bool_bits(p)),
        Event::ActionWheelX(v) => (0x5E, v),
        Event::ActionWheelY(v) => (0x5F, v),
    }
}

/// Identifiers whose events carry an analog value.
pub open spec fn is_axis_id(id: u8) -> bool {
    id == 0x0E || id == 0x0F || id == 0x20 || id == 0x21 || id == 0x22 || id == 0x23 || id == 0x24 || id == 0x25 || id == 0x26 || id == 0x27 || id == 0x28 || id == 0x29 || id == 0x2A || id == 0x2B || id == 0x2C || id == 0x2D || id == 0x2E || id == 0x4E || id == 0x4F || id == 0x57 || id == 0x58 || id == 0x5E || id == 0x5F
}

/// The identifier that an event built from `id` reports: identifiers from
/// `0x60` up all denote numbered buttons, which report their number with the
/// high bit set.
pub open spec fn canonical_id(id: u8) -> u8 {
    if id >= 0x60 { id | 0x80 } else { id }
}

/// The value that an event built from `id` and `v` reports: analog events keep
/// `v`, the others keep whether `v` differs from zero.
pub open spec fn canonical_value(id: u8, v: u64) -> u64 {
    if id == 0 {
        NAN_F64
    } else if is_axis_id(id) {
        v
    } else {
        bool_bits(!is_zero_f64(v))
    }
}

/// `e` is the event that identifier `id` with value `v` stands for.
pub open spec fn is_event_from(e: Event, id: u8, v: u64) -> bool {
    &&& spec_to_id(e) == (canonical_id(id), canonical_value(id, v))
    &&& (e matches Event::Number(n, _) ==> n >= 0)
}

/// Whether an `f64` bit pattern is non-zero as a button state (`!= 0.0`).
pub fn pressed(v: u64) -> (r: bool)
    ensures
        r == !is_zero_f64(v),
{
    v & 0x7FFF_FFFF_FFFF_FFFF != 0
}

/// The `f64` bit pattern of a button state.
pub fn button_bits(p: bool) -> (r: u64)
    ensures
        r == bool_bits(p),
{
    if p { ONE_F64 } else { 0 }
}

impl Event {
    /// Build the event that identifier `id` stands for, with value `value`.
    pub fn from_id(id: u8, value: u64) -> (r: Event)
        ensures
            is_event_from(r, id, value),
    {
        let p = pressed(value);
        match id {
            0x00 => Event::Disconnect,
            0x01 => Event::Exit(p),
            0x02 => Event::ActionA(p),
            0x03 => Event::ActionB(p),
            0x04 => Event::ActionC(p),
            0x05 => Event::ActionH(p),
            0x06 => Event::ActionV(p),
            0x07 => Event::ActionD(p),
            0x08 => Event::MenuL(p),
            0x09 => Event::MenuR(p),
            0x0A => Event::Joy(p),
            0x0B => Event::Cam(p),
            0x0C => Event::BumperL(p),
            0x0D => Event::BumperR(p),
            0x0E => Event::TriggerL(value),
            0x0F => Event::TriggerR(value),
            0x10 => Event::Up(p),
            0x11 => Event::Down(p),
            0x12 => Event::Left(p),
            0x13 => Event::Right(p),
            0x14 => Event::HatUp(p),
            0x15 => Event::HatDown(p),
            0x16 => Event::HatLeft(p),
            0x17 => Event::HatRight(p),
            0x18 => Event::MicUp(p),
            0x19 => Event::MicDown(p),
            0x1A => Event::MicLeft(p),
            0x1B => Event::MicRight(p),
            0x1C => Event::PovUp(p),
            0x1D => Event::PovDown(p),
            0x1E => Event::PovLeft(p),
            0x1F => Event::PovRight(p),
            0x20 => Event::JoyX(value),
            0x21 => Event::JoyY(value),
            0x22 => Event::JoyZ(value),
            0x23 => Event::CamX(value),
            0x24 => Event::CamY(value),
            0x25 => Event::CamZ(value),
            0x26 => Event::Slew(value),
            0x27 => Event::Throttle(value),
            0x28 => Event::ThrottleL(value),
            0x29 => Event::ThrottleR(value),
            0x2A => Event::Volume(value),
            0x2B => Event::Wheel(value),
            0x2C => Event::Rudder(value),
            0x2D => Event::Gas(value),
            0x2E => Event::Brake(value),
            0x2F => Event::MicPush(p),
            0x30 => Event::Trigger(p),
            0x31 => Event::Bumper(p),
            0x32 => Event::ActionL(p),
            0x33 => Event::ActionM(p),
            0x34 => Event::ActionR(p),
            0x35 => Event::Pinky(p),
            0x36 => Event::PinkyForward(p),
            0x37 => Event::PinkyBackward(p),
            0x38 => Event::FlapsUp(p),
            0x39 => Event::FlapsDown(p),
            0x3A => Event::BoatForward(p),
            0x3B => Event::BoatBackward(p),
            0x3C => Event::AutopilotPath(p),
            0x3D => Event::AutopilotAlt(p),
            0x3E => Event::EngineMotorL(p),
            0x3F => Event::EngineMotorR(p),
            0x40 => Event::EngineFuelFlowL(p),
            0x41 => Event::EngineFuelFlowR(p),
            0x42 => Event::EngineIgnitionL(p),
            0x43 => Event::EngineIgnitionR(p),
            0x44 => Event::SpeedbrakeBackward(p),
            0x45 => Event::SpeedbrakeForward(p),
            0x46 => Event::ChinaBackward(p),
            0x47 => Event::ChinaForward(p),
            0x48 => Event::Apu(p),
            0x49 => Event::RadarAltimeter(p),
            0x4A => Event::LandingGearSilence(p),
            0x4B => Event::Eac(p),
            0x4C => Event::AutopilotToggle(p),
            0x4D => Event::ThrottleButton(p),
            0x4E => Event::MouseX(value),
            0x4F => Event::MouseY(value),
            0x50 => Event::Mouse(p),
            0x51 => Event::PaddleLeft(p),
            0x52 => Event::PaddleRight(p),
            0x53 => Event::PinkyLeft(p),
            0x54 => Event::PinkyRight(p),
            0x55 => Event::Context(p),
            0x56 => Event::Dpi(p),
            0x57 => Event::ScrollX(value),
            0x58 => Event::ScrollY(value),
            0x59 => Event::Scroll(p),
            0x5A => Event::TrimUp(p),
            0x5B => Event::TrimDown(p),
            0x5C => Event::TrimLeft(p),
            0x5D => Event::TrimRight(p),
            0x5E => Event::ActionWheelX(value),
            0x5F => Event::ActionWheelY(value),
            n => {
                let num: u8 = n & 0x7F;
                proof {
                    assert(n >= 0x60 ==> ((n & 0x7F) as i8) as u8 | 0x80 == n | 0x80) by (bit_vector);
                    assert((n & 0x7F) < 0x80) by (bit_vector);
                }
                Event::Number(num as i8, p)
            }
        }
    }

    /// The identifier of this event and its value as an `f64` bit pattern.
    pub fn to_id(self) -> (r: (u8, u64))
        ensures
            r == spec_to_id(self),
    {
        match self {
            Event::Disconnect => (0x00, NAN_F64),
            Event::Exit(p) => (0x01, button_bits(p)),
            Event::ActionA(p) => (0x02, button_bits(p)),
            Event::ActionB(p) => (0x03, button_bits(p)),
            Event::ActionC(p) => (0x04, button_bits(p)),
            Event::ActionH(p) => (0x05, button_bits(p)),
            Event::ActionV(p) => (0x06, button_bits(p)),
            Event::ActionD(p) => (0x07, button_bits(p)),
            Event::MenuL(p) => (0x08, button_bits(p)),
            Event::MenuR(p) => (0x09, button_bits(p)),
            Event::Joy(p) => (0x0A, button_bits(p)),
            Event::Cam(p) => (0x0B, button_bits(p)),
            Event::BumperL(p) => (0x0C, button_bits(p)),
            Event::BumperR(p) => (0x0D, button_bits(p)),
            Event::TriggerL(v) => (0x0E, v),
            Event::TriggerR(v) => (0x0F, v),
            Event::Up(p) => (0x10, button_bits(p)),
            Event::Down(p) => (0x11, button_bits(p)),
            Event::Left(p) => (0x12, button_bits(p)),
            Event::Right(p) => (0x13, button_bits(p)),
            Event::HatUp(p) => (0x14, button_bits(p)),
            Event::HatDown(p) => (0x15, button_bits(p)),
            Event::HatLeft(p) => (0x16, button_bits(p)),
            Event::HatRight(p) => (0x17, button_bits(p)),
            Event::MicUp(p) => (0x18, button_bits(p)),
            Event::MicDown(p) => (0x19, button_bits(p)),
            Event::MicLeft(p) => (0x1A, button_bits(p)),
            Event::MicRight(p) => (0x1B, button_bits(p)),
            Event::PovUp(p) => (0x1C, button_bits(p)),
            Event::PovDown(p) => (0x1D, button_bits(p)),
            Event::PovLeft(p) => (0x1E, button_bits(p)),
            Event::PovRight(p) => (0x1F, button_bits(p)),
            Event::JoyX(v) => (0x20, v),
            Event::JoyY(v) => (0x21, v),
            Event::JoyZ(v) => (0x22, v),
            Event::CamX(v) => (0x23, v),
            Event::CamY(v) => (0x24, v),
            Event::CamZ(v) => (0x25, v),
            Event::Slew(v) => (0x26, v),
            Event::Throttle(v) => (0x27, v),
            Event::ThrottleL(v) => (0x28, v),
            Event::ThrottleR(v) => (0x29, v),
            Event::Volume(v) => (0x2A, v),
            Event::Wheel(v) => (0x2B, v),
            Event::Rudder(v) => (0x2C, v),
            Event::Gas(v) => (0x2D, v),
            Event::Brake(v) => (0x2E, v),
            Event::MicPush(p) => (0x2F, button_bits(p)),
            Event::Trigger(p) => (0x30, button_bits(p)),
            Event::Bumper(p) => (0x31, button_bits(p)),
            Event::ActionL(p) => (0x32, button_bits(p)),
            Event::ActionM(p) => (0x33, button_bits(p)),
            Event::ActionR(p) => (0x34, button_bits(p)),
            Event::Pinky(p) => (0x35, button_bits(p)),
            Event::PinkyForward(p) => (0x36, button_bits(p)),
            Event::PinkyBackward(p) => (0x37, button_bits(p)),
            Event::FlapsUp(p) => (0x38, button_bits(p)),
            Event::FlapsDown(p) => (0x39, button_bits(p)),
            Event::BoatForward(p) => (0x3A, button_bits(p)),
            Event::BoatBackward(p) => (0x3B, button_bits(p)),
            Event::AutopilotPath(p) => (0x3C, button_bits(p)),
            Event::AutopilotAlt(p) => (0x3D, button_bits(p)),
            Event::EngineMotorL(p) => (0x3E, button_bits(p)),
            Event::EngineMotorR(p) => (0x3F, button_bits(p)),
            Event::EngineFuelFlowL(p) => (0x40, button_bits(p)),
            Event::EngineFuelFlowR(p) => (0x41, button_bits(p)),
            Event::EngineIgnitionL(p) => (0x42, button_bits(p)),
            Event::EngineIgnitionR(p) => (0x43, button_bits(p)),
            Event::SpeedbrakeBackward(p) => (0x44, button_bits(p)),
            Event::SpeedbrakeForward(p) => (0x45, button_bits(p)),
            Event::ChinaBackward(p) => (0x46, button_bits(p)),
            Event::ChinaForward(p) => (0x47, button_bits(p)),
            Event::Apu(p) => (0x48, button_bits(p)),
            Event::RadarAltimeter(p) => (0x49, button_bits(p)),
            Event::LandingGearSilence(p) => (0x4A, button_bits(p)),
            Event::Eac(p) => (0x4B, button_bits(p)),
            Event::AutopilotToggle(p) => (0x4C, button_bits(p)),
            Event::ThrottleButton(p) => (0x4D, button_bits(p)),
            Event::MouseX(v) => (0x4E, v),
            Event::MouseY(v) => (0x4F, v),
            Event::Mouse(p) => (0x50, button_bits(p)),
            Event::Number(n, p) => ((n as u8) | 0x80, button_bits(p)),
            Event::PaddleLeft(p) => (0x51, button_bits(p)),
            Event::PaddleRight(p) => (0x52, button_bits(p)),
            Event::PinkyLeft(p) => (0x53, button_bits(p)),
            Event::PinkyRight(p) => (0x54, button_bits(p)),
            Event::Context(p) => (0x55, button_bits(p)),
            Event::Dpi(p) => (0x56, button_bits(p)),
            Event::ScrollX(v) => (0x57, v),
            Event::ScrollY(v) => (0x58, v),
            Event::Scroll(p) => (0x59, button_bits(p)),
            Event::TrimUp(p) => (0x5A, button_bits(p)),
            Event::TrimDown(p) => (0x5B, button_bits(p)),
            Event::TrimLeft(p) => (0x5C, button_bits(p)),
            Event::TrimRight(p) => (0x5D, button_bits(p)),
            Event::ActionWheelX(v) => (0x5E, v),
            Event::ActionWheelY(v) => (0x5F, v),
        }
    }

    /// The event with identifier `new_id` that carries this event's value.
    pub fn remap(self, new_id: u8) -> (r: Event)
        ensures
            is_event_from(r, new_id, spec_to_id(self).1),
    {
        let (_, value) = self.to_id();
        Event::from_id(new_id, value)
    }
}

/// Two events that report the same identifier and value are the same event,
/// unless one of them is a numbered button with a negative number.
pub proof fn lemma_to_id_injective(a: Event, b: Event)
    requires
        spec_to_id(a) == spec_to_id(b),
        a matches Event::Number(n, _) ==> n >= 0,
        b matches Event::Number(n, _) ==> n >= 0,
    ensures
        a == b,
{
    if let Event::Number(n, p) = a {
        assert(((n as u8) | 0x80) >= 0x80) by (bit_vector);
    }
    if let Event::Number(m, q) = b {
        assert(((m as u8) | 0x80) >= 0x80) by (bit_vector);
    }
    if let Event::Number(n, p) = a {
        if let Event::Number(m, q) = b {
            assert(n >= 0 && m >= 0 && (n as u8) | 0x80 == (m as u8) | 0x80 ==> n == m)
                by (bit_vector);
        }
    }
}

/// An event's own identifier and value are already canonical.
pub proof fn lemma_to_id_canonical(e: Event)
    ensures
        canonical_id(spec_to_id(e).0) == spec_to_id(e).0,
        canonical_value(spec_to_id(e).0, spec_to_id(e).1) == spec_to_id(e).1,
{
    if let Event::Number(n, p) = e {
        assert(((n as u8) | 0x80) >= 0x80) by (bit_vector);
        assert(((n as u8) | 0x80) | 0x80 == (n as u8) | 0x80) by (bit_vector);
    }
    assert(!is_zero_f64(ONE_F64) && is_zero_f64(0u64)) by (bit_vector);
}

/// Building an event from the identifier and value that an event reports gives
/// back that event (a numbered button with a negative number excepted: its
/// identifier keeps only seven bits of the number).
pub proof fn lemma_event_roundtrip(e: Event, r: Event)
    requires
        is_event_from(r, spec_to_id(e).0, spec_to_id(e).1),
        e matches Event::Number(n, _) ==> n >= 0,
    ensures
        r == e,
{
    lemma_to_id_canonical(e);
    lemma_to_id_injective(r, e);
}

/// The event built from identifier `id` reports `id` again, for every
/// identifier below `0x60` or from `0x80` up.
pub proof fn lemma_id_roundtrip(id: u8, v: u64, r: Event)
    requires
        is_event_from(r, id, v),
        id < 0x60 || id >= 0x80,
    ensures
        spec_to_id(r).0 == id,
{
    assert(id >= 0x80 ==> id | 0x80 == id) by (bit_vector);
}

/// Remapping an event to its own identifier leaves it unchanged (a numbered
/// button with a negative number excepted).
pub proof fn lemma_remap_to_own_id(e: Event, r: Event)
    requires
        is_event_from(r, spec_to_id(e).0, spec_to_id(e).1),
        e matches Event::Number(n, _) ==> n >= 0,
    ensures
        r == e,
{
    lemma_event_roundtrip(e, r);
}

/// The event built from identifier `id` keeps an analog value unchanged, and
/// turns any other value into a button state that is pressed exactly when the
/// value is not zero.
pub proof fn lemma_from_id_value(id: u8, v: u64, r: Event)
    requires
        is_event_from(r, id, v),
        id != 0,
    ensures
        is_axis_id(id) ==> spec_to_id(r).1 == v,
        !is_axis_id(id) ==> spec_to_id(r).1 == bool_bits(!is_zero_f64(v)),
{
}

/// The identifiers of the database: every event but a numbered button has
/// one in `0x00..=0x5F`, a numbered button one at `0x80` or above (its
/// number with the top bit set).
pub proof fn lemma_id_ranges(e: Event)
    ensures
        e is Number ==> spec_to_id(e).0 >= 0x80,
        !(e is Number) ==> spec_to_id(e).0 <= 0x5F,
{
    if let Event::Number(n, p) = e {
        let b = n as u8;
        assert(b | 0x80 >= 0x80) by (bit_vector);
    }
}

/// The name of the kind of event `e`.
pub open spec fn event_name(e: Event) -> Seq<char> {
    match e {
        Event::Disconnect => "Disconnect"@,
        Event::Exit(..) => "Exit"@,
        Event::ActionA(..) => "ActionA"@,
        Event::ActionB(..) => "ActionB"@,
        Event::ActionC(..) => "ActionC"@,
        Event::ActionH(..) => "ActionH"@,
        Event::ActionV(..) => "ActionV"@,
        Event::ActionD(..) => "ActionD"@,
        Event::MenuL(..) => "MenuL"@,
        Event::MenuR(..) => "MenuR"@,
        Event::Joy(..) => "Joy"@,
        Event::Cam(..) => "Cam"@,
        Event::BumperL(..) => "BumperL"@,
        Event::BumperR(..) => "BumperR"@,
        Event::TriggerL(..) => "TriggerL"@,
        Event::TriggerR(..) => "TriggerR"@,
        Event::Up(..) => "Up"@,
        Event::Down(..) => "Down"@,
        Event::Left(..) => "Left"@,
        Event::Right(..) => "Right"@,
        Event::HatUp(..) => "HatUp"@,
        Event::HatDown(..) => "HatDown"@,
        Event::HatLeft(..) => "HatLeft"@,
        Event::HatRight(..) => "HatRight"@,
        Event::MicUp(..) => "MicUp"@,
        Event::MicDown(..) => "MicDown"@,
        Event::MicLeft(..) => "MicLeft"@,
        Event::MicRight(..) => "MicRight"@,
        Event::PovUp(..) => "PovUp"@,
        Event::PovDown(..) => "PovDown"@,
        Event::PovLeft(..) => "PovLeft"@,
        Event::PovRight(..) => "PovRight"@,
        Event::JoyX(..) => "JoyX"@,
        Event::JoyY(..) => "JoyY"@,
        Event::JoyZ(..) => "JoyZ"@,
        Event::CamX(..) => "CamX"@,
        Event::CamY(..) => "CamY"@,
        Event::CamZ(..) => "CamZ"@,
        Event::Slew(..) => "Slew"@,
        Event::Throttle(..) => "Throttle"@,
        Event::ThrottleL(..) => "ThrottleL"@,
        Event::ThrottleR(..) => "ThrottleR"@,
        Event::Volume(..) => "Volume"@,
        Event::Wheel(..) => "Wheel"@,
        Event::Rudder(..) => "Rudder"@,
        Event::Gas(..) => "Gas"@,
        Event::Brake(..) => "Brake"@,
        Event::MicPush(..) => "MicPush"@,
        Event::Trigger(..) => "Trigger"@,
        Event::Bumper(..) => "Bumper"@,
        Event::ActionL(..) => "ActionL"@,
        Event::ActionM(..) => "ActionM"@,
        Event::ActionR(..) => "ActionR"@,
        Event::Pinky(..) => "Pinky"@,
        Event::PinkyForward(..) => "PinkyForward"@,
        Event::PinkyBackward(..) => "PinkyBackward"@,
        Event::FlapsUp(..) => "FlapsUp"@,
        Event::FlapsDown(..) => "FlapsDown"@,
        Event::BoatForward(..) => "BoatForward"@,
        Event::BoatBackward(..) => "BoatBackward"@,
        Event::AutopilotPath(..) => "AutopilotPath"@,
        Event::AutopilotAlt(..) => "AutopilotAlt"@,
        Event::EngineMotorL(..) => "EngineMotorL"@,
        Event::EngineMotorR(..) => "EngineMotorR"@,
        Event::EngineFuelFlowL(..) => "EngineFuelFlowL"@,
        Event::EngineFuelFlowR(..) => "EngineFuelFlowR"@,
        Event::EngineIgnitionL(..) => "EngineIgnitionL"@,
        Event::EngineIgnitionR(..) => "EngineIgnitionR"@,
        Event::SpeedbrakeBackward(..) => "SpeedbrakeBackward"@,
        Event::SpeedbrakeForward(..) => "SpeedbrakeForward"@,
        Event::ChinaBackward(..) => "ChinaBackward"@,
        Event::ChinaForward(..) => "ChinaForward"@,
        Event::Apu(..) => "Apu"@,
        Event::RadarAltimeter(..) => "RadarAltimeter"@,
        Event::LandingGearSilence(..) => "LandingGearSilence"@,
        Event::Eac(..) => "Eac"@,
        Event::AutopilotToggle(..) => "AutopilotToggle"@,
        Event::ThrottleButton(..) => "ThrottleButton"@,
        Event::MouseX(..) => "MouseX"@,
        Event::MouseY(..) => "MouseY"@,
        Event::Mouse(..) => "Mouse"@,
        Event::Number(..) => "Number"@,
        Event::PaddleLeft(..) => "PaddleLeft"@,
        Event::PaddleRight(..) => "PaddleRight"@,
        Event::PinkyLeft(..) => "PinkyLeft"@,
        Event::PinkyRight(..) => "PinkyRight"@,
        Event::Context(..) => "Context"@,
        Event::Dpi(..) => "Dpi"@,
        Event::ScrollX(..) => "ScrollX"@,
        Event::ScrollY(..) => "ScrollY"@,
        Event::Scroll(..) => "Scroll"@,
        Event::TrimUp(..) => "TrimUp"@,
        Event::TrimDown(..) => "TrimDown"@,
        Event::TrimLeft(..) => "TrimLeft"@,
        Event::TrimRight(..) => "TrimRight"@,
        Event::ActionWheelX(..) => "ActionWheelX"@,
        Event::ActionWheelY(..) => "ActionWheelY"@,
    }
}

/// The word that tells the state of a button-like event: pushed or
/// released, forward or backward for two-way switches, enter or leave for
/// three-way switches; `None` for the disconnection and for events that
/// carry a value.
pub open spec fn event_word(e: Event) -> Option<Seq<char>> {
    match e {
        Event::Exit(p) => Some(if p { "Pushed"@ } else { "Released"@ }),
        Event::ActionA(p) => Some(if p { "Pushed"@ } else { "Released"@ }),
        Event::ActionB(p) => Some(if p { "Pushed"@ } else { "Released"@ }),
        Event::ActionC(p) => Some(if p { "Pushed"@ } else { "Released"@ }),
        Event::ActionH(p) => Some(if p { "Pushed"@ } else { "Released"@ }),
        Event::ActionV(p) => Some(if p { "Pushed"@ } else { "Released"@ }),
        Event::ActionD(p) => Some(if p { "Pushed"@ } else { "Released"@ }),
        Event::MenuL(p) => Some(if p { "Pushed"@ } else { "Released"@ }),
        Event::MenuR(p) => Some(if p { "Pushed"@ } else { "Released"@ }),
        Event::Joy(p) => Some(if p { "Pushed"@ } else { "Released"@ }),
        Event::Cam(p) => Some(if p { "Pushed"@ } else { "Released"@ }),
        Event::BumperL(p) => Some(if p { "Pushed"@ } else { "Released"@ }),
        Event::BumperR(p) => Some(if p { "Pushed"@ } else { "Released"@ }),
        Event::Up(p) => Some(if p { "Pushed"@ } else { "Released"@ }),
        Event::Down(p) => Some(if p { "Pushed"@ } else { "Released"@ }),
        Event::Left(p) => Some(if p { "Pushed"@ } else { "Released"@ }),
        Event::Right(p) => Some(if p { "Pushed"@ } else { "Released"@ }),
        Event::HatUp(p) => Some(if p { "Pushed"@ } else { "Released"@ }),
        Event::HatDown(p) => Some(if p { "Pushed"@ } else { "Released"@ }),
        Event::HatLeft(p) => Some(if p { "Pushed"@ } else { "Released"@ }),
        Event::HatRight(p) => Some(if p { "Pushed"@ } else { "Released"@ }),
        Event::MicUp(p) => Some(if p { "Pushed"@ } else { "Released"@ }),
        Event::MicDown(p) => Some(if p { "Pushed"@ } else { "Released"@ }),
        Event::MicLeft(p) => Some(if p { "Pushed"@ } else { "Released"@ }),
        Event::MicRight(p) => Some(if p { "Pushed"@ } else { "Released"@ }),
        Event::PovUp(p) => Some(if p { "Pushed"@ } else { "Released"@ }),
        Event::PovDown(p) => Some(if p { "Pushed"@ } else { "Released"@ }),
        Event::PovLeft(p) => Some(if p { "Pushed"@ } else { "Released"@ }),
        Event::PovRight(p) => Some(if p { "Pushed"@ } else { "Released"@ }),
        Event::MicPush(p) => Some(if p { "Pushed"@ } else { "Released"@ }),
        Event::Trigger(p) => Some(if p { "Pushed"@ } else { "Released"@ }),
        Event::Bumper(p) => Some(if p { "Pushed"@ } else { "Released"@ }),
        Event::ActionL(p) => Some(if p { "Pushed"@ } else { "Released"@ }),
        Event::ActionM(p) => Some(if p { "Pushed"@ } else { "Released"@ }),
        Event::ActionR(p) => Some(if p { "Pushed"@ } else { "Released"@ }),
        Event::Pinky(p) => Some(if p { "Pushed"@ } else { "Released"@ }),
        Event::PinkyForward(p) => Some(if p { "Enter"@ } else { "Leave"@ }),
        Event::PinkyBackward(p) => Some(if p { "Enter"@ } else { "Leave"@ }),
        Event::FlapsUp(p) => Some(if p { "Enter"@ } else { "Leave"@ }),
        Event::FlapsDown(p) => Some(if p { "Enter"@ } else { "Leave"@ }),
        Event::BoatForward(p) => Some(if p { "Enter"@ } else { "Leave"@ }),
        Event::BoatBackward(p) => Some(if p { "Enter"@ } else { "Leave"@ }),
        Event::AutopilotPath(p) => Some(if p { "Enter"@ } else { "Leave"@ }),
        Event::AutopilotAlt(p) => Some(if p { "Enter"@ } else { "Leave"@ }),
        Event::EngineMotorL(p) => Some(if p { "Enter"@ } else { "Leave"@ }),
        Event::EngineMotorR(p) => Some(if p { "Enter"@ } else { "Leave"@ }),
        Event::EngineFuelFlowL(p) => Some(if p { "Forward"@ } else { "Backward"@ }),
        Event::EngineFuelFlowR(p) => Some(if p { "Forward"@ } else { "Backward"@ }),
        Event::EngineIgnitionL(p) => Some(if p { "Enter"@ } else { "Leave"@ }),
        Event::EngineIgnitionR(p) => Some(if p { "Enter"@ } else { "Leave"@ }),
        Event::SpeedbrakeBackward(p) => Some(if p { "Enter"@ } else { "Leave"@ }),
        Event::SpeedbrakeForward(p) => Some(if p { "Enter"@ } else { "Leave"@ }),
        Event::ChinaBackward(p) => Some(if p { "Enter"@ } else { "Leave"@ }),
        Event::ChinaForward(p) => Some(if p { "Enter"@ } else { "Leave"@ }),
        Event::Apu(p) => Some(if p { "Forward"@ } else { "Backward"@ }),
        Event::RadarAltimeter(p) => Some(if p { "Forward"@ } else { "Backward"@ }),
        Event::LandingGearSilence(p) => Some(if p { "Pushed"@ } else { "Released"@ }),
        Event::Eac(p) => Some(if p { "Forward"@ } else { "Backward"@ }),
        Event::AutopilotToggle(p) => Some(if p { "Pushed"@ } else { "Released"@ }),
        Event::ThrottleButton(p) => Some(if p { "Pushed"@ } else { "Released"@ }),
        Event::Mouse(p) => Some(if p { "Pushed"@ } else { "Released"@ }),
        Event::Number(_, p) => Some(if p { "Pushed"@ } else { "Released"@ }),
        Event::PaddleLeft(p) => Some(if p { "Pushed"@ } else { "Released"@ }),
        Event::PaddleRight(p) => Some(if p { "Pushed"@ } else { "Released"@ }),
        Event::PinkyLeft(p) => Some(if p { "Pushed"@ } else { "Released"@ }),
        Event::PinkyRight(p) => Some(if p { "Pushed"@ } else { "Released"@ }),
        Event::Context(p) => Some(if p { "Pushed"@ } else { "Released"@ }),
        Event::Dpi(p) => Some(if p { "Pushed"@ } else { "Released"@ }),
        Event::Scroll(p) => Some(if p { "Pushed"@ } else { "Released"@ }),
        Event::TrimUp(p) => Some(if p { "Pushed"@ } else { "Released"@ }),
        Event::TrimDown(p) => Some(if p { "Pushed"@ } else { "Released"@ }),
        Event::TrimLeft(p) => Some(if p { "Pushed"@ } else { "Released"@ }),
        Event::TrimRight(p) => Some(if p { "Pushed"@ } else { "Released"@ }),
        _ => None,
    }
}

impl Event {
    /// The name of this kind of event.
    pub fn name(&self) -> (r: &'static str)
        ensures
            r@ == event_name(*self),
    {
        match self {
            Event::Disconnect => "Disconnect",
            Event::Exit(..) => "Exit",
            Event::ActionA(..) => "ActionA",
            Event::ActionB(..) => "ActionB",
            Event::ActionC(..) => "ActionC",
            Event::ActionH(..) => "ActionH",
            Event::ActionV(..) => "ActionV",
            Event::ActionD(..) => "ActionD",
            Event::MenuL(..) => "MenuL",
            Event::MenuR(..) => "MenuR",
            Event::Joy(..) => "Joy",
            Event::Cam(..) => "Cam",
            Event::BumperL(..) => "BumperL",
            Event::BumperR(..) => "BumperR",
            Event::TriggerL(..) => "TriggerL",
            Event::TriggerR(..) => "TriggerR",
            Event::Up(..) => "Up",
            Event::Down(..) => "Down",
            Event::Left(..) => "Left",
            Event::Right(..) => "Right",
            Event::HatUp(..) => "HatUp",
            Event::HatDown(..) => "HatDown",
            Event::HatLeft(..) => "HatLeft",
            Event::HatRight(..) => "HatRight",
            Event::MicUp(..) => "MicUp",
            Event::MicDown(..) => "MicDown",
            Event::MicLeft(..) => "MicLeft",
            Event::MicRight(..) => "MicRight",
            Event::PovUp(..) => "PovUp",
            Event::PovDown(..) => "PovDown",
            Event::PovLeft(..) => "PovLeft",
            Event::PovRight(..) => "PovRight",
            Event::JoyX(..) => "JoyX",
            Event::JoyY(..) => "JoyY",
            Event::JoyZ(..) => "JoyZ",
            Event::CamX(..) => "CamX",
            Event::CamY(..) => "CamY",
            Event::CamZ(..) => "CamZ",
            Event::Slew(..) => "Slew",
            Event::Throttle(..) => "Throttle",
            Event::ThrottleL(..) => "ThrottleL",
            Event::ThrottleR(..) => "ThrottleR",
            Event::Volume(..) => "Volume",
            Event::Wheel(..) => "Wheel",
            Event::Rudder(..) => "Rudder",
            Event::Gas(..) => "Gas",
            Event::Brake(..) => "Brake",
            Event::MicPush(..) => "MicPush",
            Event::Trigger(..) => "Trigger",
            Event::Bumper(..) => "Bumper",
            Event::ActionL(..) => "ActionL",
            Event::ActionM(..) => "ActionM",
            Event::ActionR(..) => "ActionR",
            Event::Pinky(..) => "Pinky",
            Event::PinkyForward(..) => "PinkyForward",
            Event::PinkyBackward(..) => "PinkyBackward",
            Event::FlapsUp(..) => "FlapsUp",
            Event::FlapsDown(..) => "FlapsDown",
            Event::BoatForward(..) => "BoatForward",
            Event::BoatBackward(..) => "BoatBackward",
            Event::AutopilotPath(..) => "AutopilotPath",
            Event::AutopilotAlt(..) => "AutopilotAlt",
            Event::EngineMotorL(..) => "EngineMotorL",
            Event::EngineMotorR(..) => "EngineMotorR",
            Event::EngineFuelFlowL(..) => "EngineFuelFlowL",
            Event::EngineFuelFlowR(..) => "EngineFuelFlowR",
            Event::EngineIgnitionL(..) => "EngineIgnitionL",
            Event::EngineIgnitionR(..) => "EngineIgnitionR",
            Event::SpeedbrakeBackward(..) => "SpeedbrakeBackward",
            Event::SpeedbrakeForward(..) => "SpeedbrakeForward",
            Event::ChinaBackward(..) => "ChinaBackward",
            Event::ChinaForward(..) => "ChinaForward",
            Event::Apu(..) => "Apu",
            Event::RadarAltimeter(..) => "RadarAltimeter",
            Event::LandingGearSilence(..) => "LandingGearSilence",
            Event::Eac(..) => "Eac",
            Event::AutopilotToggle(..) => "AutopilotToggle",
            Event::ThrottleButton(..) => "ThrottleButton",
            Event::MouseX(..) => "MouseX",
            Event::MouseY(..) => "MouseY",
            Event::Mouse(..) => "Mouse",
            Event::Number(..) => "Number",
            Event::PaddleLeft(..) => "PaddleLeft",
            Event::PaddleRight(..) => "PaddleRight",
            Event::PinkyLeft(..) => "PinkyLeft",
            Event::PinkyRight(..) => "PinkyRight",
            Event::Context(..) => "Context",
            Event::Dpi(..) => "Dpi",
            Event::ScrollX(..) => "ScrollX",
            Event::ScrollY(..) => "ScrollY",
            Event::Scroll(..) => "Scroll",
            Event::TrimUp(..) => "TrimUp",
            Event::TrimDown(..) => "TrimDown",
            Event::TrimLeft(..) => "TrimLeft",
            Event::TrimRight(..) => "TrimRight",
            Event::ActionWheelX(..) => "ActionWheelX",
            Event::ActionWheelY(..) => "ActionWheelY",
        }
    }

    /// The word that tells this event's state (see [`event_word`]).
    pub fn word(&self) -> (r: Option<&'static str>)
        ensures
            match r {
                Some(w) => event_word(*self) == Some(w@),
                None => event_word(*self) is None,
            },
    {
        match *self {
            Event::Exit(p) => Some(if p { "Pushed" } else { "Released" }),
            Event::ActionA(p) => Some(if p { "Pushed" } else { "Released" }),
            Event::ActionB(p) => Some(if p { "Pushed" } else { "Released" }),
            Event::ActionC(p) => Some(if p { "Pushed" } else { "Released" }),
            Event::ActionH(p) => Some(if p { "Pushed" } else { "Released" }),
            Event::ActionV(p) => Some(if p { "Pushed" } else { "Released" }),
            Event::ActionD(p) => Some(if p { "Pushed" } else { "Released" }),
            Event::MenuL(p) => Some(if p { "Pushed" } else { "Released" }),
            Event::MenuR(p) => Some(if p { "Pushed" } else { "Released" }),
            Event::Joy(p) => Some(if p { "Pushed" } else { "Released" }),
            Event::Cam(p) => Some(if p { "Pushed" } else { "Released" }),
            Event::BumperL(p) => Some(if p { "Pushed" } else { "Released" }),
            Event::BumperR(p) => Some(if p { "Pushed" } else { "Released" }),
            Event::Up(p) => Some(if p { "Pushed" } else { "Released" }),
            Event::Down(p) => Some(if p { "Pushed" } else { "Released" }),
            Event::Left(p) => Some(if p { "Pushed" } else { "Released" }),
            Event::Right(p) => Some(if p { "Pushed" } else { "Released" }),
            Event::HatUp(p) => Some(if p { "Pushed" } else { "Released" }),
            Event::HatDown(p) => Some(if p { "Pushed" } else { "Released" }),
            Event::HatLeft(p) => Some(if p { "Pushed" } else { "Released" }),
            Event::HatRight(p) => Some(if p { "Pushed" } else { "Released" }),
            Event::MicUp(p) => Some(if p { "Pushed" } else { "Released" }),
            Event::MicDown(p) => Some(if p { "Pushed" } else { "Released" }),
            Event::MicLeft(p) => Some(if p { "Pushed" } else { "Released" }),
            Event::MicRight(p) => Some(if p { "Pushed" } else { "Released" }),
            Event::PovUp(p) => Some(if p { "Pushed" } else { "Released" }),
            Event::PovDown(p) => Some(if p { "Pushed" } else { "Released" }),
            Event::PovLeft(p) => Some(if p { "Pushed" } else { "Released" }),
            Event::PovRight(p) => Some(if p { "Pushed" } else { "Released" }),
            Event::MicPush(p) => Some(if p { "Pushed" } else { "Released" }),
            Event::Trigger(p) => Some(if p { "Pushed" } else { "Released" }),
            Event::Bumper(p) => Some(if p { "Pushed" } else { "Released" }),
            Event::ActionL(p) => Some(if p { "Pushed" } else { "Released" }),
            Event::ActionM(p) => Some(if p { "Pushed" } else { "Released" }),
            Event::ActionR(p) => Some(if p { "Pushed" } else { "Released" }),
            Event::Pinky(p) => Some(if p { "Pushed" } else { "Released" }),
            Event::PinkyForward(p) => Some(if p { "Enter" } else { "Leave" }),
            Event::PinkyBackward(p) => Some(if p { "Enter" } else { "Leave" }),
            Event::FlapsUp(p) => Some(if p { "Enter" } else { "Leave" }),
            Event::FlapsDown(p) => Some(if p { "Enter" } else { "Leave" }),
            Event::BoatForward(p) => Some(if p { "Enter" } else { "Leave" }),
            Event::BoatBackward(p) => Some(if p { "Enter" } else { "Leave" }),
            Event::AutopilotPath(p) => Some(if p { "Enter" } else { "Leave" }),
            Event::AutopilotAlt(p) => Some(if p { "Enter" } else { "Leave" }),
            Event::EngineMotorL(p) => Some(if p { "Enter" } else { "Leave" }),
            Event::EngineMotorR(p) => Some(if p { "Enter" } else { "Leave" }),
            Event::EngineFuelFlowL(p) => Some(if p { "Forward" } else { "Backward" }),
            Event::EngineFuelFlowR(p) => Some(if p { "Forward" } else { "Backward" }),
            Event::EngineIgnitionL(p) => Some(if p { "Enter" } else { "Leave" }),
            Event::EngineIgnitionR(p) => Some(if p { "Enter" } else { "Leave" }),
            Event::SpeedbrakeBackward(p) => Some(if p { "Enter" } else { "Leave" }),
            Event::SpeedbrakeForward(p) => Some(if p { "Enter" } else { "Leave" }),
            Event::ChinaBackward(p) => Some(if p { "Enter" } else { "Leave" }),
            Event::ChinaForward(p) => Some(if p { "Enter" } else { "Leave" }),
            Event::Apu(p) => Some(if p { "Forward" } else { "Backward" }),
            Event::RadarAltimeter(p) => Some(if p { "Forward" } else { "Backward" }),
            Event::LandingGearSilence(p) => Some(if p { "Pushed" } else { "Released" }),
            Event::Eac(p) => Some(if p { "Forward" } else { "Backward" }),
            Event::AutopilotToggle(p) => Some(if p { "Pushed" } else { "Released" }),
            Event::ThrottleButton(p) => Some(if p { "Pushed" } else { "Released" }),
            Event::Mouse(p) => Some(if p { "Pushed" } else { "Released" }),
            Event::Number(_, p) => Some(if p { "Pushed" } else { "Released" }),
            Event::PaddleLeft(p) => Some(if p { "Pushed" } else { "Released" }),
            Event::PaddleRight(p) => Some(if p { "Pushed" } else { "Released" }),
            Event::PinkyLeft(p) => Some(if p { "Pushed" } else { "Released" }),
            Event::PinkyRight(p) => Some(if p { "Pushed" } else { "Released" }),
            Event::Context(p) => Some(if p { "Pushed" } else { "Released" }),
            Event::Dpi(p) => Some(if p { "Pushed" } else { "Released" }),
            Event::Scroll(p) => Some(if p { "Pushed" } else { "Released" }),
            Event::TrimUp(p) => Some(if p { "Pushed" } else { "Released" }),
            Event::TrimDown(p) => Some(if p { "Pushed" } else { "Released" }),
            Event::TrimLeft(p) => Some(if p { "Pushed" } else { "Released" }),
            Event::TrimRight(p) => Some(if p { "Pushed" } else { "Released" }),
            _ => None,
        }
    }
}

} // verus!
