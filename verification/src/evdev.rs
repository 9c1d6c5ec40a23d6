//! Linux evdev input events turned into controller events.
//!
//! Event codes are those of the kernel's `input-event-codes.h`.  Values are
//! carried as `f64` bit patterns: a relative axis carries its raw value, an
//! absolute axis the value normalized by the axis range, which the caller
//! computes from the range that the device reports.

use vstd::prelude::*;
use crate::event::Event;
use crate::float_bits::{f64_of_int, is_nan_f64, lt_f64, f64_lt, u32_to_f64_bits};

verus! {

/// Bit pattern of the `f64` value `255.0`.
pub const TRIGGER_FULL_F64: u64 = 0x406F_E000_0000_0000;

/// Number of absolute axes whose ranges a device reports.
pub const ABS_MAX: u16 = 0x3F;

/// The value of a digital trigger: `255.0` when pushed, else `0.0`.
pub open spec fn trigger_bits(pushed: bool) -> u64 {
    if pushed { TRIGGER_FULL_F64 } else { 0 }
}

/// The event of a button code (`None` for codes that are not known).
pub open spec fn btn_event(code: u16, pushed: bool) -> Option<Event> {
    if 0x126 <= code <= 0x12F {
        Some(Event::Number((code - 0x125) as i8, pushed))
    } else if 0x2C0 <= code <= 0x2E7 {
        Some(Event::Number((code - 0x2C0 + 11) as i8, pushed))
    } else {
        match code {
            0x08B => Some(Event::Context(pushed)),
            0x09E => Some(Event::PaddleLeft(pushed)),
            0x09F => Some(Event::PaddleRight(pushed)),
            0x120 => Some(Event::Trigger(pushed)),
            0x121 => Some(Event::ActionM(pushed)),
            0x122 => Some(Event::Bumper(pushed)),
            0x123 => Some(Event::ActionR(pushed)),
            0x124 => Some(Event::ActionL(pushed)),
            0x125 => Some(Event::Pinky(pushed)),
            0x130 => Some(Event::ActionA(pushed)),
            0x131 => Some(Event::ActionB(pushed)),
            0x132 => Some(Event::ActionC(pushed)),
            0x133 => Some(Event::ActionV(pushed)),
            0x134 => Some(Event::ActionH(pushed)),
            0x135 => Some(Event::ActionD(pushed)),
            0x136 => Some(Event::BumperL(pushed)),
            0x137 => Some(Event::BumperR(pushed)),
            0x138 => Some(Event::TriggerL(trigger_bits(pushed))),
            0x139 => Some(Event::TriggerR(trigger_bits(pushed))),
            0x13A => Some(Event::MenuL(pushed)),
            0x13B => Some(Event::MenuR(pushed)),
            0x13C => Some(Event::Exit(pushed)),
            0x13D => Some(Event::Joy(pushed)),
            0x13E => Some(Event::Cam(pushed)),
            0x220 => Some(Event::Up(pushed)),
            0x221 => Some(Event::Down(pushed)),
            0x222 => Some(Event::Left(pushed)),
            0x223 => Some(Event::Right(pushed)),
            _ => None,
        }
    }
}

/// Convert a Linux button press or release to a controller event.
pub fn to_stick_btn(btn: u16, pushed: bool) -> (r: Option<Event>)
    ensures
        r == btn_event(btn, pushed),
{
    if 0x126 <= btn && btn <= 0x12F {
        return Some(Event::Number((btn - 0x125) as i8, pushed));
    }
    if 0x2C0 <= btn && btn <= 0x2E7 {
        return Some(Event::Number((btn - 0x2C0 + 11) as i8, pushed));
    }
    let trigger = if pushed { TRIGGER_FULL_F64 } else { 0 };
    match btn {
        0x08B => Some(Event::Context(pushed)),
        0x09E => Some(Event::PaddleLeft(pushed)),
        0x09F => Some(Event::PaddleRight(pushed)),
        0x120 => Some(Event::Trigger(pushed)),
        0x121 => Some(Event::ActionM(pushed)),
        0x122 => Some(Event::Bumper(pushed)),
        0x123 => Some(Event::ActionR(pushed)),
        0x124 => Some(Event::ActionL(pushed)),
        0x125 => Some(Event::Pinky(pushed)),
        0x130 => Some(Event::ActionA(pushed)),
        0x131 => Some(Event::ActionB(pushed)),
        0x132 => Some(Event::ActionC(pushed)),
        0x133 => Some(Event::ActionV(pushed)),
        0x134 => Some(Event::ActionH(pushed)),
        0x135 => Some(Event::ActionD(pushed)),
        0x136 => Some(Event::BumperL(pushed)),
        0x137 => Some(Event::BumperR(pushed)),
        0x138 => Some(Event::TriggerL(trigger)),
        0x139 => Some(Event::TriggerR(trigger)),
        0x13A => Some(Event::MenuL(pushed)),
        0x13B => Some(Event::MenuR(pushed)),
        0x13C => Some(Event::Exit(pushed)),
        0x13D => Some(Event::Joy(pushed)),
        0x13E => Some(Event::Cam(pushed)),
        0x220 => Some(Event::Up(pushed)),
        0x221 => Some(Event::Down(pushed)),
        0x222 => Some(Event::Left(pushed)),
        0x223 => Some(Event::Right(pushed)),
        _ => None,
    }
}

/// The event of a relative axis with raw value `value`, carried as an `f64`
/// (only the mouse axes are known).
pub open spec fn rel_event(axis: u16, value: u32) -> Option<Event> {
    if axis == 0 {
        Some(Event::MouseX(f64_of_int(value as int)))
    } else if axis == 1 {
        Some(Event::MouseY(f64_of_int(value as int)))
    } else {
        None
    }
}

/// Convert a Linux relative axis movement to a controller event.
pub fn to_stick_rel(axis: u16, value: u32) -> (r: Option<Event>)
    ensures
        r == rel_event(axis, value),
{
    match axis {
        0x00 => Some(Event::MouseX(u32_to_f64_bits(value))),
        0x01 => Some(Event::MouseY(u32_to_f64_bits(value))),
        _ => None,
    }
}

/// Hat axes: the events of the positive and negative directions.
pub open spec fn hat_events(axis: u16) -> Option<(spec_fn(bool) -> Event, spec_fn(bool) -> Event)> {
    match axis {
        0x10 => Some((|p: bool| Event::PovRight(p), |p: bool| Event::PovLeft(p))),
        0x11 => Some((|p: bool| Event::PovDown(p), |p: bool| Event::PovUp(p))),
        0x12 => Some((|p: bool| Event::HatRight(p), |p: bool| Event::HatLeft(p))),
        0x13 => Some((|p: bool| Event::HatDown(p), |p: bool| Event::HatUp(p))),
        0x14 => Some((|p: bool| Event::TrimRight(p), |p: bool| Event::TrimLeft(p))),
        0x15 => Some((|p: bool| Event::TrimDown(p), |p: bool| Event::TrimUp(p))),
        0x16 => Some((|p: bool| Event::MicRight(p), |p: bool| Event::MicLeft(p))),
        0x17 => Some((|p: bool| Event::MicDown(p), |p: bool| Event::MicUp(p))),
        _ => None,
    }
}

/// The event of a full absolute axis (not a hat) with normalized value `v`.
pub open spec fn abs_axis_event(axis: u16, v: u64) -> Option<Event> {
    match axis {
        0x00 => Some(Event::JoyX(v)),
        0x01 => Some(Event::JoyY(v)),
        0x02 => Some(Event::JoyZ(v)),
        0x03 => Some(Event::CamX(v)),
        0x04 => Some(Event::CamY(v)),
        0x05 => Some(Event::CamZ(v)),
        0x06 => Some(Event::Throttle(v)),
        0x07 => Some(Event::Rudder(v)),
        0x08 => Some(Event::Wheel(v)),
        0x09 => Some(Event::Gas(v)),
        0x0A => Some(Event::Brake(v)),
        0x0B => Some(Event::Slew(v)),
        0x0C => Some(Event::ThrottleL(v)),
        0x0D => Some(Event::ThrottleR(v)),
        0x0E => Some(Event::ScrollX(v)),
        0x0F => Some(Event::ScrollY(v)),
        _ => None,
    }
}

/// An absolute axis with normalized value `v`: the event reported and the
/// event queued for the next read.  A hat moved away from its center pushes
/// the direction of the sign of `v`; a hat back at the center releases the
/// positive direction now and queues the release of the negative one.
pub open spec fn abs_event(axis: u16, v: u64, queued: Option<Event>) -> (Option<Event>, Option<Event>) {
    match hat_events(axis) {
        Some((pos, neg)) => if lt_f64(0, v) {
            (Some(pos(true)), queued)
        } else if lt_f64(v, 0) {
            (Some(neg(true)), queued)
        } else {
            (Some(pos(false)), Some(neg(false)))
        },
        None => (abs_axis_event(axis, v), queued),
    }
}

/// Convert a Linux absolute axis movement (value already normalized by the
/// axis range) to a controller event, queueing a second event for hats that
/// return to their center.
pub fn to_stick_abs(queued: &mut Option<Event>, axis: u16, value: u64) -> (r: Option<Event>)
    requires
        axis < ABS_MAX,
        hat_events(axis) is Some ==> !is_nan_f64(value),
    ensures
        (r, *final(queued)) == abs_event(axis, value, *old(queued)),
{
    let positive = f64_lt(0, value);
    let negative = f64_lt(value, 0);
    match axis {
        0x00 => Some(Event::JoyX(value)),
        0x01 => Some(Event::JoyY(value)),
        0x02 => Some(Event::JoyZ(value)),
        0x03 => Some(Event::CamX(value)),
        0x04 => Some(Event::CamY(value)),
        0x05 => Some(Event::CamZ(value)),
        0x06 => Some(Event::Throttle(value)),
        0x07 => Some(Event::Rudder(value)),
        0x08 => Some(Event::Wheel(value)),
        0x09 => Some(Event::Gas(value)),
        0x0A => Some(Event::Brake(value)),
        0x0B => Some(Event::Slew(value)),
        0x0C => Some(Event::ThrottleL(value)),
        0x0D => Some(Event::ThrottleR(value)),
        0x0E => Some(Event::ScrollX(value)),
        0x0F => Some(Event::ScrollY(value)),
        0x10 => if positive {
            Some(Event::PovRight(true))
        } else if negative {
            Some(Event::PovLeft(true))
        } else {
            *queued = Some(Event::PovLeft(false));
            Some(Event::PovRight(false))
        },
        0x11 => if positive {
            Some(Event::PovDown(true))
        } else if negative {
            Some(Event::PovUp(true))
        } else {
            *queued = Some(Event::PovUp(false));
            Some(Event::PovDown(false))
        },
        0x12 => if positive {
            Some(Event::HatRight(true))
        } else if negative {
            Some(Event::HatLeft(true))
        } else {
            *queued = Some(Event::HatLeft(false));
            Some(Event::HatRight(false))
        },
        0x13 => if positive {
            Some(Event::HatDown(true))
        } else if negative {
            Some(Event::HatUp(true))
        } else {
            *queued = Some(Event::HatUp(false));
            Some(Event::HatDown(false))
        },
        0x14 => if positive {
            Some(Event::TrimRight(true))
        } else if negative {
            Some(Event::TrimLeft(true))
        } else {
            *queued = Some(Event::TrimLeft(false));
            Some(Event::TrimRight(false))
        },
        0x15 => if positive {
            Some(Event::TrimDown(true))
        } else if negative {
            Some(Event::TrimUp(true))
        } else {
            *queued = Some(Event::TrimUp(false));
            Some(Event::TrimDown(false))
        },
        0x16 => if positive {
            Some(Event::MicRight(true))
        } else if negative {
            Some(Event::MicLeft(true))
        } else {
            *queued = Some(Event::MicLeft(false));
            Some(Event::MicRight(false))
        },
        0x17 => if positive {
            Some(Event::MicDown(true))
        } else if negative {
            Some(Event::MicUp(true))
        } else {
            *queued = Some(Event::MicUp(false));
            Some(Event::MicDown(false))
        },
        _ => None,
    }
}

/// One evdev event (`ev_type`, `ev_code`, `ev_value`): the controller event
/// it stands for and the queued event after it.  `abs_value` is the value
/// normalized by the axis range.  Nothing is reported while events are
/// disabled.
pub open spec fn evdev_event(
    enabled: bool,
    ev_type: u16,
    ev_code: u16,
    ev_value: u32,
    abs_value: u64,
    queued: Option<Event>,
) -> (Option<Event>, Option<Event>) {
    if !enabled {
        (None, queued)
    } else if ev_type == 0x01 {
        (btn_event(ev_code, ev_value != 0), queued)
    } else if ev_type == 0x02 {
        (rel_event(ev_code, ev_value), queued)
    } else if ev_type == 0x03 {
        abs_event(ev_code, abs_value, queued)
    } else {
        (None, queued)
    }
}

/// Convert one evdev event to a controller event.
pub fn to_stick_events(
    queued: &mut Option<Event>,
    enabled: bool,
    ev_type: u16,
    ev_code: u16,
    ev_value: u32,
    abs_value: u64,
) -> (r: Option<Event>)
    requires
        enabled && ev_type == 0x03 ==> ev_code < ABS_MAX,
        enabled && ev_type == 0x03 && hat_events(ev_code) is Some ==> !is_nan_f64(abs_value),
    ensures
        (r, *final(queued)) == evdev_event(
            enabled,
            ev_type,
            ev_code,
            ev_value,
            abs_value,
            *old(queued),
        ),
{
    if !enabled {
        return None;
    }
    match ev_type {
        0x01 => to_stick_btn(ev_code, ev_value != 0),
        0x02 => to_stick_rel(ev_code, ev_value),
        0x03 => to_stick_abs(queued, ev_code, abs_value),
        _ => None,
    }
}

/// The next event of a device: the queued one if any (taking it out of the
/// queue), else `None` to read a new one.
pub fn take_queued(queued: &mut Option<Event>) -> (r: Option<Event>)
    ensures
        r == *old(queued),
        *final(queued) is None,
{
    queued.take()
}

} // verus!
