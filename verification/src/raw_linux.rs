//! Linux evdev input events turned into controller events, several at a
//! time: a hat back at its centre releases both of its directions.
//!
//! The converted events are pushed on a list of pending events, from which
//! the controller takes them from the end.

use vstd::prelude::*;
use crate::event::Event;
use crate::evdev::{abs_axis_event, btn_event, hat_events, to_stick_btn};
use crate::float_bits::{f64_of_int, i32_to_f64_bits};

verus! {

/// The events of an optional event: none or that one.
pub open spec fn events_of(e: Option<Event>) -> Seq<Event> {
    match e {
        Some(x) => seq![x],
        None => Seq::empty(),
    }
}

/// The event of a button code: those that [`btn_event`] knows, and the two
/// pinky buttons.
pub open spec fn raw_btn_event(code: u16, pushed: bool) -> Option<Event> {
    if code == 0x13F {
        Some(Event::PinkyRight(pushed))
    } else if code == 0x140 {
        Some(Event::PinkyLeft(pushed))
    } else {
        btn_event(code, pushed)
    }
}

/// The events of an absolute axis with raw value `value`: the axis event
/// carrying the value as an `f64`, or, for a hat, the push of the direction
/// of the value's sign, or at the centre the release of both directions
/// (right then left for horizontal hats, up then down for vertical ones).
pub open spec fn raw_abs_events(axis: u16, value: i32) -> Seq<Event> {
    match abs_axis_event(axis, f64_of_int(value as int)) {
        Some(e) => seq![e],
        None => match hat_events(axis) {
            Some((pos, neg)) => if value > 0 {
                seq![pos(true)]
            } else if value < 0 {
                seq![neg(true)]
            } else if axis % 2 == 0 {
                seq![pos(false), neg(false)]
            } else {
                seq![neg(false), pos(false)]
            },
            None => Seq::empty(),
        },
    }
}

/// The events of a relative axis with raw value `value` (only the mouse
/// axes are known).
pub open spec fn raw_rel_events(axis: u16, value: i32) -> Seq<Event> {
    if axis == 0 {
        seq![Event::MouseX(f64_of_int(value as int))]
    } else if axis == 1 {
        seq![Event::MouseY(f64_of_int(value as int))]
    } else {
        Seq::empty()
    }
}

/// The events of one evdev event.
pub open spec fn raw_events(ev_type: u16, ev_code: u16, ev_value: i32) -> Seq<Event> {
    if ev_type == 0x01 {
        events_of(raw_btn_event(ev_code, ev_value != 0))
    } else if ev_type == 0x02 {
        raw_rel_events(ev_code, ev_value)
    } else if ev_type == 0x03 {
        raw_abs_events(ev_code, ev_value)
    } else {
        Seq::empty()
    }
}

/// Push the event of a Linux button press or release.
pub fn linux_btn_to_stick_event(pending: &mut Vec<Event>, btn: u16, pushed: bool)
    ensures
        final(pending)@ == old(pending)@ + events_of(raw_btn_event(btn, pushed)),
{
    let e = if btn == 0x13F {
        Some(Event::PinkyRight(pushed))
    } else if btn == 0x140 {
        Some(Event::PinkyLeft(pushed))
    } else {
        to_stick_btn(btn, pushed)
    };
    match e {
        Some(x) => pending.push(x),
        None => {},
    }
    proof {
        assert(final(pending)@ =~= old(pending)@ + events_of(raw_btn_event(btn, pushed)));
    }
}

/// Push the event of a Linux relative axis movement.
pub fn linux_rel_to_stick_event(pending: &mut Vec<Event>, axis: u16, value: i32)
    ensures
        final(pending)@ == old(pending)@ + raw_rel_events(axis, value),
{
    match axis {
        0x00 => pending.push(Event::MouseX(i32_to_f64_bits(value))),
        0x01 => pending.push(Event::MouseY(i32_to_f64_bits(value))),
        _ => {},
    }
    proof {
        assert(final(pending)@ =~= old(pending)@ + raw_rel_events(axis, value));
    }
}

fn push_hat(pending: &mut Vec<Event>, value: i32, pos: Event, neg: Event, release_first: Event, release_second: Event)
    ensures
        final(pending)@ == old(pending)@ + if value > 0 {
            seq![pos]
        } else if value < 0 {
            seq![neg]
        } else {
            seq![release_first, release_second]
        },
{
    if value > 0 {
        pending.push(pos);
    } else if value < 0 {
        pending.push(neg);
    } else {
        pending.push(release_first);
        pending.push(release_second);
    }
    proof {
        assert(final(pending)@ =~= old(pending)@ + if value > 0 {
            seq![pos]
        } else if value < 0 {
            seq![neg]
        } else {
            seq![release_first, release_second]
        });
    }
}

/// Push the events of a Linux absolute axis movement.
pub fn linux_abs_to_stick_event(pending: &mut Vec<Event>, axis: u16, value: i32)
    ensures
        final(pending)@ == old(pending)@ + raw_abs_events(axis, value),
{
    let v = i32_to_f64_bits(value);
    match axis {
        0x00 => pending.push(Event::JoyX(v)),
        0x01 => pending.push(Event::JoyY(v)),
        0x02 => pending.push(Event::JoyZ(v)),
        0x03 => pending.push(Event::CamX(v)),
        0x04 => pending.push(Event::CamY(v)),
        0x05 => pending.push(Event::CamZ(v)),
        0x06 => pending.push(Event::Throttle(v)),
        0x07 => pending.push(Event::Rudder(v)),
        0x08 => pending.push(Event::Wheel(v)),
        0x09 => pending.push(Event::Gas(v)),
        0x0A => pending.push(Event::Brake(v)),
        0x0B => pending.push(Event::Slew(v)),
        0x0C => pending.push(Event::ThrottleL(v)),
        0x0D => pending.push(Event::ThrottleR(v)),
        0x0E => pending.push(Event::ScrollX(v)),
        0x0F => pending.push(Event::ScrollY(v)),
        0x10 => push_hat(
            pending,
            value,
            Event::PovRight(true),
            Event::PovLeft(true),
            Event::PovRight(false),
            Event::PovLeft(false),
        ),
        0x11 => push_hat(
            pending,
            value,
            Event::PovDown(true),
            Event::PovUp(true),
            Event::PovUp(false),
            Event::PovDown(false),
        ),
        0x12 => push_hat(
            pending,
            value,
            Event::HatRight(true),
            Event::HatLeft(true),
            Event::HatRight(false),
            Event::HatLeft(false),
        ),
        0x13 => push_hat(
            pending,
            value,
            Event::HatDown(true),
            Event::HatUp(true),
            Event::HatUp(false),
            Event::HatDown(false),
        ),
        0x14 => push_hat(
            pending,
            value,
            Event::TrimRight(true),
            Event::TrimLeft(true),
            Event::TrimRight(false),
            Event::TrimLeft(false),
        ),
        0x15 => push_hat(
            pending,
            value,
            Event::TrimDown(true),
            Event::TrimUp(true),
            Event::TrimUp(false),
            Event::TrimDown(false),
        ),
        0x16 => push_hat(
            pending,
            value,
            Event::MicRight(true),
            Event::MicLeft(true),
            Event::MicRight(false),
            Event::MicLeft(false),
        ),
        0x17 => push_hat(
            pending,
            value,
            Event::MicDown(true),
            Event::MicUp(true),
            Event::MicUp(false),
            Event::MicDown(false),
        ),
        _ => {},
    }
    proof {
        assert(final(pending)@ =~= old(pending)@ + raw_abs_events(axis, value));
    }
}

/// Push the events of one evdev event; while events are disabled the
/// pending events are dropped, these and the earlier ones.
pub fn linux_evdev_to_stick_event(
    pending: &mut Vec<Event>,
    enabled: bool,
    ev_type: u16,
    ev_code: u16,
    ev_value: i32,
)
    ensures
        final(pending)@ == if enabled {
            old(pending)@ + raw_events(ev_type, ev_code, ev_value)
        } else {
            Seq::<Event>::empty()
        },
{
    match ev_type {
        0x01 => linux_btn_to_stick_event(pending, ev_code, ev_value != 0),
        0x02 => linux_rel_to_stick_event(pending, ev_code, ev_value),
        0x03 => linux_abs_to_stick_event(pending, ev_code, ev_value),
        _ => {
            proof {
                assert(pending@ =~= old(pending)@ + raw_events(ev_type, ev_code, ev_value));
            }
        },
    }
    if !enabled {
        pending.clear();
    }
}

} // verus!
