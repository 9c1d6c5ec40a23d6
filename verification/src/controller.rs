//! A controller's state: remapping of its events and removal of repeats.
//!
//! A [`Controller`] receives the events that the platform reports for one
//! device.  It first remaps an event by the device's routes, then keeps the
//! event only when it changes the state that the controller tracks: which
//! buttons are held and where each axis stands.

use vstd::prelude::*;
use std::collections::HashMap;
use crate::event::{Event, is_event_from, spec_to_id, lemma_to_id_injective, lemma_to_id_canonical};
use crate::float_bits::{
    abs_f64, clamp_f64, eq_f64, is_nan_f64, le_f64, f64_abs, f64_clamp, f64_eq, f64_is_nan, f64_le,
};

verus! {

broadcast use vstd::std_specs::hash::group_hash_axioms;

/// Bit pattern of the `f64` value `-1.0`.
pub const MINUS_ONE_F64: u64 = 0xBFF0_0000_0000_0000;

/// Bit pattern of the `f64` value `1.0`.
pub const PLUS_ONE_F64: u64 = 0x3FF0_0000_0000_0000;

/// Number of axes that a controller tracks.
pub const AXIS_COUNT: usize = 12;

/// Where the events of one input go.
#[derive(Debug, Clone, Copy, PartialEq, Eq, Structural)]
pub struct Route {
    /// Identifier of the event that replaces the input's events.
    pub out: u8,
    /// Deadzone of the input as an `f64` bit pattern (NaN for none).
    pub deadzone: u64,
}

/// The state of a [`Controller`].
pub struct ControllerView {
    pub id: u64,
    pub name: Seq<char>,
    pub routes: Map<u8, Route>,
    /// Indices of the held buttons (see [`button_slot`]).
    pub buttons: Set<int>,
    /// Numbers of the held numbered buttons.
    pub numbers: Set<int>,
    /// Last value of each axis (see [`axis_slot`]), as `f64` bit patterns.
    pub axes: Seq<u64>,
}

/// The event that identifier `id` with value `v` stands for.
pub open spec fn spec_from_id(id: u8, v: u64) -> Event {
    choose|e: Event| is_event_from(e, id, v)
}

/// The event that identifier `id` with value `v` stands for is unique.
pub proof fn lemma_from_id_unique(r: Event, id: u8, v: u64)
    requires
        is_event_from(r, id, v),
    ensures
        r == spec_from_id(id, v),
{
    let c = spec_from_id(id, v);
    assert(is_event_from(c, id, v));
    lemma_to_id_injective(r, c);
}

/// Remapping of an event by `routes`: the event that its input is routed
/// to, carrying its value; `None` when the route leads to `Disconnect` (the
/// event is dropped).
pub open spec fn spec_remapped(routes: Map<u8, Route>, e: Event) -> Option<Event> {
    let (id, v) = spec_to_id(e);
    if routes.contains_key(id) {
        let r = spec_from_id(routes[id].out, v);
        if r is Disconnect {
            None
        } else {
            Some(r)
        }
    } else {
        Some(e)
    }
}

/// Plain buttons: index and state.
pub open spec fn button_slot(e: Event) -> Option<(int, bool)> {
    match e {
        Event::Exit(p) => Some((0, p)),
        Event::MenuL(p) => Some((1, p)),
        Event::MenuR(p) => Some((2, p)),
        Event::ActionA(p) => Some((3, p)),
        Event::ActionB(p) => Some((4, p)),
        Event::ActionC(p) => Some((5, p)),
        Event::ActionH(p) => Some((6, p)),
        Event::ActionV(p) => Some((7, p)),
        Event::ActionD(p) => Some((8, p)),
        Event::Up(p) => Some((9, p)),
        Event::Down(p) => Some((10, p)),
        Event::Right(p) => Some((11, p)),
        Event::Left(p) => Some((12, p)),
        Event::BumperL(p) => Some((13, p)),
        Event::BumperR(p) => Some((14, p)),
        Event::Joy(p) => Some((15, p)),
        Event::Cam(p) => Some((16, p)),
        Event::PaddleLeft(p) => Some((17, p)),
        Event::PaddleRight(p) => Some((18, p)),
        Event::PinkyLeft(p) => Some((19, p)),
        Event::PinkyRight(p) => Some((20, p)),
        Event::Trigger(p) => Some((21, p)),
        _ => None,
    }
}

/// Hat buttons: index, index of the opposite direction, the release event of
/// the opposite direction, and state.
pub open spec fn hat_slot(e: Event) -> Option<(int, int, Event, bool)> {
    match e {
        Event::HatUp(p) => Some((22, 23, Event::HatDown(false), p)),
        Event::HatDown(p) => Some((23, 22, Event::HatUp(false), p)),
        Event::HatRight(p) => Some((24, 25, Event::HatLeft(false), p)),
        Event::HatLeft(p) => Some((25, 24, Event::HatRight(false), p)),
        _ => None,
    }
}

/// Axes: index, value, and whether the axis is a pressure (`0.0` to `1.0`)
/// rather than a full axis (`-1.0` to `1.0`).
pub open spec fn axis_slot(e: Event) -> Option<(int, u64, bool)> {
    match e {
        Event::TriggerL(v) => Some((0, v, true)),
        Event::TriggerR(v) => Some((1, v, true)),
        Event::JoyX(v) => Some((2, v, false)),
        Event::JoyY(v) => Some((3, v, false)),
        Event::JoyZ(v) => Some((4, v, false)),
        Event::CamX(v) => Some((5, v, false)),
        Event::CamY(v) => Some((6, v, false)),
        Event::CamZ(v) => Some((7, v, false)),
        Event::Wheel(v) => Some((8, v, false)),
        Event::Brake(v) => Some((9, v, false)),
        Event::Gas(v) => Some((10, v, false)),
        Event::Rudder(v) => Some((11, v, false)),
        _ => None,
    }
}

/// The same axis event with value `v`.
pub open spec fn with_value(e: Event, v: u64) -> Event {
    match e {
        Event::TriggerL(_) => Event::TriggerL(v),
        Event::TriggerR(_) => Event::TriggerR(v),
        Event::JoyX(_) => Event::JoyX(v),
        Event::JoyY(_) => Event::JoyY(v),
        Event::JoyZ(_) => Event::JoyZ(v),
        Event::CamX(_) => Event::CamX(v),
        Event::CamY(_) => Event::CamY(v),
        Event::CamZ(_) => Event::CamZ(v),
        Event::Wheel(_) => Event::Wheel(v),
        Event::Brake(_) => Event::Brake(v),
        Event::Gas(_) => Event::Gas(v),
        Event::Rudder(_) => Event::Rudder(v),
        _ => e,
    }
}

/// The events that a controller keeps state for; it reports the others
/// (the point-of-view hat, the mouse, the microphone, trims and flight
/// controls) as they come.
pub open spec fn is_tracked(e: Event) -> bool {
    ||| e is Disconnect
    ||| button_slot(e) is Some
    ||| hat_slot(e) is Some
    ||| axis_slot(e) is Some
    ||| e is Number
}

/// Whether [`Controller::process`] takes `e` in a controller with routes
/// `routes`: every event but a numbered button with a negative number (which
/// has no bit to be kept in).
pub open spec fn is_handled(routes: Map<u8, Route>, e: Event) -> bool {
    match spec_remapped(routes, e) {
        Some(Event::Number(n, _)) => n >= 0,
        _ => true,
    }
}

/// The value that an axis keeps: clamped to its range, and zero inside the
/// input's deadzone (a deadzone bounds the absolute value of a full axis and
/// the value of a pressure).
pub open spec fn settled_value(routes: Map<u8, Route>, input: u8, v: u64, pressure: bool) -> u64 {
    let c = if pressure {
        clamp_f64(v, 0, PLUS_ONE_F64)
    } else {
        clamp_f64(v, MINUS_ONE_F64, PLUS_ONE_F64)
    };
    let m = if pressure {
        c
    } else {
        abs_f64(c)
    };
    if routes.contains_key(input) && !is_nan_f64(routes[input].deadzone) && le_f64(
        m,
        routes[input].deadzone,
    ) {
        0
    } else {
        c
    }
}

/// A held-buttons set after a button change to state `p`.
pub open spec fn set_to(s: Set<int>, i: int, p: bool) -> Set<int> {
    if p {
        s.insert(i)
    } else {
        s.remove(i)
    }
}

/// What a controller in state `c` does with the platform event `e`: its new
/// state and the event it reports (`None` when the event changes nothing;
/// an event that the controller keeps no state for is reported unchanged).
pub open spec fn spec_process(c: ControllerView, e: Event) -> (ControllerView, Option<Event>) {
    let input = spec_to_id(e).0;
    match spec_remapped(c.routes, e) {
        None => (c, None),
        Some(e2) => if e2 is Disconnect {
            (c, Some(Event::Disconnect))
        } else if let Some((i, p)) = button_slot(e2) {
            if c.buttons.contains(i) == p {
                (c, None)
            } else {
                (ControllerView { buttons: set_to(c.buttons, i, p), ..c }, Some(e2))
            }
        } else if let Some((i, j, release, p)) = hat_slot(e2) {
            if c.buttons.contains(i) == p {
                if !p && c.buttons.contains(j) {
                    (ControllerView { buttons: c.buttons.remove(j), ..c }, Some(release))
                } else {
                    (c, None)
                }
            } else {
                (ControllerView { buttons: set_to(c.buttons, i, p), ..c }, Some(e2))
            }
        } else if let Some((a, v, pressure)) = axis_slot(e2) {
            let s = settled_value(c.routes, input, v, pressure);
            if eq_f64(c.axes[a], s) {
                (c, None)
            } else {
                (ControllerView { axes: c.axes.update(a, s), ..c }, Some(with_value(e2, s)))
            }
        } else if let Event::Number(n, p) = e2 {
            if c.numbers.contains(n as int) == p {
                (c, None)
            } else {
                (ControllerView { numbers: set_to(c.numbers, n as int, p), ..c }, Some(e2))
            }
        } else {
            (c, Some(e2))
        }
    }
}


/// Bit `i` of `x` is set.
pub open spec fn bit_set(x: u128, i: int) -> bool {
    x & (1u128 << (i as u128)) != 0
}

/// The indices of the set bits of `x`.
pub open spec fn bits_of(x: u128) -> Set<int> {
    Set::new(|i: int| 0 <= i < 128 && bit_set(x, i))
}

/// Toggling bit `b` changes bit `b` only.
proof fn lemma_toggle(x: u128, b: int)
    requires
        0 <= b < 128,
    ensures
        bits_of(x ^ (1u128 << (b as u128))) == (if bits_of(x).contains(b) {
            bits_of(x).remove(b)
        } else {
            bits_of(x).insert(b)
        }),
{
    let y = x ^ (1u128 << (b as u128));
    let bb = b as u128;
    assert forall|i: int| 0 <= i < 128 implies #[trigger] bit_set(y, i) == (if i == b {
        !bit_set(x, i)
    } else {
        bit_set(x, i)
    }) by {
        let ii = i as u128;
        assert(bb < 128 && ii < 128 ==> ((x ^ (1u128 << bb)) & (1u128 << ii) != 0) == (if ii == bb {
            x & (1u128 << ii) == 0
        } else {
            x & (1u128 << ii) != 0
        })) by (bit_vector);
    }
    let target = if bits_of(x).contains(b) {
        bits_of(x).remove(b)
    } else {
        bits_of(x).insert(b)
    };
    assert(bits_of(y) =~= target);
}

/// The state of one device: its routes, its held buttons and its axes.
pub struct Controller {
    id: u64,
    name: String,
    routes: HashMap<u8, Route>,
    btns: u128,
    nums: u128,
    axis: [u64; AXIS_COUNT],
}

impl View for Controller {
    type V = ControllerView;

    closed spec fn view(&self) -> ControllerView {
        ControllerView {
            id: self.id,
            name: self.name@,
            routes: self.routes@,
            buttons: bits_of(self.btns),
            numbers: bits_of(self.nums),
            axes: self.axis@,
        }
    }
}

/// A controller tracks twelve axes.
pub proof fn lemma_axis_count(c: &Controller)
    ensures
        c@.axes.len() == AXIS_COUNT,
{
}

impl Controller {
    /// A controller for the device `id` named `name`, with its inputs routed
    /// by `routes`: no button held, every axis at `0.0`.
    pub fn new(id: u64, name: String, routes: HashMap<u8, Route>) -> (r: Controller)
        ensures
            r@.id == id,
            r@.name == name@,
            r@.routes == routes@,
            r@.buttons == Set::<int>::empty(),
            r@.numbers == Set::<int>::empty(),
            r@.axes == Seq::new(AXIS_COUNT as nat, |i: int| 0u64),
    {
        let axis: [u64; AXIS_COUNT] = [0; AXIS_COUNT];
        assert(axis@ =~= Seq::new(AXIS_COUNT as nat, |i: int| 0u64));
        assert forall|k: int| 0 <= k < 128 implies !#[trigger] bit_set(0u128, k) by {
            let kk = k as u128;
            assert(kk < 128 ==> 0u128 & (1u128 << kk) == 0) by (bit_vector);
        }
        assert(bits_of(0) =~= Set::<int>::empty());
        Controller { id, name, routes, btns: 0, nums: 0, axis }
    }

    /// Identifier of the device's model.
    pub fn id(&self) -> (r: u64)
        ensures
            r == self@.id,
    {
        self.id
    }

    /// Name of the device.
    pub fn name(&self) -> (r: &String)
        ensures
            r@ == self@.name,
    {
        &self.name
    }

    fn is_held(x: u128, b: u8) -> (r: bool)
        requires
            b < 128,
        ensures
            r == bits_of(x).contains(b as int),
    {
        x & (1u128 << b) != 0
    }

    /// A plain button to state `p`: reported as `out` if that changes it.
    fn toggle_button(&mut self, b: u8, out: Event, p: bool) -> (r: Option<Event>)
        requires
            b < 128,
        ensures
            old(self)@.buttons.contains(b as int) == p ==> final(self)@ == old(self)@ && r is None,
            old(self)@.buttons.contains(b as int) != p ==> final(self)@ == (ControllerView {
                buttons: set_to(old(self)@.buttons, b as int, p),
                ..old(self)@
            }) && r == Some(out),
    {
        if Self::is_held(self.btns, b) == p {
            None
        } else {
            proof {
                lemma_toggle(self.btns, b as int);
            }
            self.btns = self.btns ^ (1u128 << b);
            proof {
                assert(self@.buttons =~= set_to(old(self)@.buttons, b as int, p));
            }
            Some(out)
        }
    }

    /// A hat button to state `p`: reported as `out` if that changes it; a
    /// release that changes nothing releases the opposite direction `b2`
    /// instead, reported as `release`.
    fn toggle_hat(&mut self, b: u8, b2: u8, out: Event, release: Event, p: bool) -> (r: Option<Event>)
        requires
            b < 128,
            b2 < 128,
            b != b2,
        ensures
            old(self)@.buttons.contains(b as int) == p ==> if !p && old(self)@.buttons.contains(
                b2 as int,
            ) {
                final(self)@ == (ControllerView {
                    buttons: old(self)@.buttons.remove(b2 as int),
                    ..old(self)@
                }) && r == Some(release)
            } else {
                final(self)@ == old(self)@ && r is None
            },
            old(self)@.buttons.contains(b as int) != p ==> final(self)@ == (ControllerView {
                buttons: set_to(old(self)@.buttons, b as int, p),
                ..old(self)@
            }) && r == Some(out),
    {
        if Self::is_held(self.btns, b) == p {
            if !p {
                self.toggle_button(b2, release, p)
            } else {
                None
            }
        } else {
            self.toggle_button(b, out, p)
        }
    }

    /// A numbered button to state `p`.
    fn number(&mut self, n: i8, p: bool) -> (r: Option<Event>)
        requires
            n >= 0,
        ensures
            old(self)@.numbers.contains(n as int) == p ==> final(self)@ == old(self)@ && r is None,
            old(self)@.numbers.contains(n as int) != p ==> final(self)@ == (ControllerView {
                numbers: set_to(old(self)@.numbers, n as int, p),
                ..old(self)@
            }) && r == Some(Event::Number(n, p)),
    {
        let b = n as u8;
        if Self::is_held(self.nums, b) == p {
            None
        } else {
            proof {
                lemma_toggle(self.nums, b as int);
            }
            self.nums = self.nums ^ (1u128 << b);
            proof {
                assert(self@.numbers =~= set_to(old(self)@.numbers, n as int, p));
            }
            Some(Event::Number(n, p))
        }
    }

    /// A full axis (`pressure` false) or a pressure axis to value `v` from
    /// input `input`: the settled value if that changes the axis.
    fn axis(&mut self, input: u8, a: usize, v: u64, pressure: bool) -> (r: Option<u64>)
        requires
            a < AXIS_COUNT,
        ensures
            ({
                let s = settled_value(old(self)@.routes, input, v, pressure);
                if eq_f64(old(self)@.axes[a as int], s) {
                    final(self)@ == old(self)@ && r is None
                } else {
                    final(self)@ == (ControllerView { axes: old(self)@.axes.update(a as int, s), ..old(self)@ })
                        && r == Some(s)
                }
            }),
    {
        let c = if pressure {
            f64_clamp(v, 0, PLUS_ONE_F64)
        } else {
            f64_clamp(v, MINUS_ONE_F64, PLUS_ONE_F64)
        };
        let m = if pressure {
            c
        } else {
            f64_abs(c)
        };
        let mut s = c;
        match self.routes.get(&input) {
            Some(route) => {
                if !f64_is_nan(route.deadzone) && f64_le(m, route.deadzone) {
                    s = 0;
                }
            },
            None => {},
        }
        if f64_eq(self.axis[a], s) {
            None
        } else {
            self.axis[a] = s;
            Some(s)
        }
    }

    /// Whether [`Controller::process`] takes `event`: it is not remapped to
    /// a numbered button with a negative number.
    pub fn handles(&self, event: Event) -> (r: bool)
        ensures
            r == is_handled(self@.routes, event),
    {
        let (ev, value) = event.to_id();
        let e2 = match self.routes.get(&ev) {
            Some(route) => {
                let remapped = Event::from_id(route.out, value);
                proof {
                    lemma_from_id_unique(remapped, route.out, value);
                }
                if let Event::Disconnect = remapped {
                    return true;
                }
                remapped
            },
            None => event,
        };
        match e2 {
            Event::Number(n, _) => n >= 0,
            _ => true,
        }
    }

    /// Remap the platform event `event` and report it if it changes the
    /// controller's state; an event the controller keeps no state for is
    /// reported as it comes.
    pub fn process(&mut self, event: Event) -> (r: Option<Event>)
        requires
            is_handled(old(self)@.routes, event),
        ensures
            (final(self)@, r) == spec_process(old(self)@, event),
    {
        let (ev, value) = event.to_id();
        let e2 = match self.routes.get(&ev) {
            Some(route) => {
                let remapped = Event::from_id(route.out, value);
                proof {
                    lemma_from_id_unique(remapped, route.out, value);
                }
                if let Event::Disconnect = remapped {
                    return None;
                }
                remapped
            },
            None => event,
        };
        match e2 {
            Event::Disconnect => Some(Event::Disconnect),
            Event::Exit(p) => self.toggle_button(0, e2, p),
            Event::MenuL(p) => self.toggle_button(1, e2, p),
            Event::MenuR(p) => self.toggle_button(2, e2, p),
            Event::ActionA(p) => self.toggle_button(3, e2, p),
            Event::ActionB(p) => self.toggle_button(4, e2, p),
            Event::ActionC(p) => self.toggle_button(5, e2, p),
            Event::ActionH(p) => self.toggle_button(6, e2, p),
            Event::ActionV(p) => self.toggle_button(7, e2, p),
            Event::ActionD(p) => self.toggle_button(8, e2, p),
            Event::Up(p) => self.toggle_button(9, e2, p),
            Event::Down(p) => self.toggle_button(10, e2, p),
            Event::Right(p) => self.toggle_button(11, e2, p),
            Event::Left(p) => self.toggle_button(12, e2, p),
            Event::BumperL(p) => self.toggle_button(13, e2, p),
            Event::BumperR(p) => self.toggle_button(14, e2, p),
            Event::Joy(p) => self.toggle_button(15, e2, p),
            Event::Cam(p) => self.toggle_button(16, e2, p),
            Event::PaddleLeft(p) => self.toggle_button(17, e2, p),
            Event::PaddleRight(p) => self.toggle_button(18, e2, p),
            Event::PinkyLeft(p) => self.toggle_button(19, e2, p),
            Event::PinkyRight(p) => self.toggle_button(20, e2, p),
            Event::Trigger(p) => self.toggle_button(21, e2, p),
            Event::HatUp(p) => self.toggle_hat(22, 23, e2, Event::HatDown(false), p),
            Event::HatDown(p) => self.toggle_hat(23, 22, e2, Event::HatUp(false), p),
            Event::HatRight(p) => self.toggle_hat(24, 25, e2, Event::HatLeft(false), p),
            Event::HatLeft(p) => self.toggle_hat(25, 24, e2, Event::HatRight(false), p),
            Event::TriggerL(v) => match self.axis(ev, 0, v, true) {
                Some(s) => Some(Event::TriggerL(s)),
                None => None,
            },
            Event::TriggerR(v) => match self.axis(ev, 1, v, true) {
                Some(s) => Some(Event::TriggerR(s)),
                None => None,
            },
            Event::JoyX(v) => match self.axis(ev, 2, v, false) {
                Some(s) => Some(Event::JoyX(s)),
                None => None,
            },
            Event::JoyY(v) => match self.axis(ev, 3, v, false) {
                Some(s) => Some(Event::JoyY(s)),
                None => None,
            },
            Event::JoyZ(v) => match self.axis(ev, 4, v, false) {
                Some(s) => Some(Event::JoyZ(s)),
                None => None,
            },
            Event::CamX(v) => match self.axis(ev, 5, v, false) {
                Some(s) => Some(Event::CamX(s)),
                None => None,
            },
            Event::CamY(v) => match self.axis(ev, 6, v, false) {
                Some(s) => Some(Event::CamY(s)),
                None => None,
            },
            Event::CamZ(v) => match self.axis(ev, 7, v, false) {
                Some(s) => Some(Event::CamZ(s)),
                None => None,
            },
            Event::Wheel(v) => match self.axis(ev, 8, v, false) {
                Some(s) => Some(Event::Wheel(s)),
                None => None,
            },
            Event::Brake(v) => match self.axis(ev, 9, v, false) {
                Some(s) => Some(Event::Brake(s)),
                None => None,
            },
            Event::Gas(v) => match self.axis(ev, 10, v, false) {
                Some(s) => Some(Event::Gas(s)),
                None => None,
            },
            Event::Rudder(v) => match self.axis(ev, 11, v, false) {
                Some(s) => Some(Event::Rudder(s)),
                None => None,
            },
            Event::Number(n, p) => self.number(n, p),
            _ => Some(e2),
        }
    }
}

/// Whether `e` is, after remapping, the release of a hat direction while
/// both that direction and the opposite one are held: the one event whose
/// repetition still changes the state (the first releases the direction,
/// the second the opposite one).
pub open spec fn releases_held_pair(c: ControllerView, e: Event) -> bool {
    match spec_remapped(c.routes, e) {
        Some(e2) => match hat_slot(e2) {
            Some((i, j, _, p)) => !p && c.buttons.contains(i) && c.buttons.contains(j),
            None => false,
        },
        None => false,
    }
}

/// Whether `e` is, after remapping, an axis event whose value is NaN: NaN
/// differs from every value, itself included, so it is reported every time.
pub open spec fn is_nan_axis(c: ControllerView, e: Event) -> bool {
    match spec_remapped(c.routes, e) {
        Some(e2) => match axis_slot(e2) {
            Some((_, v, _)) => is_nan_f64(v),
            None => false,
        },
        None => false,
    }
}

proof fn lemma_settled_nan(routes: Map<u8, Route>, input: u8, v: u64, pressure: bool)
    ensures
        is_nan_f64(settled_value(routes, input, v, pressure)) == is_nan_f64(v),
{
    let lo = if pressure { 0u64 } else { MINUS_ONE_F64 };
    assert(!is_nan_f64(0u64)) by (bit_vector);
    assert(!is_nan_f64(MINUS_ONE_F64)) by (bit_vector);
    assert(!is_nan_f64(PLUS_ONE_F64)) by (bit_vector);
    let c = clamp_f64(v, lo, PLUS_ONE_F64);
    assert(is_nan_f64(c) == is_nan_f64(v));
    let m = if pressure { c } else { abs_f64(c) };
    assert(is_nan_f64(abs_f64(c)) == is_nan_f64(c)) by (bit_vector);
    assert(is_nan_f64(m) == is_nan_f64(v));
}

/// Processing an event a second time leaves the state where the first time
/// put it, but for the release of a hat direction while the opposite one is
/// held too.
pub proof fn lemma_process_idempotent(c: ControllerView, e: Event)
    requires
        c.axes.len() == AXIS_COUNT,
        !releases_held_pair(c, e),
    ensures
        spec_process(spec_process(c, e).0, e).0 == spec_process(c, e).0,
{
    let c1 = spec_process(c, e).0;
    assert(c1.routes == c.routes);
    match spec_remapped(c.routes, e) {
        None => {},
        Some(e2) => {
            if e2 is Disconnect {
            } else if let Some((i, p)) = button_slot(e2) {
            } else if let Some((i, j, release, p)) = hat_slot(e2) {
            } else if let Some((a, v, pressure)) = axis_slot(e2) {
                let input = spec_to_id(e).0;
                let s = settled_value(c.routes, input, v, pressure);
                if !eq_f64(c.axes[a], s) {
                    assert(c1.axes == c.axes.update(a, s));
                    if eq_f64(c1.axes[a], s) {
                    } else {
                        assert(c1.axes.update(a, s) =~= c1.axes);
                    }
                }
            } else if let Event::Number(n, p) = e2 {
            }
        },
    }
}

/// An event that comes again is not reported again: the state already
/// holds what it says.  Disconnection is reported each time, and so is an
/// event the controller keeps no state for; so is an axis value that is
/// NaN, and the release of a hat direction while the opposite one is held
/// too releases that one the second time.
pub proof fn lemma_repeat_not_reported(c: ControllerView, e: Event)
    requires
        c.axes.len() == AXIS_COUNT,
        !(spec_remapped(c.routes, e) == Some(Event::Disconnect)),
        spec_remapped(c.routes, e) matches Some(e2) ==> is_tracked(e2),
        !releases_held_pair(c, e),
        !is_nan_axis(c, e),
    ensures
        spec_process(spec_process(c, e).0, e).1 is None,
{
    let c1 = spec_process(c, e).0;
    assert(c1.routes == c.routes);
    match spec_remapped(c.routes, e) {
        None => {},
        Some(e2) => {
            if e2 is Disconnect {
            } else if let Some((i, p)) = button_slot(e2) {
            } else if let Some((i, j, release, p)) = hat_slot(e2) {
            } else if let Some((a, v, pressure)) = axis_slot(e2) {
                let input = spec_to_id(e).0;
                let s = settled_value(c.routes, input, v, pressure);
                lemma_settled_nan(c.routes, input, v, pressure);
                if !eq_f64(c.axes[a], s) {
                    assert(c1.axes[a] == s);
                }
                assert(eq_f64(c1.axes[a], s));
            } else if let Event::Number(n, p) = e2 {
            }
        },
    }
}

/// What a controller reports agrees with its new state: a reported button
/// or numbered button is held exactly when the event says it is pushed, and
/// a reported axis event carries the value that the axis now holds.
pub proof fn lemma_report_matches_state(c: ControllerView, e: Event)
    requires
        c.axes.len() == AXIS_COUNT,
        spec_process(c, e).1 is Some,
    ensures
        ({
            let (c1, r) = spec_process(c, e);
            let r = r->0;
            &&& button_slot(r) matches Some((i, p)) ==> c1.buttons.contains(i) == p
            &&& hat_slot(r) matches Some((i, _, _, p)) ==> c1.buttons.contains(i) == p
            &&& axis_slot(r) matches Some((a, v, _)) ==> c1.axes[a] == v
            &&& r matches Event::Number(n, p) ==> c1.numbers.contains(n as int) == p
        }),
{
    match spec_remapped(c.routes, e) {
        None => {},
        Some(e2) => {
            if e2 is Disconnect {
            } else if let Some((i, p)) = button_slot(e2) {
            } else if let Some((i, j, release, p)) = hat_slot(e2) {
            } else if let Some((a, v, pressure)) = axis_slot(e2) {
                let input = spec_to_id(e).0;
                let s = settled_value(c.routes, input, v, pressure);
                assert(axis_slot(with_value(e2, s)) == Some((a, s, pressure)));
            } else if let Event::Number(n, p) = e2 {
            }
        },
    }
}

/// A button event is reported exactly when it changes the button, and the
/// button then holds the state the event says: a press is reported once,
/// until the release.
pub proof fn lemma_button_once(c: ControllerView, e: Event)
    requires
        spec_remapped(c.routes, e) matches Some(e2) && button_slot(e2) is Some,
    ensures
        ({
            let e2 = spec_remapped(c.routes, e)->0;
            let (i, p) = button_slot(e2)->0;
            let (c1, r) = spec_process(c, e);
            &&& (r is Some <==> c.buttons.contains(i) != p)
            &&& (r is Some ==> r == Some(e2))
            &&& c1.buttons.contains(i) == p
        }),
{
}

} // verus!
