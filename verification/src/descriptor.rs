//! Conversion of evdev events into controller events through a descriptor
//! of the hardware.
//!
//! A descriptor lists, by evdev code, which event each button, trigger,
//! axis, three-way switch and wheel of a model produces.  Converting keeps
//! a little state: which side each three-way switch was last pushed to,
//! which axes rest at zero, whether a trigger's digital button is held (its
//! analog value is then not reported), and the last state of the d-pad,
//! microphone and point-of-view hats (evdev reports some of them both as
//! an axis and as buttons, so duplicates are removed).
//!
//! Normalising a raw axis value into `-1.0..=1.0` or `0.0..=1.0` is a
//! floating-point computation made by the caller, which hands in the value
//! as each descriptor entry normalises it, as `f64` bit patterns
//! ([`Levels`]).

use vstd::prelude::*;
use crate::event::{Event, bool_bits, button_bits, ONE_F64};
use crate::controller::{spec_from_id, lemma_from_id_unique};
use crate::float_bits::{is_zero_f64, f64_is_zero};

verus! {

/// The evdev code of the first gamepad or joystick button: key codes are
/// numbered from it.
pub const BTN_OFFSET: u16 = 0x120;

/// A descriptor entry that names one event by its code.
#[derive(Clone, Copy, Debug, PartialEq, Eq)]
pub struct CodeEntry {
    /// The evdev code (for keys, counted from [`BTN_OFFSET`]).
    pub code: u16,
    /// Identifier of the event produced (see [`crate::event`]).
    pub id: u8,
}

/// An absolute axis: its code, its event, and the raw value that stands for
/// full deflection (`f64` bits; `None` for `1.0`).
#[derive(Clone, Copy, Debug, PartialEq, Eq)]
pub struct AxisEntry {
    pub code: u16,
    pub id: u8,
    pub max: Option<u64>,
}

/// An analog trigger: its code, its event, the raw value of a full press
/// (`None` for 255) and the part of the range that counts as released
/// (`f64` bits; `None` for none).
#[derive(Clone, Copy, Debug, PartialEq, Eq)]
pub struct TriggerEntry {
    pub code: u16,
    pub id: u8,
    pub max: Option<i32>,
    pub dead: Option<u64>,
}

/// A three-way switch (an axis whose value is negative, zero or positive):
/// its code and the events of its negative and positive sides.
#[derive(Clone, Copy, Debug, PartialEq, Eq)]
pub struct ThreeWayEntry {
    pub code: u16,
    pub neg: u8,
    pub pos: u8,
}

/// How the inputs of one hardware model map to controller events.
#[derive(Debug)]
pub struct CtlrDescriptor {
    /// Full-range absolute axes.
    pub axes: Vec<AxisEntry>,
    /// Buttons, reported pressed or released.
    pub buttons: Vec<CodeEntry>,
    /// Buttons reported as a trigger's value `0.0` or `1.0`.
    pub trigbtns: Vec<CodeEntry>,
    /// Analog triggers.
    pub triggers: Vec<TriggerEntry>,
    /// Three-way switches reported as two buttons.
    pub three_ways: Vec<ThreeWayEntry>,
    /// Three-way switches reported as two axes at `0.0` or `1.0`.
    pub three_axes: Vec<ThreeWayEntry>,
    /// Relative axes.
    pub wheels: Vec<CodeEntry>,
}

/// The value of one evdev event as each entry of a descriptor normalises it
/// (`f64` bit patterns): a full axis by its own maximum into `-1.0..=1.0`, a
/// trigger by its own maximum and dead part into `0.0..=1.0`, a wheel by
/// `1.0`.  Only the entries that name the event's code are read.
#[derive(Debug)]
pub struct Levels {
    /// One value for each axis entry.
    pub axes: Vec<u64>,
    /// One value for each trigger entry.
    pub triggers: Vec<u64>,
    /// The value for the wheels.
    pub wheel: u64,
}

impl Levels {
    /// One value for each axis and each trigger of descriptor `d`.
    pub open spec fn fits(&self, d: &CtlrDescriptor) -> bool {
        &&& self.axes@.len() == d.axes@.len()
        &&& self.triggers@.len() == d.triggers@.len()
    }
}

/// The four directions of a hat, as last reported.
#[derive(Clone, Copy, Debug, PartialEq, Eq, Default)]
pub struct HatState {
    pub up: bool,
    pub down: bool,
    pub left: bool,
    pub right: bool,
}

/// What converting remembers between events.
#[derive(Debug)]
pub struct CtlrState {
    /// Last analog value of the left trigger (`f64` bits).
    pub trigger_l: u64,
    /// Whether the left trigger's digital button is held.
    pub trigger_l_held: bool,
    /// Last analog value of the right trigger (`f64` bits).
    pub trigger_r: u64,
    /// Whether the right trigger's digital button is held.
    pub trigger_r_held: bool,
    /// For each three-way switch: whether it was last pushed to its negative
    /// side (`None` when it rests).
    pub neg: Vec<Option<bool>>,
    /// The same for each three-way axis pair.
    pub neg_axis: Vec<Option<bool>>,
    /// For each axis: whether it rests at zero.
    pub dead: Vec<bool>,
    /// For each trigger: whether it rests at zero.
    pub dead_trig: Vec<bool>,
    pub dpad: HatState,
    pub mic: HatState,
    pub pov: HatState,
    /// The press of a switch's new side, waiting while its old side is
    /// released.
    pub queued: Option<Event>,
}

/// The contents of a [`CtlrState`].
pub struct CtlrStateView {
    pub trigger_l: u64,
    pub trigger_l_held: bool,
    pub trigger_r: u64,
    pub trigger_r_held: bool,
    pub neg: Seq<Option<bool>>,
    pub neg_axis: Seq<Option<bool>>,
    pub dead: Seq<bool>,
    pub dead_trig: Seq<bool>,
    pub dpad: HatState,
    pub mic: HatState,
    pub pov: HatState,
    pub queued: Option<Event>,
}

impl View for CtlrState {
    type V = CtlrStateView;

    open spec fn view(&self) -> CtlrStateView {
        CtlrStateView {
            trigger_l: self.trigger_l,
            trigger_l_held: self.trigger_l_held,
            trigger_r: self.trigger_r,
            trigger_r_held: self.trigger_r_held,
            neg: self.neg@,
            neg_axis: self.neg_axis@,
            dead: self.dead@,
            dead_trig: self.dead_trig@,
            dpad: self.dpad,
            mic: self.mic,
            pov: self.pov,
            queued: self.queued,
        }
    }
}

/// A state fits a descriptor: one entry of memory for each switch, axis
/// and trigger.
pub open spec fn fits(st: CtlrStateView, d: CtlrDescriptor) -> bool {
    &&& st.neg.len() == d.three_ways@.len()
    &&& st.neg_axis.len() == d.three_axes@.len()
    &&& st.dead.len() == d.axes@.len()
    &&& st.dead_trig.len() == d.triggers@.len()
}

impl CtlrState {
    /// The state for a descriptor: all at rest, nothing held or queued.
    pub fn new(d: &CtlrDescriptor) -> (r: CtlrState)
        ensures
            r.wf(d),
            r@.trigger_l == 0 && r@.trigger_r == 0,
            !r@.trigger_l_held && !r@.trigger_r_held,
            forall|i: int| 0 <= i < r@.neg.len() ==> r@.neg[i] is None,
            forall|i: int| 0 <= i < r@.neg_axis.len() ==> r@.neg_axis[i] is None,
            forall|i: int| 0 <= i < r@.dead.len() ==> !r@.dead[i],
            forall|i: int| 0 <= i < r@.dead_trig.len() ==> !r@.dead_trig[i],
            r@.dpad == HatState::default_spec() && r@.mic == HatState::default_spec()
                && r@.pov == HatState::default_spec(),
            r@.queued is None,
    {
        CtlrState {
            trigger_l: 0,
            trigger_l_held: false,
            trigger_r: 0,
            trigger_r_held: false,
            neg: nones(d.three_ways.len()),
            neg_axis: nones(d.three_axes.len()),
            dead: falses(d.axes.len()),
            dead_trig: falses(d.triggers.len()),
            dpad: HatState::rest(),
            mic: HatState::rest(),
            pov: HatState::rest(),
            queued: None,
        }
    }

    /// This state fits descriptor `d` (see [`fits`]).
    pub open spec fn wf(&self, d: &CtlrDescriptor) -> bool {
        fits(self@, *d)
    }
}

impl HatState {
    /// No direction reported.
    pub open spec fn default_spec() -> HatState {
        HatState { up: false, down: false, left: false, right: false }
    }

    /// No direction reported.
    pub fn rest() -> (r: HatState)
        ensures
            r == HatState::default_spec(),
    {
        HatState { up: false, down: false, left: false, right: false }
    }
}

fn nones(n: usize) -> (r: Vec<Option<bool>>)
    ensures
        r@.len() == n,
        forall|i: int| 0 <= i < n ==> r@[i] is None,
{
    let mut v: Vec<Option<bool>> = Vec::new();
    while v.len() < n
        invariant
            v@.len() <= n,
            forall|i: int| 0 <= i < v@.len() ==> v@[i] is None,
        decreases n - v@.len(),
    {
        v.push(None);
    }
    v
}

fn falses(n: usize) -> (r: Vec<bool>)
    ensures
        r@.len() == n,
        forall|i: int| 0 <= i < n ==> !r@[i],
{
    let mut v: Vec<bool> = Vec::new();
    while v.len() < n
        invariant
            v@.len() <= n,
            forall|i: int| 0 <= i < v@.len() ==> !v@[i],
        decreases n - v@.len(),
    {
        v.push(false);
    }
    v
}

/* What one evdev event does. */

/// A key's value as a button state: `0` released, `1` pressed; `None` for
/// the repeats (`2`) that a held key produces and for unknown values.
pub open spec fn held_of(value: i32) -> Option<bool> {
    if value == 0 {
        Some(false)
    } else if value == 1 {
        Some(true)
    } else {
        None
    }
}

/// Event found so far, and the state.
pub type Conversion = (Option<Event>, CtlrStateView);

/// The buttons from entry `k` on, for key `code` with value `value`: each
/// entry that names the code reports its button (the last one wins).
pub open spec fn fold_buttons(t: Seq<CodeEntry>, k: int, code: u16, value: i32, acc: Conversion) -> Conversion
    decreases t.len() - k,
{
    if k < 0 || k >= t.len() {
        acc
    } else {
        let next = if t[k].code == code {
            match held_of(value) {
                Some(h) => (Some(spec_from_id(t[k].id, bool_bits(h))), acc.1),
                None => acc,
            }
        } else {
            acc
        };
        fold_buttons(t, k + 1, code, value, next)
    }
}

/// A trigger's digital button held (`h`) or released: a trigger event
/// remembers the hold and carries `1.0` when pressed, else the trigger's
/// last analog value; another event is reported as it is.
pub open spec fn trigbtn_step(st: CtlrStateView, id: u8, h: bool) -> Conversion {
    let e = spec_from_id(id, bool_bits(h));
    match e {
        Event::TriggerL(v) => (
            Some(Event::TriggerL(if is_zero_f64(v) { st.trigger_l } else { v })),
            CtlrStateView { trigger_l_held: h, ..st },
        ),
        Event::TriggerR(v) => (
            Some(Event::TriggerR(if is_zero_f64(v) { st.trigger_r } else { v })),
            CtlrStateView { trigger_r_held: h, ..st },
        ),
        _ => (Some(e), st),
    }
}

/// The trigger buttons from entry `k` on (see [`trigbtn_step`]).
pub open spec fn fold_trigbtns(t: Seq<CodeEntry>, k: int, code: u16, value: i32, acc: Conversion) -> Conversion
    decreases t.len() - k,
{
    if k < 0 || k >= t.len() {
        acc
    } else {
        let next = if t[k].code == code {
            match held_of(value) {
                Some(h) => trigbtn_step(acc.1, t[k].id, h),
                None => acc,
            }
        } else {
            acc
        };
        fold_trigbtns(t, k + 1, code, value, next)
    }
}

/// The wheels from entry `k` on: each that names the code reports its
/// event with value `level`.
pub open spec fn fold_wheels(t: Seq<CodeEntry>, k: int, code: u16, level: u64, acc: Conversion) -> Conversion
    decreases t.len() - k,
{
    if k < 0 || k >= t.len() {
        acc
    } else {
        let next = if t[k].code == code {
            (Some(spec_from_id(t[k].id, level)), acc.1)
        } else {
            acc
        };
        fold_wheels(t, k + 1, code, level, next)
    }
}

/// The axes from entry `k` on, for absolute code `code`, entry `k`'s value
/// normalised to `levels[k]`: an axis that names the code reports its
/// event, but not zero twice in a row.
pub open spec fn fold_axes(t: Seq<AxisEntry>, k: int, code: u16, levels: Seq<u64>, acc: Conversion) -> Conversion
    decreases t.len() - k,
{
    if k < 0 || k >= t.len() {
        acc
    } else {
        let st = acc.1;
        let z = is_zero_f64(levels[k]);
        let next = if t[k].code == code && !(z && st.dead[k]) {
            (
                Some(spec_from_id(t[k].id, levels[k])),
                CtlrStateView { dead: st.dead.update(k, z), ..st },
            )
        } else {
            acc
        };
        fold_axes(t, k + 1, code, levels, next)
    }
}

/// An analog trigger at `level`: a trigger event remembers the value and is
/// reported unless the trigger's digital button is held; another event is
/// reported as it is.
pub open spec fn trigger_step(acc: Conversion, id: u8, level: u64) -> Conversion {
    let st = acc.1;
    match spec_from_id(id, level) {
        Event::TriggerL(v) => (
            if st.trigger_l_held { acc.0 } else { Some(Event::TriggerL(v)) },
            CtlrStateView { trigger_l: v, ..st },
        ),
        Event::TriggerR(v) => (
            if st.trigger_r_held { acc.0 } else { Some(Event::TriggerR(v)) },
            CtlrStateView { trigger_r: v, ..st },
        ),
        e => (Some(e), st),
    }
}

/// The triggers from entry `k` on, entry `k`'s value normalised to
/// `levels[k]`: a trigger that names the code takes [`trigger_step`], but
/// not at zero twice in a row.
pub open spec fn fold_triggers(t: Seq<TriggerEntry>, k: int, code: u16, levels: Seq<u64>, acc: Conversion) -> Conversion
    decreases t.len() - k,
{
    if k < 0 || k >= t.len() {
        acc
    } else {
        let st = acc.1;
        let z = is_zero_f64(levels[k]);
        let next = if t[k].code == code && !(z && st.dead_trig[k]) {
            trigger_step(
                (acc.0, CtlrStateView { dead_trig: st.dead_trig.update(k, z), ..st }),
                t[k].id,
                levels[k],
            )
        } else {
            acc
        };
        fold_triggers(t, k + 1, code, levels, next)
    }
}

/// The event of side `neg` of switch `w` with value `v`.
pub open spec fn side(w: ThreeWayEntry, neg: bool, v: u64) -> Event {
    spec_from_id(if neg { w.neg } else { w.pos }, v)
}

/// A three-way switch whose last side was `old` moved to `value` (`off`
/// and `on` are the values of a side released and pushed): back to rest
/// releases the old side; a push to a side releases the other side first,
/// if it was pushed, and queues the new press, else reports the press.
/// The result: event, new side, queued event.
pub open spec fn switch_step(w: ThreeWayEntry, old: Option<bool>, value: i32, off: u64, on: u64) -> (
    Option<Event>,
    Option<bool>,
    Option<Event>,
) {
    if value == 0 {
        match old {
            Some(o) => (Some(side(w, o, off)), None, None),
            None => (None, None, None),
        }
    } else {
        let n = value < 0;
        if old == Some(!n) {
            (Some(side(w, !n, off)), Some(n), Some(side(w, n, on)))
        } else {
            (Some(side(w, n, on)), Some(n), None)
        }
    }
}

/// The three-way switches from entry `k` on (see [`switch_step`]); at rest
/// the queue is left as it is.
pub open spec fn fold_three_ways(t: Seq<ThreeWayEntry>, k: int, code: u16, value: i32, acc: Conversion) -> Conversion
    decreases t.len() - k,
{
    if k < 0 || k >= t.len() {
        acc
    } else {
        let st = acc.1;
        let next = if t[k].code == code {
            let (e, n, q) = switch_step(t[k], st.neg[k], value, bool_bits(false), bool_bits(true));
            (e, CtlrStateView { neg: st.neg.update(k, n), queued: if value == 0 { st.queued } else { q }, ..st })
        } else {
            acc
        };
        fold_three_ways(t, k + 1, code, value, next)
    }
}

/// The three-way axis pairs from entry `k` on (see [`switch_step`]).
pub open spec fn fold_three_axes(t: Seq<ThreeWayEntry>, k: int, code: u16, value: i32, acc: Conversion) -> Conversion
    decreases t.len() - k,
{
    if k < 0 || k >= t.len() {
        acc
    } else {
        let st = acc.1;
        let next = if t[k].code == code {
            let (e, n, q) = switch_step(t[k], st.neg_axis[k], value, 0, ONE_F64);
            (e, CtlrStateView { neg_axis: st.neg_axis.update(k, n), queued: if value == 0 { st.queued } else { q }, ..st })
        } else {
            acc
        };
        fold_three_axes(t, k + 1, code, value, next)
    }
}

/// The hat (`0` d-pad, `1` microphone, `2` point of view), direction (`0`
/// up, `1` down, `2` left, `3` right) and state of a hat event.
pub open spec fn hat_of(e: Event) -> Option<(u8, u8, bool)> {
    match e {
        Event::Up(p) => Some((0, 0, p)),
        Event::Down(p) => Some((0, 1, p)),
        Event::Left(p) => Some((0, 2, p)),
        Event::Right(p) => Some((0, 3, p)),
        Event::MicUp(p) => Some((1, 0, p)),
        Event::MicDown(p) => Some((1, 1, p)),
        Event::MicLeft(p) => Some((1, 2, p)),
        Event::MicRight(p) => Some((1, 3, p)),
        Event::PovUp(p) => Some((2, 0, p)),
        Event::PovDown(p) => Some((2, 1, p)),
        Event::PovLeft(p) => Some((2, 2, p)),
        Event::PovRight(p) => Some((2, 3, p)),
        _ => None,
    }
}

/// The last report of direction `dir` of hat `h`.
pub open spec fn direction(h: HatState, dir: u8) -> bool {
    if dir == 0 {
        h.up
    } else if dir == 1 {
        h.down
    } else if dir == 2 {
        h.left
    } else {
        h.right
    }
}

/// Hat `h` with direction `dir` last reported as `p`.
pub open spec fn with_direction(h: HatState, dir: u8, p: bool) -> HatState {
    if dir == 0 {
        HatState { up: p, ..h }
    } else if dir == 1 {
        HatState { down: p, ..h }
    } else if dir == 2 {
        HatState { left: p, ..h }
    } else {
        HatState { right: p, ..h }
    }
}

/// Hat `which` of a state.
pub open spec fn hat_memory(st: CtlrStateView, which: u8) -> HatState {
    if which == 0 {
        st.dpad
    } else if which == 1 {
        st.mic
    } else {
        st.pov
    }
}

/// A state with hat `which` replaced by `h`.
pub open spec fn with_hat(st: CtlrStateView, which: u8, h: HatState) -> CtlrStateView {
    if which == 0 {
        CtlrStateView { dpad: h, ..st }
    } else if which == 1 {
        CtlrStateView { mic: h, ..st }
    } else {
        CtlrStateView { pov: h, ..st }
    }
}

/// Duplicates removed: a d-pad, microphone or point-of-view direction that
/// repeats its last report is dropped; a new one is remembered.
pub open spec fn dedupe(e: Option<Event>, st: CtlrStateView) -> Conversion {
    match e {
        Some(ev) => match hat_of(ev) {
            Some((which, dir, p)) => {
                let h = hat_memory(st, which);
                (
                    if direction(h, dir) == p { None } else { e },
                    with_hat(st, which, with_direction(h, dir, p)),
                )
            },
            None => (e, st),
        },
        None => (e, st),
    }
}

/// The event before duplicates are removed: keys (type 1) through the
/// buttons and trigger buttons, relative axes (type 2) through the wheels,
/// absolute axes (type 3) through the axes, triggers, switches and switch
/// axes in turn; other types (synchronisation, scan codes, force-feedback
/// echoes) report nothing.
pub open spec fn raw_event(d: CtlrDescriptor, ev_type: u16, ev_code: u16, ev_value: i32, l: Levels, st: CtlrStateView) -> Conversion {
    let none: Conversion = (None, st);
    if ev_type == 1 {
        let code = (ev_code - BTN_OFFSET) as u16;
        fold_trigbtns(d.trigbtns@, 0, code, ev_value, fold_buttons(d.buttons@, 0, code, ev_value, none))
    } else if ev_type == 2 {
        fold_wheels(d.wheels@, 0, ev_code, l.wheel, none)
    } else if ev_type == 3 {
        let a = fold_axes(d.axes@, 0, ev_code, l.axes@, none);
        let b = fold_triggers(d.triggers@, 0, ev_code, l.triggers@, a);
        let c = fold_three_ways(d.three_ways@, 0, ev_code, ev_value, b);
        fold_three_axes(d.three_axes@, 0, ev_code, ev_value, c)
    } else {
        none
    }
}

/// What converting the evdev event (`ev_type`, `ev_code`, `ev_value`; its
/// value normalised to `level`) through descriptor `d` reports, and the new
/// state.
pub open spec fn spec_ctlr_event(d: CtlrDescriptor, ev_type: u16, ev_code: u16, ev_value: i32, l: Levels, st: CtlrStateView) -> Conversion {
    let (e, st2) = raw_event(d, ev_type, ev_code, ev_value, l, st);
    dedupe(e, st2)
}

/* Converting. */

fn event_of(id: u8, v: u64) -> (r: Event)
    ensures
        r == spec_from_id(id, v),
{
    let e = Event::from_id(id, v);
    proof {
        lemma_from_id_unique(e, id, v);
    }
    e
}

fn side_event(w: ThreeWayEntry, neg: bool, v: u64) -> (r: Event)
    ensures
        r == side(w, neg, v),
{
    event_of(if neg { w.neg } else { w.pos }, v)
}

fn pass_buttons(t: &Vec<CodeEntry>, code: u16, value: i32, event: Option<Event>, state: &CtlrState) -> (r: Option<Event>)
    ensures
        (r, state@) == fold_buttons(t@, 0, code, value, (event, state@)),
{
    let ghost target = fold_buttons(t@, 0, code, value, (event, state@));
    let mut ev = event;
    let mut k: usize = 0;
    while k < t.len()
        invariant
            k <= t@.len(),
            fold_buttons(t@, k as int, code, value, (ev, state@)) == target,
        decreases t@.len() - k,
    {
        let en = t[k];
        if en.code == code && (value == 0 || value == 1) {
            ev = Some(event_of(en.id, button_bits(value == 1)));
        }
        k = k + 1;
    }
    ev
}

fn pass_trigbtns(t: &Vec<CodeEntry>, code: u16, value: i32, event: Option<Event>, state: &mut CtlrState) -> (r: Option<Event>)
    ensures
        (r, final(state)@) == fold_trigbtns(t@, 0, code, value, (event, old(state)@)),
        final(state).neg@ == old(state).neg@ && final(state).neg_axis@ == old(state).neg_axis@,
        final(state).dead@ == old(state).dead@ && final(state).dead_trig@ == old(state).dead_trig@,
{
    let ghost target = fold_trigbtns(t@, 0, code, value, (event, state@));
    let ghost s0 = state@;
    let mut ev = event;
    let mut k: usize = 0;
    while k < t.len()
        invariant
            k <= t@.len(),
            fold_trigbtns(t@, k as int, code, value, (ev, state@)) == target,
            state.neg@ == s0.neg && state.neg_axis@ == s0.neg_axis,
            state.dead@ == s0.dead && state.dead_trig@ == s0.dead_trig,
        decreases t@.len() - k,
    {
        let en = t[k];
        if en.code == code && (value == 0 || value == 1) {
            let h = value == 1;
            let e = event_of(en.id, button_bits(h));
            match e {
                Event::TriggerL(v) => {
                    state.trigger_l_held = h;
                    ev = Some(Event::TriggerL(if f64_is_zero(v) { state.trigger_l } else { v }));
                },
                Event::TriggerR(v) => {
                    state.trigger_r_held = h;
                    ev = Some(Event::TriggerR(if f64_is_zero(v) { state.trigger_r } else { v }));
                },
                _ => {
                    ev = Some(e);
                },
            }
        }
        k = k + 1;
    }
    ev
}

fn pass_wheels(t: &Vec<CodeEntry>, code: u16, level: u64, state: &CtlrState) -> (r: Option<Event>)
    ensures
        (r, state@) == fold_wheels(t@, 0, code, level, (None, state@)),
{
    let ghost target = fold_wheels(t@, 0, code, level, (None, state@));
    let mut ev: Option<Event> = None;
    let mut k: usize = 0;
    while k < t.len()
        invariant
            k <= t@.len(),
            fold_wheels(t@, k as int, code, level, (ev, state@)) == target,
        decreases t@.len() - k,
    {
        let en = t[k];
        if en.code == code {
            ev = Some(event_of(en.id, level));
        }
        k = k + 1;
    }
    ev
}

fn pass_axes(t: &Vec<AxisEntry>, code: u16, levels: &Vec<u64>, state: &mut CtlrState) -> (r: Option<Event>)
    requires
        old(state).dead@.len() == t@.len(),
        levels@.len() == t@.len(),
    ensures
        (r, final(state)@) == fold_axes(t@, 0, code, levels@, (None, old(state)@)),
        final(state).dead@.len() == t@.len(),
        final(state).neg@ == old(state).neg@ && final(state).neg_axis@ == old(state).neg_axis@,
        final(state).dead_trig@ == old(state).dead_trig@,
{
    let ghost target = fold_axes(t@, 0, code, levels@, (None, state@));
    let ghost s0 = state@;
    let mut ev: Option<Event> = None;
    let mut k: usize = 0;
    while k < t.len()
        invariant
            k <= t@.len(),
            state.dead@.len() == t@.len(),
            levels@.len() == t@.len(),
            fold_axes(t@, k as int, code, levels@, (ev, state@)) == target,
            state.neg@ == s0.neg && state.neg_axis@ == s0.neg_axis && state.dead_trig@ == s0.dead_trig,
        decreases t@.len() - k,
    {
        let en = t[k];
        let level = levels[k];
        let z = f64_is_zero(level);
        if en.code == code && !(z && state.dead[k]) {
            state.dead.set(k, z);
            ev = Some(event_of(en.id, level));
        }
        k = k + 1;
    }
    ev
}

fn pass_triggers(t: &Vec<TriggerEntry>, code: u16, levels: &Vec<u64>, event: Option<Event>, state: &mut CtlrState) -> (r: Option<Event>)
    requires
        old(state).dead_trig@.len() == t@.len(),
        levels@.len() == t@.len(),
    ensures
        (r, final(state)@) == fold_triggers(t@, 0, code, levels@, (event, old(state)@)),
        final(state).dead_trig@.len() == t@.len(),
        final(state).neg@ == old(state).neg@ && final(state).neg_axis@ == old(state).neg_axis@,
        final(state).dead@ == old(state).dead@,
{
    let ghost target = fold_triggers(t@, 0, code, levels@, (event, state@));
    let ghost s0 = state@;
    let mut ev = event;
    let mut k: usize = 0;
    while k < t.len()
        invariant
            k <= t@.len(),
            state.dead_trig@.len() == t@.len(),
            levels@.len() == t@.len(),
            fold_triggers(t@, k as int, code, levels@, (ev, state@)) == target,
            state.neg@ == s0.neg && state.neg_axis@ == s0.neg_axis && state.dead@ == s0.dead,
        decreases t@.len() - k,
    {
        let en = t[k];
        let level = levels[k];
        let z = f64_is_zero(level);
        if en.code == code && !(z && state.dead_trig[k]) {
            state.dead_trig.set(k, z);
            ev = trigger_update(ev, en.id, level, state);
        }
        k = k + 1;
    }
    ev
}

fn trigger_update(event: Option<Event>, id: u8, level: u64, state: &mut CtlrState) -> (r: Option<Event>)
    ensures
        (r, final(state)@) == trigger_step((event, old(state)@), id, level),
        final(state).neg@ == old(state).neg@ && final(state).neg_axis@ == old(state).neg_axis@,
        final(state).dead@ == old(state).dead@ && final(state).dead_trig@ == old(state).dead_trig@,
{
    let e = event_of(id, level);
    match e {
        Event::TriggerL(v) => {
            state.trigger_l = v;
            if state.trigger_l_held { event } else { Some(Event::TriggerL(v)) }
        },
        Event::TriggerR(v) => {
            state.trigger_r = v;
            if state.trigger_r_held { event } else { Some(Event::TriggerR(v)) }
        },
        _ => Some(e),
    }
}

/// One switch moved (see [`switch_step`]).
fn move_switch(w: ThreeWayEntry, old: Option<bool>, value: i32, off: u64, on: u64) -> (r: (
    Option<Event>,
    Option<bool>,
    Option<Event>,
))
    ensures
        r == switch_step(w, old, value, off, on),
{
    if value == 0 {
        match old {
            Some(o) => (Some(side_event(w, o, off)), None, None),
            None => (None, None, None),
        }
    } else {
        let n = value < 0;
        let flip = match old {
            Some(o) => o != n,
            None => false,
        };
        if flip {
            (Some(side_event(w, !n, off)), Some(n), Some(side_event(w, n, on)))
        } else {
            (Some(side_event(w, n, on)), Some(n), None)
        }
    }
}

fn pass_three_ways(t: &Vec<ThreeWayEntry>, code: u16, value: i32, event: Option<Event>, state: &mut CtlrState) -> (r: Option<Event>)
    requires
        old(state).neg@.len() == t@.len(),
    ensures
        (r, final(state)@) == fold_three_ways(t@, 0, code, value, (event, old(state)@)),
        final(state).neg@.len() == t@.len(),
        final(state).neg_axis@ == old(state).neg_axis@,
        final(state).dead@ == old(state).dead@ && final(state).dead_trig@ == old(state).dead_trig@,
{
    let ghost target = fold_three_ways(t@, 0, code, value, (event, state@));
    let ghost s0 = state@;
    let mut ev = event;
    let mut k: usize = 0;
    while k < t.len()
        invariant
            k <= t@.len(),
            state.neg@.len() == t@.len(),
            fold_three_ways(t@, k as int, code, value, (ev, state@)) == target,
            state.neg_axis@ == s0.neg_axis && state.dead@ == s0.dead && state.dead_trig@ == s0.dead_trig,
        decreases t@.len() - k,
    {
        let w = t[k];
        if w.code == code {
            let (e, n, q) = move_switch(w, state.neg[k], value, button_bits(false), button_bits(true));
            ev = e;
            state.neg.set(k, n);
            if value != 0 {
                state.queued = q;
            }
        }
        k = k + 1;
    }
    ev
}

fn pass_three_axes(t: &Vec<ThreeWayEntry>, code: u16, value: i32, event: Option<Event>, state: &mut CtlrState) -> (r: Option<Event>)
    requires
        old(state).neg_axis@.len() == t@.len(),
    ensures
        (r, final(state)@) == fold_three_axes(t@, 0, code, value, (event, old(state)@)),
        final(state).neg_axis@.len() == t@.len(),
        final(state).neg@ == old(state).neg@,
        final(state).dead@ == old(state).dead@ && final(state).dead_trig@ == old(state).dead_trig@,
{
    let ghost target = fold_three_axes(t@, 0, code, value, (event, state@));
    let ghost s0 = state@;
    let mut ev = event;
    let mut k: usize = 0;
    while k < t.len()
        invariant
            k <= t@.len(),
            state.neg_axis@.len() == t@.len(),
            fold_three_axes(t@, k as int, code, value, (ev, state@)) == target,
            state.neg@ == s0.neg && state.dead@ == s0.dead && state.dead_trig@ == s0.dead_trig,
        decreases t@.len() - k,
    {
        let w = t[k];
        if w.code == code {
            let (e, n, q) = move_switch(w, state.neg_axis[k], value, 0, ONE_F64);
            ev = e;
            state.neg_axis.set(k, n);
            if value != 0 {
                state.queued = q;
            }
        }
        k = k + 1;
    }
    ev
}

fn hat_event(e: Event) -> (r: Option<(u8, u8, bool)>)
    ensures
        r == hat_of(e),
{
    match e {
        Event::Up(p) => Some((0, 0, p)),
        Event::Down(p) => Some((0, 1, p)),
        Event::Left(p) => Some((0, 2, p)),
        Event::Right(p) => Some((0, 3, p)),
        Event::MicUp(p) => Some((1, 0, p)),
        Event::MicDown(p) => Some((1, 1, p)),
        Event::MicLeft(p) => Some((1, 2, p)),
        Event::MicRight(p) => Some((1, 3, p)),
        Event::PovUp(p) => Some((2, 0, p)),
        Event::PovDown(p) => Some((2, 1, p)),
        Event::PovLeft(p) => Some((2, 2, p)),
        Event::PovRight(p) => Some((2, 3, p)),
        _ => None,
    }
}

fn report_direction(h: &mut HatState, dir: u8, p: bool) -> (last: bool)
    ensures
        last == direction(*old(h), dir),
        *final(h) == with_direction(*old(h), dir, p),
{
    if dir == 0 {
        let last = h.up;
        h.up = p;
        last
    } else if dir == 1 {
        let last = h.down;
        h.down = p;
        last
    } else if dir == 2 {
        let last = h.left;
        h.left = p;
        last
    } else {
        let last = h.right;
        h.right = p;
        last
    }
}

fn remove_duplicate(event: Option<Event>, state: &mut CtlrState) -> (r: Option<Event>)
    ensures
        (r, final(state)@) == dedupe(event, old(state)@),
        final(state).neg@ == old(state).neg@ && final(state).neg_axis@ == old(state).neg_axis@,
        final(state).dead@ == old(state).dead@ && final(state).dead_trig@ == old(state).dead_trig@,
{
    let ev = match event {
        Some(ev) => ev,
        None => {
            return None;
        },
    };
    match hat_event(ev) {
        Some((which, dir, p)) => {
            let last = if which == 0 {
                report_direction(&mut state.dpad, dir, p)
            } else if which == 1 {
                report_direction(&mut state.mic, dir, p)
            } else {
                report_direction(&mut state.pov, dir, p)
            };
            if last == p { None } else { event }
        },
        None => event,
    }
}

/// Convert the evdev event (`ev_type`, `ev_code`, `ev_value`) through
/// descriptor `d`; `levels` holds the event's value as each entry
/// normalises it (see [`Levels`]).  Repeats of a held key, synchronisation
/// and scan-code events give nothing.
pub fn ctlr_event_from(
    d: &CtlrDescriptor,
    ev_type: u16,
    ev_code: u16,
    ev_value: i32,
    levels: &Levels,
    state: &mut CtlrState,
) -> (r: Option<Event>)
    requires
        old(state).wf(d),
        levels.fits(d),
        ev_type == 1 ==> ev_code >= BTN_OFFSET,
    ensures
        (r, final(state)@) == spec_ctlr_event(*d, ev_type, ev_code, ev_value, *levels, old(state)@),
        final(state).wf(d),
{
    let raw = if ev_type == 1 {
        let code = ev_code - BTN_OFFSET;
        let e = pass_buttons(&d.buttons, code, ev_value, None, state);
        pass_trigbtns(&d.trigbtns, code, ev_value, e, state)
    } else if ev_type == 2 {
        pass_wheels(&d.wheels, ev_code, levels.wheel, state)
    } else if ev_type == 3 {
        let a = pass_axes(&d.axes, ev_code, &levels.axes, state);
        let b = pass_triggers(&d.triggers, ev_code, &levels.triggers, a, state);
        let c = pass_three_ways(&d.three_ways, ev_code, ev_value, b, state);
        pass_three_axes(&d.three_axes, ev_code, ev_value, c, state)
    } else {
        None
    };
    remove_duplicate(raw, state)
}

/// A pad's descriptor: the same as a controller's.
pub type PadDescriptor = CtlrDescriptor;

/// A pad's conversion state: the same as a controller's.
pub type PadState = CtlrState;

/// Convert an evdev event of a pad (see [`ctlr_event_from`]).
pub fn pad_event_from(
    d: &PadDescriptor,
    ev_type: u16,
    ev_code: u16,
    ev_value: i32,
    levels: &Levels,
    state: &mut PadState,
) -> (r: Option<Event>)
    requires
        old(state).wf(d),
        levels.fits(d),
        ev_type == 1 ==> ev_code >= BTN_OFFSET,
    ensures
        (r, final(state)@) == spec_ctlr_event(*d, ev_type, ev_code, ev_value, *levels, old(state)@),
        final(state).wf(d),
{
    ctlr_event_from(d, ev_type, ev_code, ev_value, levels, state)
}

/// A hat direction reported once is not reported again until it changes:
/// the same event right after it is dropped.
pub proof fn lemma_hat_reported_once(e: Event, st: CtlrStateView)
    requires
        hat_of(e) is Some,
    ensures
        dedupe(Some(e), dedupe(Some(e), st).1).0 is None,
{
    let (which, dir, p) = hat_of(e)->0;
    let st1 = dedupe(Some(e), st).1;
    assert(hat_memory(st1, which) == with_direction(hat_memory(st, which), dir, p));
    assert(direction(hat_memory(st1, which), dir) == p);
}

/// Pushing a switch that rests reports the press of that side; pushing it
/// straight to the other side reports the release of the old side and
/// queues the press of the new one; letting it rest releases the side it
/// was pushed to.
pub proof fn lemma_switch_sides(w: ThreeWayEntry, value: i32, off: u64, on: u64, n: bool)
    ensures
        value != 0 ==> switch_step(w, None, value, off, on) == (
            Some(side(w, value < 0, on)),
            Some(value < 0),
            None::<Event>,
        ),
        value != 0 ==> switch_step(w, Some(!(value < 0)), value, off, on) == (
            Some(side(w, !(value < 0), off)),
            Some(value < 0),
            Some(side(w, value < 0, on)),
        ),
        switch_step(w, Some(n), 0, off, on) == (Some(side(w, n, off)), None::<bool>, None::<Event>),
{
}

/// While a trigger's digital button is held, its analog value is recorded
/// but not reported.
pub proof fn lemma_held_trigger_silent(acc: Conversion, id: u8, level: u64)
    requires
        spec_from_id(id, level) is TriggerL,
        acc.1.trigger_l_held,
    ensures
        trigger_step(acc, id, level).0 == acc.0,
        trigger_step(acc, id, level).1.trigger_l == spec_from_id(id, level)->TriggerL_0,
{
}

} // verus!
