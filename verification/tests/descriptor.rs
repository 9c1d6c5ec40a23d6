use stick::descriptor::{
    ctlr_event_from, pad_event_from, AxisEntry, CodeEntry, CtlrDescriptor, CtlrState,
    Levels, ThreeWayEntry, TriggerEntry,
};
use stick::event::{Event, ONE_F64};

const HALF_F64: u64 = 0x3FE0_0000_0000_0000;
const SEVEN_TENTHS_F64: u64 = 0x3FE6_6666_6666_6666;

const KEY: u16 = 1;
const REL: u16 = 2;
const ABS: u16 = 3;

fn pad() -> CtlrDescriptor {
    CtlrDescriptor {
        axes: vec![AxisEntry { code: 0x00, id: 0x20, max: None }],
        // BTN_SOUTH is ActionA; BTN_DPAD_UP is Up
        buttons: vec![CodeEntry { code: 0x10, id: 0x02 }, CodeEntry { code: 0x100, id: 0x10 }],
        // BTN_TL2 is the left trigger's button
        trigbtns: vec![CodeEntry { code: 0x18, id: 0x0E }],
        // ABS_Z is the left trigger
        triggers: vec![TriggerEntry { code: 0x02, id: 0x0E, max: None, dead: None }],
        // ABS_HAT0X: Left / Right; ABS_HAT0Y: Up / Down
        three_ways: vec![
            ThreeWayEntry { code: 0x10, neg: 0x12, pos: 0x13 },
            ThreeWayEntry { code: 0x11, neg: 0x10, pos: 0x11 },
        ],
        // ABS_HAT1X: point-of-view hat, reported as two axes
        three_axes: vec![ThreeWayEntry { code: 0x12, neg: 0x1C, pos: 0x1D }],
        // REL_WHEEL
        wheels: vec![CodeEntry { code: 0x08, id: 0x2B }],
    }
}

#[test]
fn keys_report_press_and_release_but_not_repeats() {
    let d = pad();
    let mut st = CtlrState::new(&d);
    assert_eq!(ctlr_event_from(&d, KEY, 0x130, 1, &lv(&d, 0), &mut st), Some(Event::ActionA(true)));
    assert_eq!(ctlr_event_from(&d, KEY, 0x130, 2, &lv(&d, 0), &mut st), None);
    assert_eq!(ctlr_event_from(&d, KEY, 0x130, 0, &lv(&d, 0), &mut st), Some(Event::ActionA(false)));
    // an unknown key reports nothing
    assert_eq!(ctlr_event_from(&d, KEY, 0x131, 1, &lv(&d, 0), &mut st), None);
}

#[test]
fn held_trigger_button_hides_the_analog_value() {
    let d = pad();
    let mut st = CtlrState::new(&d);
    assert_eq!(ctlr_event_from(&d, ABS, 0x02, 128, &lv(&d, HALF_F64), &mut st), Some(Event::TriggerL(HALF_F64)));
    assert_eq!(ctlr_event_from(&d, KEY, 0x138, 1, &lv(&d, 0), &mut st), Some(Event::TriggerL(ONE_F64)));
    assert!(st.trigger_l_held);
    assert_eq!(ctlr_event_from(&d, ABS, 0x02, 178, &lv(&d, SEVEN_TENTHS_F64), &mut st), None);
    assert_eq!(st.trigger_l, SEVEN_TENTHS_F64);
    // released: the trigger goes back to its analog value
    assert_eq!(
        ctlr_event_from(&d, KEY, 0x138, 0, &lv(&d, 0), &mut st),
        Some(Event::TriggerL(SEVEN_TENTHS_F64))
    );
}

#[test]
fn three_way_flip_releases_then_queues() {
    let d = pad();
    let mut st = CtlrState::new(&d);
    assert_eq!(ctlr_event_from(&d, ABS, 0x10, -1, &lv(&d, 0), &mut st), Some(Event::Left(true)));
    assert_eq!(st.queued, None);
    // straight to the other side: the old side is released, the press queued
    assert_eq!(ctlr_event_from(&d, ABS, 0x10, 1, &lv(&d, 0), &mut st), Some(Event::Left(false)));
    assert_eq!(st.queued, Some(Event::Right(true)));
    assert_eq!(st.neg[0], Some(false));
    // back to rest: the right side was never reported pushed, so its
    // release repeats the last report and is dropped
    assert_eq!(ctlr_event_from(&d, ABS, 0x10, 0, &lv(&d, 0), &mut st), None);
    assert_eq!(st.neg[0], None);
    assert_eq!(ctlr_event_from(&d, ABS, 0x10, 1, &lv(&d, 0), &mut st), Some(Event::Right(true)));
    assert_eq!(ctlr_event_from(&d, ABS, 0x10, 0, &lv(&d, 0), &mut st), Some(Event::Right(false)));
}

#[test]
fn dpad_reported_twice_is_reported_once() {
    let d = pad();
    let mut st = CtlrState::new(&d);
    assert_eq!(ctlr_event_from(&d, KEY, 0x220, 1, &lv(&d, 0), &mut st), Some(Event::Up(true)));
    assert_eq!(ctlr_event_from(&d, ABS, 0x11, -1, &lv(&d, 0), &mut st), None);
    assert_eq!(ctlr_event_from(&d, KEY, 0x220, 0, &lv(&d, 0), &mut st), Some(Event::Up(false)));
    assert_eq!(ctlr_event_from(&d, ABS, 0x11, 0, &lv(&d, 0), &mut st), None);
}

#[test]
fn three_axes_report_levels() {
    let d = pad();
    let mut st = CtlrState::new(&d);
    assert_eq!(ctlr_event_from(&d, ABS, 0x12, -1, &lv(&d, 0), &mut st), Some(Event::PovUp(true)));
    assert_eq!(ctlr_event_from(&d, ABS, 0x12, 0, &lv(&d, 0), &mut st), Some(Event::PovUp(false)));
}

#[test]
fn resting_axis_is_reported_once() {
    let d = pad();
    let mut st = pad_state(&d);
    assert_eq!(pad_event_from(&d, ABS, 0x00, 0, &lv(&d, 0), &mut st), Some(Event::JoyX(0)));
    assert_eq!(pad_event_from(&d, ABS, 0x00, 3, &lv(&d, 0), &mut st), None);
    assert_eq!(pad_event_from(&d, ABS, 0x00, 16000, &lv(&d, HALF_F64), &mut st), Some(Event::JoyX(HALF_F64)));
    assert_eq!(pad_event_from(&d, ABS, 0x00, 0, &lv(&d, 0), &mut st), Some(Event::JoyX(0)));
}

#[test]
fn wheels_and_other_types() {
    let d = pad();
    let mut st = CtlrState::new(&d);
    assert_eq!(ctlr_event_from(&d, REL, 0x08, 1, &lv(&d, HALF_F64), &mut st), Some(Event::Wheel(HALF_F64)));
    assert_eq!(ctlr_event_from(&d, 0x00, 0, 0, &lv(&d, 0), &mut st), None);
    assert_eq!(ctlr_event_from(&d, 0x04, 4, 90001, &lv(&d, 0), &mut st), None);
    assert_eq!(ctlr_event_from(&d, 0x15, 0, 1, &lv(&d, 0), &mut st), None);
}

fn pad_state(d: &CtlrDescriptor) -> CtlrState {
    CtlrState::new(d)
}

/// The same normalised value for every entry.
fn lv(d: &CtlrDescriptor, v: u64) -> Levels {
    Levels { axes: vec![v; d.axes.len()], triggers: vec![v; d.triggers.len()], wheel: v }
}

#[test]
fn each_entry_takes_its_own_level() {
    // ABS_X drives both an axis and a trigger, normalised differently.
    let d = CtlrDescriptor {
        axes: vec![AxisEntry { code: 0x00, id: 0x20, max: None }],
        buttons: vec![],
        trigbtns: vec![],
        triggers: vec![TriggerEntry { code: 0x00, id: 0x0F, max: Some(255), dead: None }],
        three_ways: vec![],
        three_axes: vec![],
        wheels: vec![],
    };
    let mut st = CtlrState::new(&d);
    let levels = Levels { axes: vec![0], triggers: vec![HALF_F64], wheel: 0 };
    // the axis rests at zero (reported once), the trigger reports its value last
    assert_eq!(ctlr_event_from(&d, ABS, 0x00, 128, &levels, &mut st), Some(Event::TriggerR(HALF_F64)));
    assert_eq!(st.dead, vec![true]);
    assert_eq!(st.dead_trig, vec![false]);
    assert_eq!(st.trigger_r, HALF_F64);
}
