use std::collections::HashMap;
use stick::controller::{Controller, Route, MINUS_ONE_F64, PLUS_ONE_F64};
use stick::event::{button_bits, pressed, Event, NAN_F64, ONE_F64};

const HALF_F64: u64 = 0x3FE0_0000_0000_0000;
const TWO_F64: u64 = 0x4000_0000_0000_0000;
const MINUS_ZERO_F64: u64 = 0x8000_0000_0000_0000;

#[test]
fn button_values() {
    assert!(!pressed(0));
    assert!(!pressed(MINUS_ZERO_F64));
    assert!(pressed(ONE_F64));
    assert!(pressed(NAN_F64));
    assert_eq!(button_bits(true), ONE_F64);
    assert_eq!(button_bits(false), 0);
}

#[test]
fn event_ids() {
    assert_eq!(Event::Disconnect.to_id(), (0x00, NAN_F64));
    assert_eq!(Event::ActionA(true).to_id(), (0x02, ONE_F64));
    assert_eq!(Event::ActionB(false).to_id(), (0x03, 0));
    assert_eq!(Event::JoyX(HALF_F64).to_id(), (0x20, HALF_F64));
    assert_eq!(Event::Number(5, true).to_id(), (0x85, ONE_F64));
    assert_eq!(Event::ActionWheelY(TWO_F64).to_id(), (0x5F, TWO_F64));
}

#[test]
fn events_from_ids() {
    assert_eq!(Event::from_id(0x00, 0), Event::Disconnect);
    assert_eq!(Event::from_id(0x02, ONE_F64), Event::ActionA(true));
    assert_eq!(Event::from_id(0x02, TWO_F64), Event::ActionA(true));
    assert_eq!(Event::from_id(0x02, MINUS_ZERO_F64), Event::ActionA(false));
    assert_eq!(Event::from_id(0x20, HALF_F64), Event::JoyX(HALF_F64));
    assert_eq!(Event::from_id(0x0E, HALF_F64), Event::TriggerL(HALF_F64));
    // Identifiers from 0x60 up are numbered buttons.
    assert_eq!(Event::from_id(0x85, ONE_F64), Event::Number(5, true));
    assert_eq!(Event::from_id(0x65, 0), Event::Number(0x65, false));
}

#[test]
fn id_round_trip() {
    let events = [
        Event::Exit(true),
        Event::MenuR(false),
        Event::TriggerR(HALF_F64),
        Event::PovLeft(true),
        Event::CamZ(MINUS_ONE_F64),
        Event::Mouse(true),
        Event::Number(17, false),
        Event::PinkyRight(true),
        Event::TrimDown(false),
    ];
    for e in events {
        let (id, value) = e.to_id();
        assert_eq!(Event::from_id(id, value), e);
    }
}

#[test]
fn remap_keeps_value() {
    assert_eq!(Event::JoyX(HALF_F64).remap(0x21), Event::JoyY(HALF_F64));
    assert_eq!(Event::ActionA(true).remap(0x20), Event::JoyX(ONE_F64));
    assert_eq!(Event::JoyX(HALF_F64).remap(0x02), Event::ActionA(true));
    assert_eq!(Event::JoyX(0).remap(0x02), Event::ActionA(false));
}

fn controller(routes: HashMap<u8, Route>) -> Controller {
    Controller::new(0x1234, "Pad".to_string(), routes)
}

#[test]
fn controller_reports_changes_only() {
    let mut c = controller(HashMap::new());
    assert_eq!(c.id(), 0x1234);
    assert_eq!(c.name(), "Pad");
    assert_eq!(c.process(Event::ActionA(true)), Some(Event::ActionA(true)));
    assert_eq!(c.process(Event::ActionA(true)), None);
    assert_eq!(c.process(Event::ActionA(false)), Some(Event::ActionA(false)));
    assert_eq!(c.process(Event::ActionA(false)), None);
    assert_eq!(c.process(Event::Number(3, true)), Some(Event::Number(3, true)));
    assert_eq!(c.process(Event::Number(3, true)), None);
    assert_eq!(c.process(Event::Disconnect), Some(Event::Disconnect));
    assert_eq!(c.process(Event::Disconnect), Some(Event::Disconnect));
}

#[test]
fn controller_axes_are_clamped() {
    let mut c = controller(HashMap::new());
    assert_eq!(c.process(Event::JoyX(HALF_F64)), Some(Event::JoyX(HALF_F64)));
    assert_eq!(c.process(Event::JoyX(HALF_F64)), None);
    assert_eq!(c.process(Event::JoyX(TWO_F64)), Some(Event::JoyX(PLUS_ONE_F64)));
    assert_eq!(c.process(Event::JoyX(TWO_F64)), None);
    // A pressure axis stops at zero.
    assert_eq!(c.process(Event::TriggerL(MINUS_ONE_F64)), None);
    assert_eq!(c.process(Event::TriggerL(HALF_F64)), Some(Event::TriggerL(HALF_F64)));
}

#[test]
fn controller_routes_and_deadzones() {
    let mut routes = HashMap::new();
    // ActionA becomes ActionB.
    routes.insert(0x02, Route { out: 0x03, deadzone: NAN_F64 });
    // ActionC is dropped.
    routes.insert(0x04, Route { out: 0x00, deadzone: NAN_F64 });
    // JoyY keeps its name but gets a deadzone of 0.5.
    routes.insert(0x21, Route { out: 0x21, deadzone: HALF_F64 });
    let mut c = controller(routes);
    assert_eq!(c.process(Event::ActionA(true)), Some(Event::ActionB(true)));
    assert_eq!(c.process(Event::ActionB(true)), None);
    assert_eq!(c.process(Event::ActionC(true)), None);
    // Inside the deadzone the axis reads zero, which it already is.
    assert_eq!(c.process(Event::JoyY(0x3FD0_0000_0000_0000)), None);
    assert_eq!(c.process(Event::JoyY(0xBFE0_0000_0000_0000)), None);
    assert_eq!(c.process(Event::JoyY(0xBFE8_0000_0000_0000)), Some(Event::JoyY(0xBFE8_0000_0000_0000)));
}

#[test]
fn controller_hat_releases_opposite() {
    let mut c = controller(HashMap::new());
    assert_eq!(c.process(Event::HatDown(true)), Some(Event::HatDown(true)));
    // Releasing the direction that is not held releases the held opposite.
    assert_eq!(c.process(Event::HatUp(false)), Some(Event::HatDown(false)));
    assert_eq!(c.process(Event::HatUp(false)), None);
    assert_eq!(c.process(Event::HatLeft(true)), Some(Event::HatLeft(true)));
    assert_eq!(c.process(Event::HatLeft(false)), Some(Event::HatLeft(false)));
}

#[test]
fn controller_handles_tracked_events() {
    let mut routes = HashMap::new();
    routes.insert(0x04, Route { out: 0x00, deadzone: NAN_F64 });
    routes.insert(0x05, Route { out: 0x50, deadzone: NAN_F64 });
    let c = controller(routes);
    assert!(c.handles(Event::ActionA(true)));
    assert!(c.handles(Event::JoyX(HALF_F64)));
    assert!(c.handles(Event::Number(2, true)));
    assert!(c.handles(Event::Mouse(true)));
    assert!(c.handles(Event::Slew(HALF_F64)));
    assert!(!c.handles(Event::Number(-1, true)));
    // A dropped event is taken, and so is one remapped to the mouse.
    assert!(c.handles(Event::ActionC(true)));
    assert!(c.handles(Event::ActionH(true)));
}

#[test]
fn controller_reports_untracked_events_as_they_come() {
    let mut routes = HashMap::new();
    routes.insert(0x05, Route { out: 0x50, deadzone: NAN_F64 });
    let mut c = controller(routes);
    assert_eq!(c.process(Event::PovUp(true)), Some(Event::PovUp(true)));
    assert_eq!(c.process(Event::PovUp(true)), Some(Event::PovUp(true)));
    assert_eq!(c.process(Event::Slew(HALF_F64)), Some(Event::Slew(HALF_F64)));
    // ActionH is routed to the mouse button
    assert_eq!(c.process(Event::ActionH(true)), Some(Event::Mouse(true)));
}

#[test]
fn event_names_and_words() {
    assert_eq!(Event::ActionA(true).name(), "ActionA");
    assert_eq!(Event::ActionA(true).word(), Some("Pushed"));
    assert_eq!(Event::ActionA(false).word(), Some("Released"));
    assert_eq!(Event::Eac(true).word(), Some("Forward"));
    assert_eq!(Event::Apu(false).word(), Some("Backward"));
    assert_eq!(Event::FlapsUp(true).word(), Some("Enter"));
    assert_eq!(Event::ChinaBackward(false).word(), Some("Leave"));
    assert_eq!(Event::JoyX(HALF_F64).name(), "JoyX");
    assert_eq!(Event::JoyX(HALF_F64).word(), None);
    assert_eq!(Event::Disconnect.name(), "Disconnect");
    assert_eq!(Event::Disconnect.word(), None);
    assert_eq!(Event::Number(3, true).name(), "Number");
    assert_eq!(Event::Number(3, true).word(), Some("Pushed"));
}
