use stick::manager::{ControllerManager, Input, PadAxis, PadAxisWrite, PadState, Step};

const ONE_F32: u32 = 0x3F80_0000;

#[test]
fn poll_scans_then_ends() {
    let mut m = ControllerManager::new();
    assert_eq!(m.len(), 0);
    assert_eq!(m.next(), Step::Scan);
    m.scan(0, None);
    assert_eq!(m.next(), Step::Done);
    assert_eq!(m.next(), Step::Scan);
}

#[test]
fn plugging_in_reports_the_model() {
    let mut m = ControllerManager::new();
    assert_eq!(m.next(), Step::Scan);
    m.scan(1, Some(0));
    assert_eq!(m.len(), 1);
    m.plugged_in(0, 0, 255, 42);
    assert_eq!(m.model(0), 42);
    assert_eq!(m.state(0).min, 0);
    assert_eq!(m.state(0).max, 255);
    assert_eq!(m.next(), Step::Input(0, Input::PluggedIn(42)));
    assert_eq!(m.next(), Step::Done);
    m.unplugged(0);
    assert_eq!(m.next(), Step::Input(0, Input::UnPlugged(42)));
}

#[test]
fn polled_buttons_press_hold_release() {
    let mut m = ControllerManager::new();
    m.scan(1, Some(0));
    let mut s = m.state(0);
    s.accept = true;
    m.polled(0, s);
    // The queue is read from its end: buttons after the throttles.
    assert_eq!(m.next(), Step::Input(0, Input::Accept(Some(true))));
    assert_eq!(m.next(), Step::Input(0, Input::ThrottleR(0)));
    assert_eq!(m.next(), Step::Input(0, Input::ThrottleL(0)));
    m.polled(0, s);
    assert_eq!(m.next(), Step::Input(0, Input::Accept(Some(false))));
    m.next();
    m.next();
    s.accept = false;
    s.exit = true;
    s.l = 1 << 1;
    m.polled(0, s);
    assert_eq!(m.next(), Step::Input(0, Input::L(1, Some(true))));
    assert_eq!(m.next(), Step::Input(0, Input::Exit));
    assert_eq!(m.next(), Step::Input(0, Input::Accept(None)));
}

#[test]
fn moved_sticks_are_reported() {
    let mut m = ControllerManager::new();
    m.scan(1, Some(0));
    let mut s = m.state(0);
    s.move_xy = (ONE_F32, 0);
    m.polled(0, s);
    assert_eq!(m.next(), Step::Input(0, Input::Move(ONE_F32, 0)));
}

#[test]
fn throttles_report_changes() {
    let mut m = ControllerManager::new();
    m.scan(2, Some(1));
    assert_eq!(m.change((1, Input::ThrottleL(0))), None);
    assert_eq!(m.change((1, Input::ThrottleL(ONE_F32))), Some((1, Input::ThrottleL(ONE_F32))));
    assert_eq!(m.change((1, Input::ThrottleL(ONE_F32))), None);
    assert_eq!(m.change((1, Input::ThrottleR(0x8000_0000))), None);
    assert_eq!(m.change((0, Input::Move(1, 2))), Some((0, Input::Move(1, 2))));
    assert_eq!(m.change((0, Input::Menu(Some(true)))), Some((0, Input::Menu(Some(true)))));
}

#[test]
fn pad_state_events() {
    let mut s = PadState::new();
    s.min = 0;
    s.max = 255;
    assert_eq!(s.apply_event(1, 0x121, 1), None);
    assert!(s.accept);
    assert_eq!(s.apply_event(1, 0x121, 0), None);
    assert!(!s.accept);
    assert_eq!(s.apply_event(3, 0, 255), Some(PadAxisWrite { axis: PadAxis::MoveX, numerator: 50 }));
    assert_eq!(s.apply_event(3, 2, 0), Some(PadAxisWrite { axis: PadAxis::CamY, numerator: -50 }));
    assert_eq!(s.apply_event(3, 16, -1), None);
    assert!(s.left && !s.right);
    assert_eq!(s.apply_event(1, 0x127, 1), None);
    assert_eq!(s.r, 2);
    s.set_axis(PadAxis::LeftThrottle, ONE_F32);
    assert_eq!(s.left_throttle, ONE_F32);
}

#[test]
fn remappers_apply_to_their_model_and_zero_to_all() {
    assert!(stick::manager::remapper_applies(0x791844, 0x791844));
    assert!(stick::manager::remapper_applies(0, 0x1234));
    assert!(!stick::manager::remapper_applies(0x791844, 0x1234));
}
