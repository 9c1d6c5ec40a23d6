use stick::evdev::{take_queued, to_stick_abs, to_stick_btn, to_stick_events, to_stick_rel, TRIGGER_FULL_F64};
use stick::event::Event;
use stick::float_bits::{f32_eq, f32_is_zero, f32_lt, f64_abs, f64_clamp, f64_eq, f64_is_nan, f64_le, f64_lt, i32_to_f64_bits, u32_to_f64_bits};
use stick::raw_linux::{linux_abs_to_stick_event, linux_btn_to_stick_event, linux_evdev_to_stick_event, linux_rel_to_stick_event};

const HALF: u64 = 0x3FE0_0000_0000_0000;
const MINUS_HALF: u64 = 0xBFE0_0000_0000_0000;

#[test]
fn integer_conversions_match_casts() {
    for v in [0i32, 1, -1, 2, 3, 255, -255, 1 << 24, (1 << 24) + 1, i32::MAX, i32::MIN, -123_456_789] {
        assert_eq!(i32_to_f64_bits(v), (v as f64).to_bits(), "{}", v);
    }
    for v in [0u32, 1, 7, 1000, u32::MAX, 0x8000_0000] {
        assert_eq!(u32_to_f64_bits(v), (v as f64).to_bits(), "{}", v);
    }
}

#[test]
fn float_comparisons() {
    let nan = f64::NAN.to_bits();
    assert!(f64_is_nan(nan));
    assert!(!f64_is_nan(HALF));
    assert!(f64_lt(MINUS_HALF, HALF));
    assert!(!f64_lt(HALF, HALF));
    assert!(f64_le(HALF, HALF));
    assert!(!f64_le(nan, nan));
    assert!(f64_eq(0, (-0.0f64).to_bits()));
    assert!(!f64_eq(nan, nan));
    assert_eq!(f64_abs(MINUS_HALF), HALF);
    assert_eq!(f64_clamp(2.0f64.to_bits(), (-1.0f64).to_bits(), 1.0f64.to_bits()), 1.0f64.to_bits());
    assert_eq!(f64_clamp(MINUS_HALF, (-1.0f64).to_bits(), 1.0f64.to_bits()), MINUS_HALF);
    assert!(f32_lt(0.5f32.to_bits(), 1.0f32.to_bits()));
    assert!(f32_lt((-1.0f32).to_bits(), 0));
    assert!(!f32_lt(f32::NAN.to_bits(), 1.0f32.to_bits()));
    assert!(f32_is_zero((-0.0f32).to_bits()));
    assert!(f32_eq(0, (-0.0f32).to_bits()));
    assert!(!f32_eq(f32::NAN.to_bits(), f32::NAN.to_bits()));
}

#[test]
fn evdev_buttons() {
    assert_eq!(to_stick_btn(0x130, true), Some(Event::ActionA(true)));
    assert_eq!(to_stick_btn(0x13C, false), Some(Event::Exit(false)));
    assert_eq!(to_stick_btn(0x126, true), Some(Event::Number(1, true)));
    assert_eq!(to_stick_btn(0x2C0, true), Some(Event::Number(11, true)));
    assert_eq!(to_stick_btn(0x138, true), Some(Event::TriggerL(TRIGGER_FULL_F64)));
    assert_eq!(to_stick_btn(0x139, false), Some(Event::TriggerR(0)));
    assert_eq!(to_stick_btn(0x13F, true), None);
    assert_eq!(TRIGGER_FULL_F64, 255.0f64.to_bits());
}

#[test]
fn evdev_axes() {
    assert_eq!(to_stick_rel(0, 5), Some(Event::MouseX(5.0f64.to_bits())));
    assert_eq!(to_stick_rel(1, 0), Some(Event::MouseY(0)));
    assert_eq!(to_stick_rel(8, 1), None);
    let mut queued = None;
    assert_eq!(to_stick_abs(&mut queued, 0x00, HALF), Some(Event::JoyX(HALF)));
    assert_eq!(to_stick_abs(&mut queued, 0x0D, HALF), Some(Event::ThrottleR(HALF)));
    assert_eq!(queued, None);
    // A hat pushes the direction of the sign.
    assert_eq!(to_stick_abs(&mut queued, 0x10, HALF), Some(Event::PovRight(true)));
    assert_eq!(to_stick_abs(&mut queued, 0x11, MINUS_HALF), Some(Event::PovUp(true)));
    // Back at the centre, it releases one direction and queues the other.
    assert_eq!(to_stick_abs(&mut queued, 0x12, 0), Some(Event::HatRight(false)));
    assert_eq!(queued, Some(Event::HatLeft(false)));
    assert_eq!(take_queued(&mut queued), Some(Event::HatLeft(false)));
    assert_eq!(take_queued(&mut queued), None);
}

#[test]
fn evdev_events_while_disabled() {
    let mut queued = None;
    assert_eq!(to_stick_events(&mut queued, false, 0x01, 0x130, 1, 0), None);
    assert_eq!(to_stick_events(&mut queued, true, 0x01, 0x130, 1, 0), Some(Event::ActionA(true)));
    assert_eq!(to_stick_events(&mut queued, true, 0x02, 0x00, 3, 0), Some(Event::MouseX(3.0f64.to_bits())));
    assert_eq!(to_stick_events(&mut queued, true, 0x03, 0x01, 0, HALF), Some(Event::JoyY(HALF)));
    assert_eq!(to_stick_events(&mut queued, true, 0x04, 0x01, 0, HALF), None);
}

#[test]
fn raw_buttons_and_axes() {
    let mut pending = Vec::new();
    linux_btn_to_stick_event(&mut pending, 0x13F, true);
    linux_btn_to_stick_event(&mut pending, 0x140, false);
    linux_btn_to_stick_event(&mut pending, 0x131, true);
    linux_btn_to_stick_event(&mut pending, 0x400, true);
    assert_eq!(pending, vec![Event::PinkyRight(true), Event::PinkyLeft(false), Event::ActionB(true)]);
    pending.clear();
    linux_rel_to_stick_event(&mut pending, 1, -4);
    linux_abs_to_stick_event(&mut pending, 0x03, -200);
    assert_eq!(pending, vec![Event::MouseY((-4.0f64).to_bits()), Event::CamX((-200.0f64).to_bits())]);
}

#[test]
fn raw_hat_releases_both_directions() {
    let mut pending = Vec::new();
    linux_abs_to_stick_event(&mut pending, 0x10, 1);
    linux_abs_to_stick_event(&mut pending, 0x10, 0);
    linux_abs_to_stick_event(&mut pending, 0x11, -1);
    linux_abs_to_stick_event(&mut pending, 0x11, 0);
    assert_eq!(
        pending,
        vec![
            Event::PovRight(true),
            Event::PovRight(false),
            Event::PovLeft(false),
            Event::PovUp(true),
            Event::PovUp(false),
            Event::PovDown(false),
        ]
    );
}

#[test]
fn raw_events_dropped_while_disabled() {
    let mut pending = vec![Event::ActionA(true)];
    linux_evdev_to_stick_event(&mut pending, true, 0x01, 0x130, 0);
    assert_eq!(pending, vec![Event::ActionA(true), Event::ActionA(false)]);
    linux_evdev_to_stick_event(&mut pending, false, 0x01, 0x131, 1);
    assert!(pending.is_empty());
}
