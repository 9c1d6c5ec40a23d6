use stick::button::Button;
use stick::focus::{focus, unfocus, Focus};
use stick::gamepad::Gamepad;
use stick::gamepads::Gamepads;
use stick::joystick_map::{JoystickMap, Throttle, GAMECUBE_ID, THRUSTMASTER_ID};
use stick::native::{linux, macos, windows};
use stick::pad_db::{sort_by_code, ButtonEntry, PadMappingFile, ThreeWayEntry, WheelEntry};
use stick::port::Port;
use stick::wide::{encode_utf16, wide_null, MAX_PATH};

#[test]
fn button_names() {
    assert_eq!(Button::Accept.to_string(), "Accept");
    assert_eq!(Button::L(12).to_string(), "L-12");
    assert_eq!(Button::R(0).to_string(), "R-0");
    assert_eq!(Button::R(255).to_string(), "R-255");
    assert_eq!(Button::CamStick.to_string(), "Camera Stick Push");
    assert_eq!(Button::MoveStick.to_string(), "Movement Stick Push");
}

#[test]
fn focus_switches_events() {
    let mut f = Focus::new();
    assert!(f.enabled());
    unfocus(&mut f);
    assert!(!f.enabled());
    focus(&mut f);
    assert!(f.enabled());
}

#[test]
fn gamepad_keeps_id_and_name() {
    let g = Gamepad::new(7, "Pad".to_string());
    assert_eq!(g.id(), 7);
    assert_eq!(g.name(), "Pad");
    let _ = Gamepads::new();
    let _ = Port::new();
}

#[test]
fn linux_joysticks() {
    let mut js = linux::Joystick::new(vec![3, -1, 5, 6]);
    assert_eq!(js.fds, vec![3, 5, 6]);
    assert_eq!(js.num_plugged_in(), 3);
    assert_eq!(js.fd(1), 5);
    assert_eq!(js.get_id(0, Some([3, 0x045E, 0x028E, 0x0110])), (0x045E_028E, false));
    assert_eq!(js.get_id(0, Some([3, 0x0001, -2, 0])), (-2, false));
    assert_eq!(js.get_id(0, None), (0, true));
    assert_eq!(js.get_abs(2, Some((-32768, 32767))), (-32768, 32767, false));
    assert_eq!(js.get_abs(2, None), (0, 0, true));
    js.disconnect(0);
    assert_eq!(js.fds, vec![5, 6]);
}

#[test]
fn macos_and_windows_joysticks() {
    let mut m = macos::Joystick::create();
    assert_eq!(m.map(), (0, 0, true));
    assert!(!m.is_plugged_in());
    m.disconnect();
    assert_eq!(m.name(), "unknown");
    let mut w = windows::Joystick::new();
    assert_eq!(w.map(Some(windows::JoyCaps { num_axes: 4, num_buttons: 12 })), (4, 12, false));
    assert_eq!(w.map(None), (0, 0, true));
    w.disconnect();
    assert_eq!(w.name(), "unknown");
}

#[test]
fn wide_strings() {
    assert_eq!(encode_utf16("aé😀"), "aé😀".encode_utf16().collect::<Vec<u16>>());
    let w = wide_null("XInput1_4.dll");
    let expected: Vec<u16> = "XInput1_4.dll".encode_utf16().collect();
    assert_eq!(&w[..expected.len()], &expected[..]);
    assert!(w[expected.len()..].iter().all(|u| *u == 0));
    let long = "x".repeat(400);
    let w = wide_null(&long);
    assert_eq!(w.len(), MAX_PATH);
    assert!(w[..MAX_PATH - 1].iter().all(|u| *u == u16::from(b'x')));
    assert_eq!(w[MAX_PATH - 1], 0);
}

fn button(code: i16, event: &str) -> ButtonEntry {
    ButtonEntry { code, event: event.to_string() }
}

#[test]
fn entries_sorted_stably_by_code() {
    let mut v = vec![button(3, "c"), button(1, "a"), button(3, "d"), button(-2, "z"), button(1, "b")];
    sort_by_code(&mut v);
    let got: Vec<(i16, &str)> = v.iter().map(|b| (b.code, b.event.as_str())).collect();
    assert_eq!(got, vec![(-2, "z"), (1, "a"), (1, "b"), (3, "c"), (3, "d")]);
}

#[test]
fn mapping_file_sorted() {
    let mut f = PadMappingFile {
        name: "Pad".to_string(),
        type_: "gamepad".to_string(),
        deadzone: None,
        button: Some(vec![button(5, "ActB"), button(2, "ActA")]),
        axis: None,
        trigger: None,
        three_way: Some(vec![
            ThreeWayEntry { code: 17, neg: "DirUp".to_string(), pos: "DirDown".to_string() },
            ThreeWayEntry { code: 16, neg: "DirLeft".to_string(), pos: "DirRight".to_string() },
        ]),
        wheel: Some(vec![WheelEntry { code: 9, event: "Wheel".to_string() }]),
        throttle: None,
    };
    f.sort_by_code();
    let codes: Vec<i16> = f.button.as_ref().unwrap().iter().map(|b| b.code).collect();
    assert_eq!(codes, vec![2, 5]);
    let codes: Vec<i16> = f.three_way.as_ref().unwrap().iter().map(|t| t.code).collect();
    assert_eq!(codes, vec![16, 17]);
    assert_eq!(f.wheel.as_ref().unwrap().len(), 1);
    assert!(f.axis.is_none());
    assert_eq!(f.name, "Pad");
}

#[test]
fn joystick_maps() {
    assert!(JoystickMap::known(THRUSTMASTER_ID));
    assert!(JoystickMap::known(GAMECUBE_ID));
    assert!(!JoystickMap::known(0x1234));
    let flight = JoystickMap::new(THRUSTMASTER_ID);
    assert_eq!(flight.button(0), Button::Action);
    assert_eq!(flight.throttle(5), Throttle::R);
    assert!(flight.has_button(Button::Cancel));
    assert!(!flight.has_button(Button::Menu));
    let cube = JoystickMap::new(GAMECUBE_ID);
    assert_eq!(cube.buttons.len(), 16);
    assert_eq!(cube.button(7), Button::R(1));
    assert_eq!(cube.throttle(2), Throttle::PovY);
    assert!(cube.has_button(Button::L(0)));
    assert!(!cube.has_button(Button::L(1)));
    assert!(cube.has_throttle(Throttle::PovX));
}
