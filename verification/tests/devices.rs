use stick::devices::{
    deadzone, transform, transform_in_range, Axis, AxisWrite, Btn, Device, Port, ScaledAxes,
    StickInfo, FLIGHT_STICK_ID, GAMECUBE_ID, MINUS_ONE_F32, ONE_F32, PS3_ID, XBOX_ID,
};

fn info(hardware_id: u32) -> StickInfo {
    StickInfo { hardware_id, abs_min: -100, abs_max: 100 }
}

#[test]
fn transform_test() {
    let a = deadzone(-100, 100, 100);
    assert_eq!(a.0, a.1);
    assert_eq!(75, a.1);
    let b = deadzone(-100, 100, -100);
    assert_eq!(b.0, -b.1);
    assert_eq!(75, b.1);
    let c = deadzone(-100, 100, 0);
    assert_eq!(c.0, 0);
    assert_eq!(75, b.1);

    assert_eq!(transform(-100, 100, 100), 127);
    assert_eq!(transform(-100, 100, -100), -127);
    assert_eq!(transform(-100, 100, 0), 0);

    assert_eq!(transform(-128, 127, 127), 127);
    assert_eq!(transform(-128, 127, 0), 0);
    assert_eq!(transform(-128, 127, -128), -127);
}

#[test]
fn deadzone_inside_and_outside() {
    // An eighth of the half range around the centre reads as zero.
    assert_eq!(deadzone(-100, 100, 24), (0, 75));
    assert_eq!(deadzone(-100, 100, -24), (0, 75));
    assert_eq!(deadzone(-100, 100, 25), (0, 75));
    assert_eq!(deadzone(-100, 100, 26), (1, 75));
    assert_eq!(deadzone(-100, 100, -25), (0, 75));
    assert_eq!(deadzone(-100, 100, -26), (-1, 75));
    assert_eq!(deadzone(0, 255, 255), (97, 96));
}

#[test]
fn transform_truncates_toward_zero() {
    assert_eq!(transform(-100, 100, 50), 42);
    assert_eq!(transform(-100, 100, -50), -42);
    // Values beyond the range are clamped to the ends.
    assert_eq!(transform(-100, 100, 1000), 127);
    assert_eq!(transform(-100, 100, -1000), -127);
}

#[test]
fn transform_range_check() {
    assert!(transform_in_range(-100, 100, 0));
    assert!(!transform_in_range(0, 0, 0));
    assert!(!transform_in_range(0, 1, 0));
    assert!(transform_in_range(0, 8, 3));
}

#[test]
fn btn_numbers() {
    assert_eq!(u8::from(Btn::Left), 0);
    assert_eq!(u8::from(Btn::A), 5);
    assert_eq!(u8::from(Btn::B), 7);
    assert_eq!(u8::from(Btn::C), 15);
}

#[test]
fn default_device_is_empty() {
    let d = Device::default();
    assert_eq!(d.native_handle(), 0);
    assert_eq!(d.hardware_id(), 0);
    assert_eq!(d.joy(), Some((0, 0)));
    assert_eq!(d.lrt(), Some((0, 0)));
    for b in 0..16u8 {
        assert_eq!(d.btn(b), Some(false));
    }
}

#[test]
fn port_new_plugs_each_stick() {
    let port = Port::new(&[info(XBOX_ID), info(PS3_ID)]);
    assert_eq!(port.len(), 2);
    assert_eq!(port.get(0).native_handle(), 0);
    assert_eq!(port.get(1).native_handle(), 1);
    assert_eq!(port.get(1).hardware_id(), PS3_ID);
    assert_eq!(port.name(0, Some("Xbox 360 Pad")), "Xbox 360 Pad");
    assert_eq!(port.name(1, None), "Unknown");
}

#[test]
fn add_stick_grows_with_empty_devices() {
    let mut port = Port::new(&[]);
    port.add_stick(2, info(GAMECUBE_ID));
    assert_eq!(port.len(), 3);
    assert_eq!(port.get(0).hardware_id(), 0);
    assert_eq!(port.get(2).hardware_id(), GAMECUBE_ID);
    assert_eq!(port.get(2).native_handle(), 2);
}

#[test]
fn key_events_press_and_release() {
    let mut port = Port::new(&[info(XBOX_ID), info(0x1234_5678)]);
    // Key 1 is B on the XBox controller and A elsewhere.
    assert_eq!(port.apply_event(0, 1, 0x121, 1), None);
    assert_eq!(port.get(0).btn(u8::from(Btn::B)), Some(true));
    assert_eq!(port.get(0).btn(u8::from(Btn::A)), Some(false));
    assert_eq!(port.apply_event(1, 1, 0x121, 1), None);
    assert_eq!(port.get(1).btn(u8::from(Btn::A)), Some(true));
    assert_eq!(port.apply_event(1, 1, 0x121, 0), None);
    assert_eq!(port.get(1).btn(u8::from(Btn::A)), Some(false));
}

#[test]
fn ps3_swaps_x_and_y() {
    let mut port = Port::new(&[info(PS3_ID)]);
    port.apply_event(0, 1, 0x120, 1);
    assert_eq!(port.get(0).btn(u8::from(Btn::Y)), Some(true));
    assert_eq!(port.get(0).btn(u8::from(Btn::X)), Some(false));
}

#[test]
fn axis_events_name_axis_and_level() {
    let mut port = Port::new(&[info(0x1234_5678), info(GAMECUBE_ID)]);
    assert_eq!(port.apply_event(0, 3, 0, 100), Some(AxisWrite { axis: Axis::JoyX, level: 127 }));
    assert_eq!(port.apply_event(0, 3, 1, -100), Some(AxisWrite { axis: Axis::JoyY, level: -127 }));
    assert_eq!(port.apply_event(0, 3, 3, 0), Some(AxisWrite { axis: Axis::CamX, level: 0 }));
    // Triggers read the raw value as a byte.
    assert_eq!(port.apply_event(0, 3, 2, 100), Some(AxisWrite { axis: Axis::TrgL, level: 100 }));
    assert_eq!(port.apply_event(0, 3, 5, -50), Some(AxisWrite { axis: Axis::TrgR, level: 206 }));
    // The GameCube controller numbers its camera stick and triggers apart.
    assert_eq!(port.apply_event(1, 3, 5, 0), Some(AxisWrite { axis: Axis::CamX, level: 0 }));
    assert_eq!(port.apply_event(1, 3, 3, 7), Some(AxisWrite { axis: Axis::TrgL, level: 7 }));
    // Unknown axes and other event types change nothing.
    assert_eq!(port.apply_event(0, 3, 40, 5), None);
    assert_eq!(port.apply_event(0, 2, 0, 5), None);
}

#[test]
fn hat_presses_one_side() {
    let mut port = Port::new(&[info(0)]);
    port.apply_event(0, 3, 16, -1);
    assert_eq!(port.get(0).btn(u8::from(Btn::Left)), Some(true));
    assert_eq!(port.get(0).btn(u8::from(Btn::Right)), Some(false));
    port.apply_event(0, 3, 16, 1);
    assert_eq!(port.get(0).btn(u8::from(Btn::Left)), Some(false));
    assert_eq!(port.get(0).btn(u8::from(Btn::Right)), Some(true));
    port.apply_event(0, 3, 17, 0);
    assert_eq!(port.get(0).btn(u8::from(Btn::Up)), Some(false));
    assert_eq!(port.get(0).btn(u8::from(Btn::Down)), Some(false));
}

#[test]
fn set_axis_and_modifiers() {
    let mut d = Device::default();
    d.set_axis(Axis::JoyX, ONE_F32);
    assert_eq!(d.joy(), Some((ONE_F32, 0)));
    d.mod_swap_joy();
    assert_eq!(d.joy(), Some((0, ONE_F32)));
    d.set_axis(Axis::TrgL, ONE_F32);
    d.mod_l2pitch();
    assert_eq!(d.cam(), Some((0, ONE_F32)));
    d.mod_t2lr();
    assert_eq!(d.btn(u8::from(Btn::L)), Some(true));
    assert_eq!(d.btn(u8::from(Btn::R)), Some(false));
    d.mod_swap_btn(u8::from(Btn::L), u8::from(Btn::R));
    assert_eq!(d.btn(u8::from(Btn::L)), Some(false));
    assert_eq!(d.btn(u8::from(Btn::R)), Some(true));
    // joy is (0.0, 1.0), cam (0.0, 1.0), triggers (1.0, 0.0): scaled by 0.75
    d.mod_expand(ScaledAxes {
        joyx: 0,
        joyy: 0.75f32.to_bits(),
        camx: 0,
        camy: 0.75f32.to_bits(),
        trgl: 0.75f32.to_bits(),
        trgr: 0,
    });
    assert_eq!(d.joy(), Some((0, 0.75f32.to_bits())));
    assert_eq!(d.cam(), Some((0, 0.75f32.to_bits())));
    assert_eq!(d.lrt(), Some((0.75f32.to_bits(), 0)));
    // values out of range are limited to it
    d.mod_expand(ScaledAxes {
        joyx: (-1.5f32).to_bits(),
        joyy: 1.5f32.to_bits(),
        camx: f32::NAN.to_bits(),
        camy: 0,
        trgl: (-0.5f32).to_bits(),
        trgr: 2.0f32.to_bits(),
    });
    assert_eq!(d.joy(), Some((MINUS_ONE_F32, ONE_F32)));
    assert_eq!(d.cam(), Some((MINUS_ONE_F32, 0)));
    assert_eq!(d.lrt(), Some((0, ONE_F32)));
}

#[test]
fn flight_stick_has_no_camera_stick() {
    let port = Port::new(&[info(FLIGHT_STICK_ID)]);
    assert_eq!(port.get(0).cam(), None);
}

#[test]
fn swapping_twice_restores_the_port() {
    let mut port = Port::new(&[info(XBOX_ID), info(PS3_ID)]);
    port.swap(0, 1);
    assert_eq!(port.get(0).hardware_id(), PS3_ID);
    assert_eq!(port.get(1).hardware_id(), XBOX_ID);
    port.swap(0, 1);
    assert_eq!(port.get(0).hardware_id(), XBOX_ID);
    assert_eq!(port.get(1).hardware_id(), PS3_ID);
}
