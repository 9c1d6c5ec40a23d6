//! What the inputs of each platform and file format mean: laws that tie the
//! conversion tables to the names of the buttons they convert.

use vstd::prelude::*;
use crate::event::{Event, spec_to_id};
use crate::evdev::{btn_event, abs_event, rel_event, TRIGGER_FULL_F64};
use crate::raw_linux::{raw_abs_events, raw_btn_event};
use crate::float_bits::{lt_f64, f64_of_int};
use crate::sdb::type_letter;
use crate::sdl::{sdl_output, SdlToken};
use crate::sdl_map::{relabel_of, hat_direction};
use crate::button::{decimal, digit_char};
use crate::manager::{spec_pad_apply, bit32, with_bit32, PadAxis, PadState};
use crate::devices::{spec_apply, abs_axis, key_button, bit_of, with_bit, btn_bit, lemma_with_bit, Axis, Btn, DeviceView, GAMECUBE_ID, PS3_ID, XBOX_ID};

verus! {

/// Linux's gamepad buttons convert to the controller buttons of the same
/// place: `BTN_TL`/`BTN_TR` (0x136/0x137) to the left/right bumper,
/// `BTN_TL2`/`BTN_TR2` to the left/right trigger, `BTN_SELECT`/`BTN_START`
/// to the left/right menu button, `BTN_THUMBL`/`BTN_THUMBR` to the
/// left/right stick's push, `BTN_SOUTH`/`BTN_EAST` to A/B, `BTN_MODE` to
/// exit, and `BTN_DPAD_UP`/`DOWN`/`LEFT`/`RIGHT` to the d-pad, pressed or
/// released as the key is.
pub proof fn lemma_linux_buttons(p: bool)
    ensures
        btn_event(0x136, p) == Some(Event::BumperL(p)),
        btn_event(0x137, p) == Some(Event::BumperR(p)),
        btn_event(0x138, p) matches Some(Event::TriggerL(_)),
        btn_event(0x139, p) matches Some(Event::TriggerR(_)),
        btn_event(0x13A, p) == Some(Event::MenuL(p)),
        btn_event(0x13B, p) == Some(Event::MenuR(p)),
        btn_event(0x13D, p) == Some(Event::Joy(p)),
        btn_event(0x13E, p) == Some(Event::Cam(p)),
        btn_event(0x130, p) == Some(Event::ActionA(p)),
        btn_event(0x131, p) == Some(Event::ActionB(p)),
        btn_event(0x13C, p) == Some(Event::Exit(p)),
        btn_event(0x220, p) == Some(Event::Up(p)),
        btn_event(0x221, p) == Some(Event::Down(p)),
        btn_event(0x222, p) == Some(Event::Left(p)),
        btn_event(0x223, p) == Some(Event::Right(p)),
{
}

/// A controller type's letter in the database is the initial of the type's
/// name, and only the five documented types have one: `xbox` 'x',
/// `playstation` 'p', `nintendo` 'n', `gamepad` 'g', `flight` 'f'.
pub proof fn lemma_type_letter_is_initial(t: Seq<char>)
    ensures
        type_letter(t) matches Some(b) ==> t.len() > 0 && t[0] == (b as char),
        type_letter(t) is Some <==> (t == "xbox"@ || t == "playstation"@ || t == "nintendo"@ || t
            == "gamepad"@ || t == "flight"@),
{
    reveal_strlit("xbox");
    reveal_strlit("playstation");
    reveal_strlit("nintendo");
    reveal_strlit("gamepad");
    reveal_strlit("flight");
}

/// The bytes of an ASCII text.
pub open spec fn ascii(s: Seq<char>) -> Seq<u8> {
    s.map_values(|c: char| c as u8)
}

/// The SDL game controller names convert to the codes of the events of the
/// same place: `a`/`b` to A/B, `x` to ActionH and `y` to ActionV (the left
/// and top face buttons), `back`/`start` to the left/right menu button,
/// `guide` to exit, the shoulders, triggers and stick pushes to their left
/// and right events, the d-pad to its directions, and the stick axes to the
/// main and camera sticks' axes; the paddles to the left and right
/// paddles, `misc1` to numbered button 1, and the half axes of the left
/// stick are left out.
pub proof fn lemma_sdl_names()
    ensures
        sdl_output(ascii("a"@)) == SdlToken::Code(spec_to_id(Event::ActionA(true)).0),
        sdl_output(ascii("b"@)) == SdlToken::Code(spec_to_id(Event::ActionB(true)).0),
        sdl_output(ascii("x"@)) == SdlToken::Code(spec_to_id(Event::ActionH(true)).0),
        sdl_output(ascii("y"@)) == SdlToken::Code(spec_to_id(Event::ActionV(true)).0),
        sdl_output(ascii("back"@)) == SdlToken::Code(spec_to_id(Event::MenuL(true)).0),
        sdl_output(ascii("start"@)) == SdlToken::Code(spec_to_id(Event::MenuR(true)).0),
        sdl_output(ascii("guide"@)) == SdlToken::Code(spec_to_id(Event::Exit(true)).0),
        sdl_output(ascii("leftshoulder"@)) == SdlToken::Code(spec_to_id(Event::BumperL(true)).0),
        sdl_output(ascii("rightshoulder"@)) == SdlToken::Code(spec_to_id(Event::BumperR(true)).0),
        sdl_output(ascii("lefttrigger"@)) == SdlToken::Code(spec_to_id(Event::TriggerL(0)).0),
        sdl_output(ascii("righttrigger"@)) == SdlToken::Code(spec_to_id(Event::TriggerR(0)).0),
        sdl_output(ascii("leftstick"@)) == SdlToken::Code(spec_to_id(Event::Joy(true)).0),
        sdl_output(ascii("rightstick"@)) == SdlToken::Code(spec_to_id(Event::Cam(true)).0),
        sdl_output(ascii("dpup"@)) == SdlToken::Code(spec_to_id(Event::Up(true)).0),
        sdl_output(ascii("dpdown"@)) == SdlToken::Code(spec_to_id(Event::Down(true)).0),
        sdl_output(ascii("dpleft"@)) == SdlToken::Code(spec_to_id(Event::Left(true)).0),
        sdl_output(ascii("dpright"@)) == SdlToken::Code(spec_to_id(Event::Right(true)).0),
        sdl_output(ascii("leftx"@)) == SdlToken::Code(spec_to_id(Event::JoyX(0)).0),
        sdl_output(ascii("lefty"@)) == SdlToken::Code(spec_to_id(Event::JoyY(0)).0),
        sdl_output(ascii("rightx"@)) == SdlToken::Code(spec_to_id(Event::CamX(0)).0),
        sdl_output(ascii("righty"@)) == SdlToken::Code(spec_to_id(Event::CamY(0)).0),
        sdl_output(ascii("paddle1"@)) == SdlToken::Code(spec_to_id(Event::PaddleLeft(true)).0),
        sdl_output(ascii("paddle2"@)) == SdlToken::Code(spec_to_id(Event::PaddleRight(true)).0),
        sdl_output(ascii("misc1"@)) == SdlToken::Code(spec_to_id(Event::Number(1, true)).0),
        sdl_output(ascii("+leftx"@)) == SdlToken::Skip,
        sdl_output(ascii("-leftx"@)) == SdlToken::Skip,
        sdl_output(ascii("+lefty"@)) == SdlToken::Skip,
        sdl_output(ascii("-lefty"@)) == SdlToken::Skip,
{
    reveal_strlit("a");
    reveal_strlit("b");
    reveal_strlit("x");
    reveal_strlit("y");
    reveal_strlit("back");
    reveal_strlit("start");
    reveal_strlit("guide");
    reveal_strlit("leftshoulder");
    reveal_strlit("rightshoulder");
    reveal_strlit("lefttrigger");
    reveal_strlit("righttrigger");
    reveal_strlit("leftstick");
    reveal_strlit("rightstick");
    reveal_strlit("dpup");
    reveal_strlit("dpdown");
    reveal_strlit("dpleft");
    reveal_strlit("dpright");
    reveal_strlit("leftx");
    reveal_strlit("lefty");
    reveal_strlit("rightx");
    reveal_strlit("righty");
    reveal_strlit("paddle1");
    reveal_strlit("paddle2");
    reveal_strlit("misc1");
    reveal_strlit("+leftx");
    reveal_strlit("-leftx");
    reveal_strlit("+lefty");
    reveal_strlit("-lefty");
    assert((1u8 | 0x80u8) == 0x81u8) by (bit_vector);
}

/// Linux's d-pad hat on a polled pad: the vertical hat (code 17) pushed to a
/// negative value presses up and releases down, to a positive value presses
/// down and releases up, and at rest releases both; the horizontal hat (code
/// 16) does the same for left and right.  Nothing else changes.
pub proof fn lemma_pad_hat_directions(s: PadState, v: i32)
    ensures
        spec_pad_apply(s, 3, 17, v).0 == (PadState { up: v < 0, down: v > 0, ..s }),
        spec_pad_apply(s, 3, 16, v).0 == (PadState { left: v < 0, right: v > 0, ..s }),
{
}

/// The d-pad keys of a first-generation device: key 12 (or 256, counted
/// from `0x120`) presses or releases the up button and key 14 (or 257) the
/// down button, key 13 (or 259) the right one and key 15 (or 258) the left
/// one, on every model, leaving the other direction as it was; and pushing
/// the hat up or down presses the same buttons as these keys.
pub proof fn lemma_device_dpad(d: DeviceView, v: i32)
    ensures
        bit_of(spec_apply(d, 1, 0x12C, v).0.btns, btn_bit(Btn::Up) as u64) == (v == 1),
        bit_of(spec_apply(d, 1, 0x12C, v).0.btns, btn_bit(Btn::Down) as u64) == bit_of(d.btns, btn_bit(Btn::Down) as u64),
        bit_of(spec_apply(d, 1, 0x12E, v).0.btns, btn_bit(Btn::Down) as u64) == (v == 1),
        bit_of(spec_apply(d, 1, 0x12E, v).0.btns, btn_bit(Btn::Up) as u64) == bit_of(d.btns, btn_bit(Btn::Up) as u64),
        bit_of(spec_apply(d, 1, 0x220, v).0.btns, btn_bit(Btn::Up) as u64) == (v == 1),
        bit_of(spec_apply(d, 1, 0x221, v).0.btns, btn_bit(Btn::Down) as u64) == (v == 1),
        bit_of(spec_apply(d, 1, 0x12D, v).0.btns, btn_bit(Btn::Right) as u64) == (v == 1),
        bit_of(spec_apply(d, 1, 0x12F, v).0.btns, btn_bit(Btn::Left) as u64) == (v == 1),
        bit_of(spec_apply(d, 3, 17, v).0.btns, btn_bit(Btn::Up) as u64) == (v < 0),
        bit_of(spec_apply(d, 3, 17, v).0.btns, btn_bit(Btn::Down) as u64) == (v > 0),
        bit_of(spec_apply(d, 3, 16, v).0.btns, btn_bit(Btn::Left) as u64) == (v < 0),
        bit_of(spec_apply(d, 3, 16, v).0.btns, btn_bit(Btn::Right) as u64) == (v > 0),
{
    let x = d.btns;
    let (l, r, u, dn) = (btn_bit(Btn::Left) as u64, btn_bit(Btn::Right) as u64, btn_bit(Btn::Up) as u64, btn_bit(Btn::Down) as u64);
    lemma_with_bit(x, u, v == 1, u);
    lemma_with_bit(x, u, v == 1, dn);
    lemma_with_bit(x, dn, v == 1, dn);
    lemma_with_bit(x, dn, v == 1, u);
    lemma_with_bit(x, r, v == 1, r);
    lemma_with_bit(x, l, v == 1, l);
    lemma_with_bit(x, 2, v < 0, 2);
    lemma_with_bit(x, 2, v < 0, 3);
    lemma_with_bit(with_bit(x, 2, v < 0), 3, v > 0, 2);
    lemma_with_bit(with_bit(x, 2, v < 0), 3, v > 0, 3);
    lemma_with_bit(x, 0, v < 0, 0);
    lemma_with_bit(x, 0, v < 0, 1);
    lemma_with_bit(with_bit(x, 0, v < 0), 1, v > 0, 0);
    lemma_with_bit(with_bit(x, 0, v < 0), 1, v > 0, 1);
}

/// The rest of Linux's buttons: `BTN_C`/`BTN_NORTH`/`BTN_WEST`/`BTN_Z` to
/// C, V (top), H (left) and D; the joystick buttons `BTN_TRIGGER` to
/// `BTN_BASE` to the trigger, M, bumper, R, L and pinky; a digital trigger
/// is full (`255.0`) when pushed and `0.0` when released; and the numbered
/// joystick buttons count up from their base code: `BTN_BASE2` (0x126) is
/// number 1, and `BTN_TRIGGER_HAPPY1` (0x2C0) number 11.
pub proof fn lemma_linux_more_buttons(p: bool, c: u16)
    ensures
        btn_event(0x132, p) == Some(Event::ActionC(p)),
        btn_event(0x133, p) == Some(Event::ActionV(p)),
        btn_event(0x134, p) == Some(Event::ActionH(p)),
        btn_event(0x135, p) == Some(Event::ActionD(p)),
        btn_event(0x120, p) == Some(Event::Trigger(p)),
        btn_event(0x121, p) == Some(Event::ActionM(p)),
        btn_event(0x122, p) == Some(Event::Bumper(p)),
        btn_event(0x123, p) == Some(Event::ActionR(p)),
        btn_event(0x124, p) == Some(Event::ActionL(p)),
        btn_event(0x125, p) == Some(Event::Pinky(p)),
        btn_event(0x138, true) == Some(Event::TriggerL(TRIGGER_FULL_F64)),
        btn_event(0x138, false) == Some(Event::TriggerL(0)),
        btn_event(0x139, true) == Some(Event::TriggerR(TRIGGER_FULL_F64)),
        btn_event(0x139, false) == Some(Event::TriggerR(0)),
        0x126 <= c <= 0x12F ==> btn_event(c, p) == Some(Event::Number((c - 0x125) as i8, p)),
        0x2C0 <= c <= 0x2E7 ==> btn_event(c, p) == Some(Event::Number((c - 0x2C0 + 11) as i8, p)),
{
}

/// The face, shoulder and menu keys of a first-generation device (key code
/// less `0x120`): keys 4 and 5 are the left and right shoulders on every
/// model; keys 1 and 2 are A and B, swapped on the Xbox pad; keys 0 and 3
/// are X and Y, swapped on the PlayStation 3 pad.
pub proof fn lemma_device_face_keys(id: u32)
    ensures
        key_button(id, 4) == Some(Btn::L) && key_button(id, 5) == Some(Btn::R),
        key_button(id, 1) == Some(if id == XBOX_ID { Btn::B } else { Btn::A }),
        key_button(id, 2) == Some(if id == XBOX_ID { Btn::A } else { Btn::B }),
        key_button(id, 0) == Some(if id == PS3_ID { Btn::Y } else { Btn::X }),
        key_button(id, 3) == Some(if id == PS3_ID { Btn::X } else { Btn::Y }),
        key_button(id, 12) == Some(Btn::Up) && key_button(id, 14) == Some(Btn::Down),
        key_button(id, 13) == Some(Btn::Right) && key_button(id, 15) == Some(Btn::Left),
{
}

/// The axes of a first-generation device: codes 0 and 1 move the main
/// stick; the camera stick and triggers are codes 3, 4, 2 and 5, but 5, 2,
/// 3 and 4 on the GameCube adapter; the hat codes move no axis.
pub proof fn lemma_device_axes(id: u32)
    ensures
        abs_axis(id, 0) == Some(Axis::JoyX) && abs_axis(id, 1) == Some(Axis::JoyY),
        abs_axis(id, 16) is None && abs_axis(id, 17) is None,
        id != GAMECUBE_ID ==> abs_axis(id, 3) == Some(Axis::CamX) && abs_axis(id, 4) == Some(Axis::CamY)
            && abs_axis(id, 2) == Some(Axis::TrgL) && abs_axis(id, 5) == Some(Axis::TrgR),
        id == GAMECUBE_ID ==> abs_axis(id, 5) == Some(Axis::CamX) && abs_axis(id, 2) == Some(Axis::CamY)
            && abs_axis(id, 3) == Some(Axis::TrgL) && abs_axis(id, 4) == Some(Axis::TrgR),
{
}

proof fn lemma_set_bit32(x: u32, b: u32, on: bool)
    requires
        b < 32,
    ensures
        bit32(with_bit32(x, b, on), b as int) == on,
{
    if on {
        assert(((x | (1u32 << b)) >> b) & 1 == 1) by (bit_vector)
            requires
                b < 32,
        ;
    } else {
        assert(((x & !(1u32 << b)) >> b) & 1 == 0) by (bit_vector)
            requires
                b < 32,
        ;
    }
}

/// The keys of a polled pad (key code less `0x120`) set its buttons to
/// whether the value is 1: key 0 execute, 1 accept, 2 cancel, 3 trigger, 4
/// the first left button, 5 and 7 the first two right buttons, 9 menu; and
/// its axis codes move, in order 0 to 5, the main stick's X and Y, the
/// camera's Y, the left and right throttles and the camera's X.
pub proof fn lemma_pad_keys_and_axes(s: PadState, v: i32)
    ensures
        spec_pad_apply(s, 1, 0x120, v).0 == (PadState { execute: v == 1, ..s }),
        spec_pad_apply(s, 1, 0x121, v).0 == (PadState { accept: v == 1, ..s }),
        spec_pad_apply(s, 1, 0x122, v).0 == (PadState { cancel: v == 1, ..s }),
        spec_pad_apply(s, 1, 0x123, v).0 == (PadState { trigger: v == 1, ..s }),
        spec_pad_apply(s, 1, 0x129, v).0 == (PadState { menu: v == 1, ..s }),
        bit32(spec_pad_apply(s, 1, 0x124, v).0.l, 0) == (v == 1),
        bit32(spec_pad_apply(s, 1, 0x125, v).0.r, 0) == (v == 1),
        bit32(spec_pad_apply(s, 1, 0x127, v).0.r, 1) == (v == 1),
        spec_pad_apply(s, 3, 0, v).1 matches Some(w) && w.axis == PadAxis::MoveX,
        spec_pad_apply(s, 3, 1, v).1 matches Some(w) && w.axis == PadAxis::MoveY,
        spec_pad_apply(s, 3, 2, v).1 matches Some(w) && w.axis == PadAxis::CamY,
        spec_pad_apply(s, 3, 3, v).1 matches Some(w) && w.axis == PadAxis::LeftThrottle,
        spec_pad_apply(s, 3, 4, v).1 matches Some(w) && w.axis == PadAxis::RightThrottle,
        spec_pad_apply(s, 3, 5, v).1 matches Some(w) && w.axis == PadAxis::CamX,
{
    lemma_set_bit32(s.l, 0, v == 1);
    lemma_set_bit32(s.r, 0, v == 1);
    lemma_set_bit32(s.r, 1, v == 1);
}

/// Linux's absolute axes convert to the controller axes of the same name,
/// carrying their value: `ABS_X`/`ABS_Y`/`ABS_Z` the main stick,
/// `ABS_RX`/`ABS_RY`/`ABS_RZ` the camera stick, then throttle, rudder,
/// wheel, gas, brake, slew, the two throttles and the scroll axes.  The
/// hats (`ABS_HAT0X` to `ABS_HAT3Y`: the point-of-view hat, the hat, the
/// trim and the microphone) push right or down for a positive value and left
/// or up for a negative one; back at the centre they release the positive
/// direction now and queue the release of the negative one.
pub proof fn lemma_linux_axes(v: u64, q: Option<Event>)
    ensures
        abs_event(0x00, v, q) == (Some(Event::JoyX(v)), q),
        abs_event(0x01, v, q) == (Some(Event::JoyY(v)), q),
        abs_event(0x02, v, q) == (Some(Event::JoyZ(v)), q),
        abs_event(0x03, v, q) == (Some(Event::CamX(v)), q),
        abs_event(0x04, v, q) == (Some(Event::CamY(v)), q),
        abs_event(0x05, v, q) == (Some(Event::CamZ(v)), q),
        abs_event(0x06, v, q) == (Some(Event::Throttle(v)), q),
        abs_event(0x07, v, q) == (Some(Event::Rudder(v)), q),
        abs_event(0x08, v, q) == (Some(Event::Wheel(v)), q),
        abs_event(0x09, v, q) == (Some(Event::Gas(v)), q),
        abs_event(0x0A, v, q) == (Some(Event::Brake(v)), q),
        abs_event(0x0B, v, q) == (Some(Event::Slew(v)), q),
        abs_event(0x0C, v, q) == (Some(Event::ThrottleL(v)), q),
        abs_event(0x0D, v, q) == (Some(Event::ThrottleR(v)), q),
        abs_event(0x0E, v, q) == (Some(Event::ScrollX(v)), q),
        abs_event(0x0F, v, q) == (Some(Event::ScrollY(v)), q),
        lt_f64(0, v) ==> abs_event(0x10, v, q) == (Some(Event::PovRight(true)), q),
        lt_f64(v, 0) ==> abs_event(0x10, v, q) == (Some(Event::PovLeft(true)), q),
        !lt_f64(0, v) && !lt_f64(v, 0) ==> abs_event(0x10, v, q) == (Some(Event::PovRight(false)), Some(Event::PovLeft(false))),
        lt_f64(0, v) ==> abs_event(0x11, v, q) == (Some(Event::PovDown(true)), q),
        lt_f64(v, 0) ==> abs_event(0x11, v, q) == (Some(Event::PovUp(true)), q),
        !lt_f64(0, v) && !lt_f64(v, 0) ==> abs_event(0x11, v, q) == (Some(Event::PovDown(false)), Some(Event::PovUp(false))),
        lt_f64(0, v) ==> abs_event(0x12, v, q) == (Some(Event::HatRight(true)), q),
        lt_f64(v, 0) ==> abs_event(0x12, v, q) == (Some(Event::HatLeft(true)), q),
        !lt_f64(0, v) && !lt_f64(v, 0) ==> abs_event(0x12, v, q) == (Some(Event::HatRight(false)), Some(Event::HatLeft(false))),
        lt_f64(0, v) ==> abs_event(0x13, v, q) == (Some(Event::HatDown(true)), q),
        lt_f64(v, 0) ==> abs_event(0x13, v, q) == (Some(Event::HatUp(true)), q),
        !lt_f64(0, v) && !lt_f64(v, 0) ==> abs_event(0x13, v, q) == (Some(Event::HatDown(false)), Some(Event::HatUp(false))),
        lt_f64(0, v) ==> abs_event(0x14, v, q) == (Some(Event::TrimRight(true)), q),
        lt_f64(v, 0) ==> abs_event(0x14, v, q) == (Some(Event::TrimLeft(true)), q),
        !lt_f64(0, v) && !lt_f64(v, 0) ==> abs_event(0x14, v, q) == (Some(Event::TrimRight(false)), Some(Event::TrimLeft(false))),
        lt_f64(0, v) ==> abs_event(0x15, v, q) == (Some(Event::TrimDown(true)), q),
        lt_f64(v, 0) ==> abs_event(0x15, v, q) == (Some(Event::TrimUp(true)), q),
        !lt_f64(0, v) && !lt_f64(v, 0) ==> abs_event(0x15, v, q) == (Some(Event::TrimDown(false)), Some(Event::TrimUp(false))),
        lt_f64(0, v) ==> abs_event(0x16, v, q) == (Some(Event::MicRight(true)), q),
        lt_f64(v, 0) ==> abs_event(0x16, v, q) == (Some(Event::MicLeft(true)), q),
        !lt_f64(0, v) && !lt_f64(v, 0) ==> abs_event(0x16, v, q) == (Some(Event::MicRight(false)), Some(Event::MicLeft(false))),
        lt_f64(0, v) ==> abs_event(0x17, v, q) == (Some(Event::MicDown(true)), q),
        lt_f64(v, 0) ==> abs_event(0x17, v, q) == (Some(Event::MicUp(true)), q),
        !lt_f64(0, v) && !lt_f64(v, 0) ==> abs_event(0x17, v, q) == (Some(Event::MicDown(false)), Some(Event::MicUp(false))),
{
}

/// The raw joystick interface reads the same hats from the sign of the raw
/// value, knows the two pinky buttons that the gamepad interface lacks
/// (0x13F right, 0x140 left), and reads the relative axes `REL_X`/`REL_Y`
/// as the mouse.
pub proof fn lemma_raw_linux_inputs(x: i32, p: bool, w: u32)
    ensures
        x > 0 ==> raw_abs_events(0x10, x) == seq![Event::PovRight(true)],
        x < 0 ==> raw_abs_events(0x10, x) == seq![Event::PovLeft(true)],
        x > 0 ==> raw_abs_events(0x11, x) == seq![Event::PovDown(true)],
        x < 0 ==> raw_abs_events(0x11, x) == seq![Event::PovUp(true)],
        x > 0 ==> raw_abs_events(0x12, x) == seq![Event::HatRight(true)],
        x < 0 ==> raw_abs_events(0x12, x) == seq![Event::HatLeft(true)],
        x > 0 ==> raw_abs_events(0x13, x) == seq![Event::HatDown(true)],
        x < 0 ==> raw_abs_events(0x13, x) == seq![Event::HatUp(true)],
        x > 0 ==> raw_abs_events(0x14, x) == seq![Event::TrimRight(true)],
        x < 0 ==> raw_abs_events(0x14, x) == seq![Event::TrimLeft(true)],
        x > 0 ==> raw_abs_events(0x15, x) == seq![Event::TrimDown(true)],
        x < 0 ==> raw_abs_events(0x15, x) == seq![Event::TrimUp(true)],
        x > 0 ==> raw_abs_events(0x16, x) == seq![Event::MicRight(true)],
        x < 0 ==> raw_abs_events(0x16, x) == seq![Event::MicLeft(true)],
        x > 0 ==> raw_abs_events(0x17, x) == seq![Event::MicDown(true)],
        x < 0 ==> raw_abs_events(0x17, x) == seq![Event::MicUp(true)],
        raw_btn_event(0x13F, p) == Some(Event::PinkyRight(p)),
        raw_btn_event(0x140, p) == Some(Event::PinkyLeft(p)),
        raw_btn_event(0x136, p) == Some(Event::BumperL(p)),
        rel_event(0, w) == Some(Event::MouseX(f64_of_int(w as int))),
        rel_event(1, w) == Some(Event::MouseY(f64_of_int(w as int))),
{
}

/// Length, first and last character of a name: enough to tell the SDL
/// button names apart.
spec fn short_key(s: Seq<char>) -> (nat, char, char) {
    (s.len(), s[0], s[s.len() - 1])
}

/// The SDL game controller names relabelled for the pad mappings name the
/// same places as their database codes: `a`, `b`, `x` (left, `ActH`) and
/// `y` (top, `ActV`); back and start the previous and next commands; guide
/// the command button; left and right shoulders, triggers, sticks and stick
/// axes their left and right pad names; the d-pad its directions.  The SDL
/// hat directions 1, 2, 4 and 8 are up, right, down and left: up and left
/// the negative side of the vertical (`0x11`) and horizontal (`0x10`) hat
/// axes.
pub proof fn lemma_sdl_relabels()
    ensures
        relabel_of("a"@) == Some("ActA"@),
        relabel_of("b"@) == Some("ActB"@),
        relabel_of("x"@) == Some("ActH"@),
        relabel_of("y"@) == Some("ActV"@),
        relabel_of("back"@) == Some("Prev"@),
        relabel_of("start"@) == Some("Next"@),
        relabel_of("guide"@) == Some("Cmd"@),
        relabel_of("leftshoulder"@) == Some("ShoulderL"@),
        relabel_of("lefttrigger"@) == Some("TriggerL"@),
        relabel_of("leftx"@) == Some("StickHor"@),
        relabel_of("lefty"@) == Some("StickVer"@),
        relabel_of("rightx"@) == Some("CStickHor"@),
        relabel_of("righty"@) == Some("CStickVer"@),
        relabel_of("rightshoulder"@) == Some("ShoulderR"@),
        relabel_of("righttrigger"@) == Some("TriggerR"@),
        relabel_of("leftstick"@) == Some("Stick"@),
        relabel_of("rightstick"@) == Some("CStick"@),
        relabel_of("dpleft"@) == Some("DirLeft"@),
        relabel_of("dpright"@) == Some("DirRight"@),
        relabel_of("dpup"@) == Some("DirUp"@),
        relabel_of("dpdown"@) == Some("DirDown"@),
        hat_direction(seq![0x31u8]) == Some((0x11u8, true)),
        hat_direction(seq![0x32u8]) == Some((0x10u8, false)),
        hat_direction(seq![0x34u8]) == Some((0x11u8, false)),
        hat_direction(seq![0x38u8]) == Some((0x10u8, true)),
{
    reveal_strlit("a");
    assert(short_key("a"@) == (1nat, 'a', 'a'));
    reveal_strlit("b");
    assert(short_key("b"@) == (1nat, 'b', 'b'));
    reveal_strlit("x");
    assert(short_key("x"@) == (1nat, 'x', 'x'));
    reveal_strlit("y");
    assert(short_key("y"@) == (1nat, 'y', 'y'));
    reveal_strlit("back");
    assert(short_key("back"@) == (4nat, 'b', 'k'));
    reveal_strlit("start");
    assert(short_key("start"@) == (5nat, 's', 't'));
    reveal_strlit("guide");
    assert(short_key("guide"@) == (5nat, 'g', 'e'));
    reveal_strlit("leftshoulder");
    assert(short_key("leftshoulder"@) == (12nat, 'l', 'r'));
    reveal_strlit("lefttrigger");
    assert(short_key("lefttrigger"@) == (11nat, 'l', 'r'));
    reveal_strlit("leftx");
    assert(short_key("leftx"@) == (5nat, 'l', 'x'));
    reveal_strlit("lefty");
    assert(short_key("lefty"@) == (5nat, 'l', 'y'));
    reveal_strlit("rightx");
    assert(short_key("rightx"@) == (6nat, 'r', 'x'));
    reveal_strlit("righty");
    assert(short_key("righty"@) == (6nat, 'r', 'y'));
    reveal_strlit("rightshoulder");
    assert(short_key("rightshoulder"@) == (13nat, 'r', 'r'));
    reveal_strlit("righttrigger");
    assert(short_key("righttrigger"@) == (12nat, 'r', 'r'));
    reveal_strlit("leftstick");
    assert(short_key("leftstick"@) == (9nat, 'l', 'k'));
    reveal_strlit("rightstick");
    assert(short_key("rightstick"@) == (10nat, 'r', 'k'));
    reveal_strlit("dpleft");
    assert(short_key("dpleft"@) == (6nat, 'd', 't'));
    reveal_strlit("dpright");
    assert(short_key("dpright"@) == (7nat, 'd', 't'));
    reveal_strlit("dpup");
    assert(short_key("dpup"@) == (4nat, 'd', 'p'));
    reveal_strlit("dpdown");
    assert(short_key("dpdown"@) == (6nat, 'd', 'n'));
}

/// The number that decimal digits spell (most significant first).
pub open spec fn digits_number(s: Seq<char>) -> int
    decreases s.len(),
{
    if s.len() == 0 {
        0
    } else {
        digits_number(s.drop_last()) * 10 + (s.last() as int - 48)
    }
}

/// A button number written for a label reads back as the number: decimal
/// digits only, at least one, without a leading zero.
pub proof fn lemma_decimal_reads_back(n: nat)
    ensures
        digits_number(decimal(n)) == n,
        decimal(n).len() > 0,
        forall|k: int| 0 <= k < decimal(n).len() ==> '0' <= #[trigger] decimal(n)[k] <= '9',
        decimal(n)[0] == '0' ==> n == 0,
    decreases n,
{
    if n >= 10 {
        lemma_decimal_reads_back(n / 10);
        let s = decimal(n / 10);
        let t = s.push(digit_char(n % 10));
        assert(decimal(n) == t);
        assert(t.drop_last() =~= s);
        assert(t.last() == digit_char(n % 10));
        assert(digit_char(n % 10) as int == n % 10 + 48);
        assert(n == (n / 10) * 10 + n % 10);
        assert(digits_number(t) == digits_number(s) * 10 + (n % 10));
        assert(t[0] == s[0]);
        assert forall|k: int| 0 <= k < t.len() implies '0' <= #[trigger] t[k] <= '9' by {
            if k < s.len() {
                assert(t[k] == s[k]);
            }
        }
    } else {
        let t = decimal(n);
        assert(t == seq![digit_char(n)]);
        assert(t.drop_last() =~= Seq::<char>::empty());
        assert(t.last() == digit_char(n));
        assert(digit_char(n) as int == n + 48);
        assert(digits_number(t) == digits_number(t.drop_last()) * 10 + (n as int));
    }
}

} // verus!
