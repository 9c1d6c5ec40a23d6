//! The controller database compiled from TOML files, and the names of the
//! events in it.
//!
//! Each TOML file describes one controller model; the database holds one
//! line per model, which [`crate::remap::Remap::load`] reads back.

use vstd::prelude::*;
use vstd::string::StringExecFns;
use vstd::string::StringSliceAdditionalSpecFns;
use vstd::utf8::{decode_utf8, encode_utf8};
use crate::digits::{parse_unsigned, parse_unsigned_range};
use crate::event::{Event, spec_to_id, event_name};

verus! {

broadcast use vstd::utf8::encode_utf8_decode_utf8;

/// Whether two strings hold the same characters.
pub fn str_eq(a: &str, b: &str) -> (r: bool)
    ensures
        r == (a@ == b@),
{
    let x = a.as_bytes();
    let y = b.as_bytes();
    if x.len() != y.len() {
        proof {
            if a@ == b@ {
                assert(a.spec_bytes() == b.spec_bytes());
            }
        }
        return false;
    }
    let mut i: usize = 0;
    while i < x.len()
        invariant
            x@ == a.spec_bytes(),
            y@ == b.spec_bytes(),
            x@.len() == y@.len(),
            i <= x@.len(),
            forall|j: int| 0 <= j < i ==> x@[j] == y@[j],
        decreases x@.len() - i,
    {
        if x[i] != y[i] {
            proof {
                if a@ == b@ {
                    assert(a.spec_bytes() == b.spec_bytes());
                }
            }
            return false;
        }
        i = i + 1;
    }
    proof {
        assert(a.spec_bytes() =~= b.spec_bytes());
        assert(decode_utf8(encode_utf8(a@)) == decode_utf8(encode_utf8(b@)));
    }
    true
}

/// The code of the event named `name` in the database (`None` is the code
/// of no event, for inputs that are dropped).
pub open spec fn event_code(name: Seq<char>) -> Option<u8> {
    if name == "None"@ {
        Some(0u8)
    } else if name == "Exit"@ {
        Some(1u8)
    } else if name == "ActionA"@ {
        Some(2u8)
    } else if name == "ActionB"@ {
        Some(3u8)
    } else if name == "ActionC"@ {
        Some(4u8)
    } else if name == "ActionH"@ {
        Some(5u8)
    } else if name == "ActionV"@ {
        Some(6u8)
    } else if name == "ActionD"@ {
        Some(7u8)
    } else if name == "MenuL"@ {
        Some(8u8)
    } else if name == "MenuR"@ {
        Some(9u8)
    } else if name == "Joy"@ {
        Some(10u8)
    } else if name == "Cam"@ {
        Some(11u8)
    } else if name == "BumperL"@ {
        Some(12u8)
    } else if name == "BumperR"@ {
        Some(13u8)
    } else if name == "TriggerL"@ {
        Some(14u8)
    } else if name == "TriggerR"@ {
        Some(15u8)
    } else if name == "Up"@ {
        Some(16u8)
    } else if name == "Down"@ {
        Some(17u8)
    } else if name == "Left"@ {
        Some(18u8)
    } else if name == "Right"@ {
        Some(19u8)
    } else if name == "HatUp"@ {
        Some(20u8)
    } else if name == "HatDown"@ {
        Some(21u8)
    } else if name == "HatLeft"@ {
        Some(22u8)
    } else if name == "HatRight"@ {
        Some(23u8)
    } else if name == "MicUp"@ {
        Some(24u8)
    } else if name == "MicDown"@ {
        Some(25u8)
    } else if name == "MicLeft"@ {
        Some(26u8)
    } else if name == "MicRight"@ {
        Some(27u8)
    } else if name == "PovUp"@ {
        Some(28u8)
    } else if name == "PovDown"@ {
        Some(29u8)
    } else if name == "PovLeft"@ {
        Some(30u8)
    } else if name == "PovRight"@ {
        Some(31u8)
    } else if name == "JoyX"@ {
        Some(32u8)
    } else if name == "JoyY"@ {
        Some(33u8)
    } else if name == "JoyZ"@ {
        Some(34u8)
    } else if name == "CamX"@ {
        Some(35u8)
    } else if name == "CamY"@ {
        Some(36u8)
    } else if name == "CamZ"@ {
        Some(37u8)
    } else if name == "Slew"@ {
        Some(38u8)
    } else if name == "Throttle"@ {
        Some(39u8)
    } else if name == "ThrottleL"@ {
        Some(40u8)
    } else if name == "ThrottleR"@ {
        Some(41u8)
    } else if name == "Volume"@ {
        Some(42u8)
    } else if name == "Wheel"@ {
        Some(43u8)
    } else if name == "Rudder"@ {
        Some(44u8)
    } else if name == "Gas"@ {
        Some(45u8)
    } else if name == "Brake"@ {
        Some(46u8)
    } else if name == "MicPush"@ {
        Some(47u8)
    } else if name == "Trigger"@ {
        Some(48u8)
    } else if name == "Bumper"@ {
        Some(49u8)
    } else if name == "ActionL"@ {
        Some(50u8)
    } else if name == "ActionM"@ {
        Some(51u8)
    } else if name == "ActionR"@ {
        Some(52u8)
    } else if name == "Pinky"@ {
        Some(53u8)
    } else if name == "PinkyForward"@ {
        Some(54u8)
    } else if name == "PinkyBackward"@ {
        Some(55u8)
    } else if name == "FlapsUp"@ {
        Some(56u8)
    } else if name == "FlapsDown"@ {
        Some(57u8)
    } else if name == "BoatForward"@ {
        Some(58u8)
    } else if name == "BoatBackward"@ {
        Some(59u8)
    } else if name == "AutopilotPath"@ {
        Some(60u8)
    } else if name == "AutopilotAlt"@ {
        Some(61u8)
    } else if name == "EngineMotorL"@ {
        Some(62u8)
    } else if name == "EngineMotorR"@ {
        Some(63u8)
    } else if name == "EngineFuelFlowL"@ {
        Some(64u8)
    } else if name == "EngineFuelFlowR"@ {
        Some(65u8)
    } else if name == "EngineIgnitionL"@ {
        Some(66u8)
    } else if name == "EngineIgnitionR"@ {
        Some(67u8)
    } else if name == "SpeedbrakeBackward"@ {
        Some(68u8)
    } else if name == "SpeedbrakeForward"@ {
        Some(69u8)
    } else if name == "ChinaBackward"@ {
        Some(70u8)
    } else if name == "ChinaForward"@ {
        Some(71u8)
    } else if name == "Apu"@ {
        Some(72u8)
    } else if name == "RadarAltimeter"@ {
        Some(73u8)
    } else if name == "LandingGearSilence"@ {
        Some(74u8)
    } else if name == "Eac"@ {
        Some(75u8)
    } else if name == "AutopilotToggle"@ {
        Some(76u8)
    } else if name == "ThrottleButton"@ {
        Some(77u8)
    } else if name == "MouseX"@ {
        Some(78u8)
    } else if name == "MouseY"@ {
        Some(79u8)
    } else if name == "Mouse"@ {
        Some(80u8)
    } else if name == "PaddleLeft"@ {
        Some(81u8)
    } else if name == "PaddleRight"@ {
        Some(82u8)
    } else if name == "PinkyLeft"@ {
        Some(83u8)
    } else if name == "PinkyRight"@ {
        Some(84u8)
    } else if name == "Context"@ {
        Some(85u8)
    } else if name == "Dpi"@ {
        Some(86u8)
    } else if name == "ScrollX"@ {
        Some(87u8)
    } else if name == "ScrollY"@ {
        Some(88u8)
    } else if name == "Scroll"@ {
        Some(89u8)
    } else if name == "TrimUp"@ {
        Some(90u8)
    } else if name == "TrimDown"@ {
        Some(91u8)
    } else if name == "TrimLeft"@ {
        Some(92u8)
    } else if name == "TrimRight"@ {
        Some(93u8)
    } else if name == "ActionWheelX"@ {
        Some(94u8)
    } else if name == "ActionWheelY"@ {
        Some(95u8)
    } else {
        None
    }
}

/// The code of the event named `name`, if it is a known name.
pub fn name_code(name: &str) -> (r: Option<u8>)
    ensures
        r == event_code(name@),
{
    if str_eq(name, "None") {
        return Some(0);
    }
    if str_eq(name, "Exit") {
        return Some(1);
    }
    if str_eq(name, "ActionA") {
        return Some(2);
    }
    if str_eq(name, "ActionB") {
        return Some(3);
    }
    if str_eq(name, "ActionC") {
        return Some(4);
    }
    if str_eq(name, "ActionH") {
        return Some(5);
    }
    if str_eq(name, "ActionV") {
        return Some(6);
    }
    if str_eq(name, "ActionD") {
        return Some(7);
    }
    if str_eq(name, "MenuL") {
        return Some(8);
    }
    if str_eq(name, "MenuR") {
        return Some(9);
    }
    if str_eq(name, "Joy") {
        return Some(10);
    }
    if str_eq(name, "Cam") {
        return Some(11);
    }
    if str_eq(name, "BumperL") {
        return Some(12);
    }
    if str_eq(name, "BumperR") {
        return Some(13);
    }
    if str_eq(name, "TriggerL") {
        return Some(14);
    }
    if str_eq(name, "TriggerR") {
        return Some(15);
    }
    if str_eq(name, "Up") {
        return Some(16);
    }
    if str_eq(name, "Down") {
        return Some(17);
    }
    if str_eq(name, "Left") {
        return Some(18);
    }
    if str_eq(name, "Right") {
        return Some(19);
    }
    if str_eq(name, "HatUp") {
        return Some(20);
    }
    if str_eq(name, "HatDown") {
        return Some(21);
    }
    if str_eq(name, "HatLeft") {
        return Some(22);
    }
    if str_eq(name, "HatRight") {
        return Some(23);
    }
    if str_eq(name, "MicUp") {
        return Some(24);
    }
    if str_eq(name, "MicDown") {
        return Some(25);
    }
    if str_eq(name, "MicLeft") {
        return Some(26);
    }
    if str_eq(name, "MicRight") {
        return Some(27);
    }
    if str_eq(name, "PovUp") {
        return Some(28);
    }
    if str_eq(name, "PovDown") {
        return Some(29);
    }
    if str_eq(name, "PovLeft") {
        return Some(30);
    }
    if str_eq(name, "PovRight") {
        return Some(31);
    }
    if str_eq(name, "JoyX") {
        return Some(32);
    }
    if str_eq(name, "JoyY") {
        return Some(33);
    }
    if str_eq(name, "JoyZ") {
        return Some(34);
    }
    if str_eq(name, "CamX") {
        return Some(35);
    }
    if str_eq(name, "CamY") {
        return Some(36);
    }
    if str_eq(name, "CamZ") {
        return Some(37);
    }
    if str_eq(name, "Slew") {
        return Some(38);
    }
    if str_eq(name, "Throttle") {
        return Some(39);
    }
    if str_eq(name, "ThrottleL") {
        return Some(40);
    }
    if str_eq(name, "ThrottleR") {
        return Some(41);
    }
    if str_eq(name, "Volume") {
        return Some(42);
    }
    if str_eq(name, "Wheel") {
        return Some(43);
    }
    if str_eq(name, "Rudder") {
        return Some(44);
    }
    if str_eq(name, "Gas") {
        return Some(45);
    }
    if str_eq(name, "Brake") {
        return Some(46);
    }
    if str_eq(name, "MicPush") {
        return Some(47);
    }
    if str_eq(name, "Trigger") {
        return Some(48);
    }
    if str_eq(name, "Bumper") {
        return Some(49);
    }
    if str_eq(name, "ActionL") {
        return Some(50);
    }
    if str_eq(name, "ActionM") {
        return Some(51);
    }
    if str_eq(name, "ActionR") {
        return Some(52);
    }
    if str_eq(name, "Pinky") {
        return Some(53);
    }
    if str_eq(name, "PinkyForward") {
        return Some(54);
    }
    if str_eq(name, "PinkyBackward") {
        return Some(55);
    }
    if str_eq(name, "FlapsUp") {
        return Some(56);
    }
    if str_eq(name, "FlapsDown") {
        return Some(57);
    }
    if str_eq(name, "BoatForward") {
        return Some(58);
    }
    if str_eq(name, "BoatBackward") {
        return Some(59);
    }
    if str_eq(name, "AutopilotPath") {
        return Some(60);
    }
    if str_eq(name, "AutopilotAlt") {
        return Some(61);
    }
    if str_eq(name, "EngineMotorL") {
        return Some(62);
    }
    if str_eq(name, "EngineMotorR") {
        return Some(63);
    }
    if str_eq(name, "EngineFuelFlowL") {
        return Some(64);
    }
    if str_eq(name, "EngineFuelFlowR") {
        return Some(65);
    }
    if str_eq(name, "EngineIgnitionL") {
        return Some(66);
    }
    if str_eq(name, "EngineIgnitionR") {
        return Some(67);
    }
    if str_eq(name, "SpeedbrakeBackward") {
        return Some(68);
    }
    if str_eq(name, "SpeedbrakeForward") {
        return Some(69);
    }
    if str_eq(name, "ChinaBackward") {
        return Some(70);
    }
    if str_eq(name, "ChinaForward") {
        return Some(71);
    }
    if str_eq(name, "Apu") {
        return Some(72);
    }
    if str_eq(name, "RadarAltimeter") {
        return Some(73);
    }
    if str_eq(name, "LandingGearSilence") {
        return Some(74);
    }
    if str_eq(name, "Eac") {
        return Some(75);
    }
    if str_eq(name, "AutopilotToggle") {
        return Some(76);
    }
    if str_eq(name, "ThrottleButton") {
        return Some(77);
    }
    if str_eq(name, "MouseX") {
        return Some(78);
    }
    if str_eq(name, "MouseY") {
        return Some(79);
    }
    if str_eq(name, "Mouse") {
        return Some(80);
    }
    if str_eq(name, "PaddleLeft") {
        return Some(81);
    }
    if str_eq(name, "PaddleRight") {
        return Some(82);
    }
    if str_eq(name, "PinkyLeft") {
        return Some(83);
    }
    if str_eq(name, "PinkyRight") {
        return Some(84);
    }
    if str_eq(name, "Context") {
        return Some(85);
    }
    if str_eq(name, "Dpi") {
        return Some(86);
    }
    if str_eq(name, "ScrollX") {
        return Some(87);
    }
    if str_eq(name, "ScrollY") {
        return Some(88);
    }
    if str_eq(name, "Scroll") {
        return Some(89);
    }
    if str_eq(name, "TrimUp") {
        return Some(90);
    }
    if str_eq(name, "TrimDown") {
        return Some(91);
    }
    if str_eq(name, "TrimLeft") {
        return Some(92);
    }
    if str_eq(name, "TrimRight") {
        return Some(93);
    }
    if str_eq(name, "ActionWheelX") {
        return Some(94);
    }
    if str_eq(name, "ActionWheelY") {
        return Some(95);
    }
    None
}

/// The upper-case hexadecimal digit of `d` (below 16), as a character.
pub open spec fn hex_char(d: nat) -> char {
    if d < 10 {
        (d + 48) as char
    } else {
        (d + 55) as char
    }
}

fn hex_str(d: u8) -> (r: &'static str)
    requires
        d < 16,
    ensures
        r@ == seq![hex_char(d as nat)],
{
    proof {
        reveal_strlit("0");
        reveal_strlit("1");
        reveal_strlit("2");
        reveal_strlit("3");
        reveal_strlit("4");
        reveal_strlit("5");
        reveal_strlit("6");
        reveal_strlit("7");
        reveal_strlit("8");
        reveal_strlit("9");
        reveal_strlit("A");
        reveal_strlit("B");
        reveal_strlit("C");
        reveal_strlit("D");
        reveal_strlit("E");
        reveal_strlit("F");
    }
    match d {
        0 => "0",
        1 => "1",
        2 => "2",
        3 => "3",
        4 => "4",
        5 => "5",
        6 => "6",
        7 => "7",
        8 => "8",
        9 => "9",
        10 => "A",
        11 => "B",
        12 => "C",
        13 => "D",
        14 => "E",
        _ => "F",
    }
}

/// The code of the event named `name` in two upper-case hexadecimal digits.
pub fn name_to_hex(name: &str) -> (r: String)
    requires
        event_code(name@) is Some,
    ensures
        ({
            let c = event_code(name@)->0;
            r@ == seq![hex_char((c / 16) as nat), hex_char((c % 16) as nat)]
        }),
{
    let c = match name_code(name) {
        Some(c) => c,
        None => 0,
    };
    let mut r = hex_str(c / 16).to_owned();
    r.append(hex_str(c % 16));
    r
}

/// The byte of upper-case hexadecimal digit `d` (below 16).
pub open spec fn hex_byte(d: nat) -> u8 {
    hex_char(d) as u8
}

/// Byte `b` in two upper-case hexadecimal digits.
pub open spec fn hex2(b: u8) -> Seq<u8> {
    seq![hex_byte((b / 16) as nat), hex_byte((b % 16) as nat)]
}

/// The decimal digits of `n`, without leading zeros.
pub open spec fn dec_bytes(n: nat) -> Seq<u8>
    decreases n,
{
    if n < 10 {
        seq![(n + 48) as u8]
    } else {
        dec_bytes(n / 10).push((n % 10 + 48) as u8)
    }
}

/// Integer `v` in decimal, with a leading `-` when it is negative.
pub open spec fn signed_dec(v: int) -> Seq<u8> {
    if v < 0 {
        seq![0x2Du8] + dec_bytes((-v) as nat)
    } else {
        dec_bytes(v as nat)
    }
}

/// The UTF-8 bytes of a string.
pub open spec fn bytes_of(s: String) -> Seq<u8> {
    encode_utf8(s@)
}

/// The tweaks of a remapping given as a table.
pub struct Tweaks {
    /// Name of the event that the input becomes (no event when absent).
    pub event: Option<String>,
    /// Greatest raw value of the input.
    pub max: Option<i64>,
    /// Least raw value of the input.
    pub min: Option<i64>,
    /// Scale of the input, as the text that formatting the file's number
    /// gives.
    pub scale: Option<String>,
    /// Deadzone of the input, as the text that formatting the file's number
    /// gives.
    pub deadzone: Option<String>,
}

/// What an input of a controller file is remapped to.
pub enum Target {
    /// `Input = "Event"`: the event that the input becomes.
    Event(String),
    /// `Input = { event = "Event", ... }`: the event and its tweaks.
    Table(Tweaks),
}

/// One controller file: the file's name (starting with the model's id in 16
/// hexadecimal digits), and its `name`, `type` and `remap` keys.
pub struct ControllerFile {
    pub file_name: String,
    pub name: String,
    pub type_: String,
    pub remap: Vec<(String, Target)>,
}

/// The letter of a controller type.
pub open spec fn type_letter(t: Seq<char>) -> Option<u8> {
    if t == "xbox"@ {
        Some(0x78u8)
    } else if t == "playstation"@ {
        Some(0x70u8)
    } else if t == "nintendo"@ {
        Some(0x6Eu8)
    } else if t == "gamepad"@ {
        Some(0x67u8)
    } else if t == "flight"@ {
        Some(0x66u8)
    } else {
        None
    }
}

/// The code of an input key: a number `n` up to 255 is input `n` with the
/// high bit set; any other key is the name of an event.
pub open spec fn key_code(k: Seq<char>) -> Option<u8> {
    match parse_unsigned(encode_utf8(k), 10, 255) {
        Some(n) => Some(if n >= 128 { n as u8 } else { (n + 128) as u8 }),
        None => event_code(k),
    }
}

/// The code of the event that a target names (no event for a table without
/// one).
pub open spec fn target_code(t: Target) -> Option<u8> {
    match t {
        Target::Event(e) => event_code(e@),
        Target::Table(tw) => match tw.event {
            Some(e) => event_code(e@),
            None => Some(0u8),
        },
    }
}

/// A tweak: its letter and its text, when it is present.
pub open spec fn tweak(letter: u8, text: Option<Seq<u8>>) -> Seq<u8> {
    match text {
        Some(t) => seq![letter] + t,
        None => Seq::empty(),
    }
}

/// A number tweak's text, when it is present.
pub open spec fn number_text(v: Option<i64>) -> Option<Seq<u8>> {
    match v {
        Some(n) => Some(signed_dec(n as int)),
        None => None,
    }
}

/// A text tweak's bytes, when it is present.
pub open spec fn text_bytes(s: Option<String>) -> Option<Seq<u8>> {
    match s {
        Some(t) => Some(bytes_of(t)),
        None => None,
    }
}

/// The tweaks of a table in the database: `a` max, `i` min, `s` scale and
/// `d` deadzone, each followed by its text.
pub open spec fn tweaks_bytes(tw: Tweaks) -> Seq<u8> {
    tweak(0x61, number_text(tw.max)) + tweak(0x69, number_text(tw.min)) + tweak(
        0x73,
        text_bytes(tw.scale),
    ) + tweak(0x64, text_bytes(tw.deadzone))
}

/// One remapping in the database: input code and event code in hexadecimal,
/// then the tweaks of a table.
pub open spec fn entry_bytes(k: String, t: Target) -> Seq<u8> {
    hex2(key_code(k@)->0) + hex2(target_code(t)->0) + match t {
        Target::Event(_) => Seq::<u8>::empty(),
        Target::Table(tw) => tweaks_bytes(tw),
    }
}

/// Whether a remapping can be written: its key and its event are known.
pub open spec fn entry_ok(k: String, t: Target) -> bool {
    key_code(k@) is Some && target_code(t) is Some
}

/// The key by which the remappings of a controller are ordered: the key's
/// bytes with ASCII letters in lower case.
pub open spec fn sort_key(k: String) -> Seq<u8> {
    bytes_of(k).map_values(|b: u8| if 0x41 <= b <= 0x5A { (b + 32) as u8 } else { b })
}

/// Byte strings in lexicographic order: `a` comes strictly before `b`.
pub open spec fn bytes_lt(a: Seq<u8>, b: Seq<u8>) -> bool
    decreases a.len(),
{
    if a.len() == 0 {
        b.len() > 0
    } else if b.len() == 0 {
        false
    } else if a[0] != b[0] {
        a[0] < b[0]
    } else {
        bytes_lt(a.drop_first(), b.drop_first())
    }
}

/// `s`, ordered by key, with `x` inserted after the entries whose keys do not
/// come after its own.
pub open spec fn insert_sorted(s: Seq<int>, x: int, keys: Seq<Seq<u8>>) -> Seq<int>
    decreases s.len(),
{
    if s.len() == 0 {
        seq![x]
    } else if bytes_lt(keys[x], keys[s.last()]) {
        insert_sorted(s.drop_last(), x, keys).push(s.last())
    } else {
        s.push(x)
    }
}

/// The indices `0..n` ordered by `keys`, stably: a stable sort, each index
/// inserted after the earlier ones whose keys do not come after its own.
pub open spec fn sorted_indices(n: nat, keys: Seq<Seq<u8>>) -> Seq<int>
    decreases n,
{
    if n == 0 {
        Seq::empty()
    } else {
        insert_sorted(sorted_indices((n - 1) as nat, keys), n - 1, keys)
    }
}

/// Each part followed by `sep`.
pub open spec fn terminated(parts: Seq<Seq<u8>>, sep: u8) -> Seq<u8>
    decreases parts.len(),
{
    if parts.len() == 0 {
        Seq::empty()
    } else {
        terminated(parts.drop_last(), sep) + parts.last() + seq![sep]
    }
}

/// `s` without its last byte, if it has one.
pub open spec fn drop_last_byte(s: Seq<u8>) -> Seq<u8> {
    if s.len() == 0 {
        s
    } else {
        s.drop_last()
    }
}

/// The remappings of a controller, ordered by key.
pub open spec fn sorted_remap(remap: Seq<(String, Target)>) -> Seq<(String, Target)> {
    let keys = remap.map_values(|e: (String, Target)| sort_key(e.0));
    sorted_indices(remap.len(), keys).map_values(|i: int| remap[i])
}

/// The line of a controller in the database: the model's id (the first 16
/// bytes of the file name), the name, a tab, the type letter, then the
/// remappings ordered by key and separated by `;`.  (Without remappings the
/// separator that is dropped at the end is the type letter.)
pub open spec fn line_bytes(f: ControllerFile) -> Seq<u8> {
    let head = bytes_of(f.file_name).take(16) + bytes_of(f.name) + seq![0x09u8] + seq![
        type_letter(f.type_@)->0,
    ];
    let entries = sorted_remap(f.remap@).map_values(|e: (String, Target)| entry_bytes(e.0, e.1));
    drop_last_byte(head + terminated(entries, 0x3B))
}

/// Whether a controller file can be written: its file name has at least 16
/// bytes, the 16th ending a character, its type is known and so are the keys
/// and events of its remappings.
pub open spec fn file_ok(f: ControllerFile) -> bool {
    &&& bytes_of(f.file_name).len() >= 16
    &&& crate::text::cuts_at(bytes_of(f.file_name), 16)
    &&& type_letter(f.type_@) is Some
    &&& forall|i: int| 0 <= i < f.remap@.len() ==> entry_ok(#[trigger] f.remap@[i].0, f.remap@[i].1)
}

/// The database of controller files: their lines, separated by newlines.
pub open spec fn db_bytes(files: Seq<ControllerFile>) -> Seq<u8> {
    drop_last_byte(terminated(files.map_values(|f: ControllerFile| line_bytes(f)), 0x0A))
}

pub(crate) fn push_hex2(out: &mut Vec<u8>, b: u8)
    ensures
        final(out)@ == old(out)@ + hex2(b),
{
    let hi = b / 16;
    let lo = b % 16;
    out.push(if hi < 10 { hi + 48 } else { hi + 55 });
    out.push(if lo < 10 { lo + 48 } else { lo + 55 });
    proof {
        assert(final(out)@ =~= old(out)@ + hex2(b));
    }
}

fn push_dec(out: &mut Vec<u8>, n: u64)
    ensures
        final(out)@ == old(out)@ + dec_bytes(n as nat),
    decreases n,
{
    if n >= 10 {
        push_dec(out, n / 10);
    }
    out.push((n % 10) as u8 + 48);
    proof {
        if n >= 10 {
            assert(dec_bytes(n as nat) == dec_bytes((n / 10) as nat).push((n % 10 + 48) as u8));
        }
        assert(final(out)@ =~= old(out)@ + dec_bytes(n as nat));
    }
}

fn push_signed(out: &mut Vec<u8>, v: i64)
    ensures
        final(out)@ == old(out)@ + signed_dec(v as int),
{
    if v < 0 {
        out.push(0x2D);
        let m: u64 = ((-(v + 1)) as u64) + 1;
        push_dec(out, m);
        proof {
            assert(final(out)@ =~= old(out)@ + signed_dec(v as int));
        }
    } else {
        push_dec(out, v as u64);
    }
}

fn push_str(out: &mut Vec<u8>, s: &str)
    ensures
        final(out)@ == old(out)@ + s.spec_bytes(),
{
    let b = s.as_bytes();
    let mut i: usize = 0;
    while i < b.len()
        invariant
            b@ == s.spec_bytes(),
            i <= b@.len(),
            out@ == old(out)@ + b@.take(i as int),
        decreases b@.len() - i,
    {
        out.push(b[i]);
        i = i + 1;
        proof {
            assert(out@ =~= old(out)@ + b@.take(i as int));
        }
    }
    proof {
        assert(b@.take(i as int) =~= b@);
    }
}

/// The code of an input key (see [`key_code`]).
fn key_code_of(k: &str) -> (r: Option<u8>)
    ensures
        r == key_code(k@),
{
    let b = k.as_bytes();
    proof {
        assert(b@.subrange(0, b@.len() as int) =~= b@);
    }
    match parse_unsigned_range(b, 0, b.len(), 10, 255) {
        Some(n) => Some(if n >= 128 { n as u8 } else { (n + 128) as u8 }),
        None => name_code(k),
    }
}

fn target_code_of(t: &Target) -> (r: Option<u8>)
    ensures
        r == target_code(*t),
{
    match t {
        Target::Event(e) => name_code(e.as_str()),
        Target::Table(tw) => match &tw.event {
            Some(e) => name_code(e.as_str()),
            None => Some(0),
        },
    }
}

fn type_letter_of(t: &str) -> (r: Option<u8>)
    ensures
        r == type_letter(t@),
{
    if str_eq(t, "xbox") {
        Some(0x78)
    } else if str_eq(t, "playstation") {
        Some(0x70)
    } else if str_eq(t, "nintendo") {
        Some(0x6E)
    } else if str_eq(t, "gamepad") {
        Some(0x67)
    } else if str_eq(t, "flight") {
        Some(0x66)
    } else {
        None
    }
}

fn lower_key(k: &String) -> (r: Vec<u8>)
    ensures
        r@ == sort_key(*k),
{
    let b = k.as_str().as_bytes();
    let mut r: Vec<u8> = Vec::new();
    let mut i: usize = 0;
    while i < b.len()
        invariant
            b@ == bytes_of(*k),
            i <= b@.len(),
            r@ == b@.take(i as int).map_values(
                |c: u8| if 0x41 <= c <= 0x5A { (c + 32) as u8 } else { c },
            ),
        decreases b@.len() - i,
    {
        let c = b[i];
        r.push(if 0x41 <= c && c <= 0x5A { c + 32 } else { c });
        i = i + 1;
        proof {
            assert(r@ =~= b@.take(i as int).map_values(
                |c: u8| if 0x41 <= c <= 0x5A { (c + 32) as u8 } else { c },
            ));
        }
    }
    proof {
        assert(b@.take(i as int) =~= b@);
    }
    r
}

fn bytes_less(a: &Vec<u8>, b: &Vec<u8>) -> (r: bool)
    ensures
        r == bytes_lt(a@, b@),
{
    let mut i: usize = 0;
    proof {
        assert(a@.skip(0) =~= a@);
        assert(b@.skip(0) =~= b@);
    }
    while i < a.len() && i < b.len()
        invariant
            i <= a@.len(),
            i <= b@.len(),
            bytes_lt(a@, b@) == bytes_lt(a@.skip(i as int), b@.skip(i as int)),
        decreases a@.len() - i,
    {
        if a[i] != b[i] {
            proof {
                assert(a@.skip(i as int)[0] == a@[i as int]);
                assert(b@.skip(i as int)[0] == b@[i as int]);
            }
            return a[i] < b[i];
        }
        proof {
            assert(a@.skip(i as int).drop_first() =~= a@.skip(i + 1));
            assert(b@.skip(i as int).drop_first() =~= b@.skip(i + 1));
        }
        i = i + 1;
    }
    i >= a.len() && i < b.len()
}

/// Inserting into `s` at the place that a scan from the end finds: after
/// the entries whose keys do not come after `x`'s.
proof fn lemma_insert_at(s: Seq<int>, x: int, keys: Seq<Seq<u8>>, p: int)
    requires
        0 <= p <= s.len(),
        forall|j: int| p <= j < s.len() ==> bytes_lt(keys[x], #[trigger] keys[s[j]]),
        p > 0 ==> !bytes_lt(keys[x], keys[s[p - 1]]),
    ensures
        insert_sorted(s, x, keys) == s.take(p) + seq![x] + s.skip(p),
    decreases s.len(),
{
    if s.len() == 0 {
        assert(s.take(p) + seq![x] + s.skip(p) =~= seq![x]);
    } else if bytes_lt(keys[x], keys[s.last()]) {
        let t = s.drop_last();
        if p == s.len() {
            assert(!bytes_lt(keys[x], keys[s[p - 1]]));
        }
        assert forall|j: int| p <= j < t.len() implies bytes_lt(keys[x], #[trigger] keys[t[j]]) by {
            assert(t[j] == s[j]);
        }
        lemma_insert_at(t, x, keys, p);
        assert(t.take(p) + seq![x] + t.skip(p) + seq![s.last()] =~= s.take(p) + seq![x] + s.skip(p));
    } else {
        if p < s.len() {
            assert(bytes_lt(keys[x], keys[s[s.len() - 1]]));
        }
        assert(s.take(p) + seq![x] + s.skip(p) =~= s.push(x));
    }
}

/// The order in which the remappings of a controller are written: indices
/// into `remap`, ordered by [`sort_key`] (see [`sorted_remap`]).
fn sort_remap(remap: &Vec<(String, Target)>) -> (r: Vec<usize>)
    ensures
        r@.map_values(|i: usize| i as int) == sorted_indices(
            remap@.len(),
            remap@.map_values(|e: (String, Target)| sort_key(e.0)),
        ),
        forall|j: int| 0 <= j < r@.len() ==> #[trigger] r@[j] < remap@.len(),
{
    let ghost keys = remap@.map_values(|e: (String, Target)| sort_key(e.0));
    let mut kv: Vec<Vec<u8>> = Vec::new();
    let mut n: usize = 0;
    while n < remap.len()
        invariant
            n <= remap@.len(),
            kv@.len() == n,
            keys == remap@.map_values(|e: (String, Target)| sort_key(e.0)),
            forall|j: int| 0 <= j < n ==> #[trigger] kv@[j]@ == keys[j],
        decreases remap@.len() - n,
    {
        kv.push(lower_key(&remap[n].0));
        n = n + 1;
    }
    let mut idx: Vec<usize> = Vec::new();
    let mut n: usize = 0;
    while n < remap.len()
        invariant
            n <= remap@.len(),
            kv@.len() == remap@.len(),
            keys == remap@.map_values(|e: (String, Target)| sort_key(e.0)),
            forall|j: int| 0 <= j < remap@.len() ==> #[trigger] kv@[j]@ == keys[j],
            idx@.map_values(|i: usize| i as int) == sorted_indices(n as nat, keys),
            forall|j: int| 0 <= j < idx@.len() ==> #[trigger] idx@[j] < n,
            idx@.len() == n,
        decreases remap@.len() - n,
    {
        let ghost before = idx@.map_values(|i: usize| i as int);
        let mut p = idx.len();
        while p > 0 && bytes_less(&kv[n], &kv[idx[p - 1]])
            invariant
                p <= idx@.len(),
                idx@.len() == n,
                n < remap@.len(),
                kv@.len() == remap@.len(),
                forall|j: int| 0 <= j < remap@.len() ==> #[trigger] kv@[j]@ == keys[j],
                forall|j: int| 0 <= j < idx@.len() ==> #[trigger] idx@[j] < n,
                before == idx@.map_values(|i: usize| i as int),
                forall|j: int| p <= j < idx@.len() ==> bytes_lt(keys[n as int], #[trigger] keys[before[j]]),
            decreases p,
        {
            p = p - 1;
        }
        proof {
            lemma_insert_at(before, n as int, keys, p as int);
        }
        idx.insert(p, n);
        proof {
            assert(idx@.map_values(|i: usize| i as int) =~= before.take(p as int) + seq![n as int]
                + before.skip(p as int));
        }
        n = n + 1;
    }
    idx
}

fn push_number_tweak(out: &mut Vec<u8>, letter: u8, v: Option<i64>)
    ensures
        final(out)@ == old(out)@ + tweak(letter, number_text(v)),
{
    match v {
        Some(n) => {
            out.push(letter);
            push_signed(out, n);
            proof {
                assert(final(out)@ =~= old(out)@ + tweak(letter, number_text(v)));
            }
        },
        None => {
            proof {
                assert(final(out)@ =~= old(out)@ + tweak(letter, number_text(v)));
            }
        },
    }
}

fn push_text_tweak(out: &mut Vec<u8>, letter: u8, v: &Option<String>)
    ensures
        final(out)@ == old(out)@ + tweak(letter, text_bytes(*v)),
{
    match v {
        Some(t) => {
            out.push(letter);
            push_str(out, t.as_str());
            proof {
                assert(final(out)@ =~= old(out)@ + tweak(letter, text_bytes(*v)));
            }
        },
        None => {
            proof {
                assert(final(out)@ =~= old(out)@ + tweak(letter, text_bytes(*v)));
            }
        },
    }
}

fn push_tweaks(out: &mut Vec<u8>, tw: &Tweaks)
    ensures
        final(out)@ == old(out)@ + tweaks_bytes(*tw),
{
    push_number_tweak(out, 0x61, tw.max);
    push_number_tweak(out, 0x69, tw.min);
    push_text_tweak(out, 0x73, &tw.scale);
    push_text_tweak(out, 0x64, &tw.deadzone);
    proof {
        assert(final(out)@ =~= old(out)@ + tweaks_bytes(*tw));
    }
}

fn push_entry(out: &mut Vec<u8>, k: &String, t: &Target)
    requires
        entry_ok(*k, *t),
    ensures
        final(out)@ == old(out)@ + entry_bytes(*k, *t),
{
    let kc = match key_code_of(k.as_str()) {
        Some(c) => c,
        None => 0,
    };
    let tc = match target_code_of(t) {
        Some(c) => c,
        None => 0,
    };
    push_hex2(out, kc);
    push_hex2(out, tc);
    match t {
        Target::Event(_) => {},
        Target::Table(tw) => push_tweaks(out, tw),
    }
    proof {
        assert(final(out)@ =~= old(out)@ + entry_bytes(*k, *t));
    }
}

/// `terminated` of one more part.
proof fn lemma_terminated_push(parts: Seq<Seq<u8>>, p: Seq<u8>, sep: u8)
    ensures
        terminated(parts.push(p), sep) == terminated(parts, sep) + p + seq![sep],
{
    assert(parts.push(p).drop_last() =~= parts);
}

fn push_line(out: &mut Vec<u8>, f: &ControllerFile)
    requires
        file_ok(*f),
    ensures
        final(out)@ == old(out)@ + line_bytes(*f),
{
    let mut line: Vec<u8> = Vec::new();
    let name = f.file_name.as_str().as_bytes();
    let mut i: usize = 0;
    while i < 16
        invariant
            name@ == bytes_of(f.file_name),
            name@.len() >= 16,
            i <= 16,
            line@ == name@.take(i as int),
        decreases 16 - i,
    {
        line.push(name[i]);
        i = i + 1;
        proof {
            assert(line@ =~= name@.take(i as int));
        }
    }
    push_str(&mut line, f.name.as_str());
    line.push(0x09);
    let letter = match type_letter_of(f.type_.as_str()) {
        Some(c) => c,
        None => 0,
    };
    line.push(letter);
    let ghost head = line@;
    let order = sort_remap(&f.remap);
    let ghost keys = f.remap@.map_values(|e: (String, Target)| sort_key(e.0));
    let ghost sorted = sorted_remap(f.remap@);
    let ghost entries = sorted.map_values(|e: (String, Target)| entry_bytes(e.0, e.1));
    proof {
        assert(order@.map_values(|i: usize| i as int).len() == order@.len());
    }
    let mut j: usize = 0;
    while j < order.len()
        invariant
            file_ok(*f),
            j <= order@.len(),
            order@.map_values(|i: usize| i as int) == sorted_indices(f.remap@.len(), keys),
            keys == f.remap@.map_values(|e: (String, Target)| sort_key(e.0)),
            sorted == sorted_remap(f.remap@),
            entries == sorted.map_values(|e: (String, Target)| entry_bytes(e.0, e.1)),
            sorted.len() == order@.len(),
            forall|m: int| 0 <= m < order@.len() ==> #[trigger] order@[m] < f.remap@.len(),
            line@ == head + terminated(entries.take(j as int), 0x3B),
        decreases order@.len() - j,
    {
        let k = order[j];
        let e = &f.remap[k];
        proof {
            assert(sorted[j as int] == f.remap@[k as int]);
            assert(entry_ok(f.remap@[k as int].0, f.remap@[k as int].1));
        }
        push_entry(&mut line, &e.0, &e.1);
        line.push(0x3B);
        proof {
            assert(entries.take(j + 1) =~= entries.take(j as int).push(entries[j as int]));
            lemma_terminated_push(entries.take(j as int), entries[j as int], 0x3B);
            assert(line@ =~= head + terminated(entries.take(j + 1), 0x3B));
        }
        j = j + 1;
    }
    proof {
        assert(entries.take(j as int) =~= entries);
        assert(head =~= bytes_of(f.file_name).take(16) + bytes_of(f.name) + seq![0x09u8] + seq![
            type_letter(f.type_@)->0,
        ]);
    }
    line.pop();
    let mut line = line;
    out.append(&mut line);
}

/// Whether [`remap_db`] can write controller file `f` (see [`file_ok`]).
pub fn controller_file_ok(f: &ControllerFile) -> (r: bool)
    ensures
        r == file_ok(*f),
{
    let b = f.file_name.as_str().as_bytes();
    proof {
        assert(b@ == bytes_of(f.file_name));
    }
    if b.len() < 16 {
        return false;
    }
    if b.len() > 16 && 0x80 <= b[16] && b[16] <= 0xBF {
        return false;
    }
    if type_letter_of(f.type_.as_str()).is_none() {
        return false;
    }
    let mut i: usize = 0;
    while i < f.remap.len()
        invariant
            i <= f.remap@.len(),
            forall|j: int| 0 <= j < i ==> entry_ok(#[trigger] f.remap@[j].0, f.remap@[j].1),
        decreases f.remap@.len() - i,
    {
        let (k, t) = &f.remap[i];
        if key_code_of(k.as_str()).is_none() || target_code_of(t).is_none() {
            return false;
        }
        i = i + 1;
    }
    true
}

/// The database of the controller files `files`, in order (see
/// [`db_bytes`]).
pub fn remap_db(files: &Vec<ControllerFile>) -> (r: Vec<u8>)
    requires
        forall|i: int| 0 <= i < files@.len() ==> file_ok(#[trigger] files@[i]),
    ensures
        r@ == db_bytes(files@),
{
    let ghost lines = files@.map_values(|f: ControllerFile| line_bytes(f));
    let mut out: Vec<u8> = Vec::new();
    let mut i: usize = 0;
    while i < files.len()
        invariant
            i <= files@.len(),
            forall|m: int| 0 <= m < files@.len() ==> file_ok(#[trigger] files@[m]),
            lines == files@.map_values(|f: ControllerFile| line_bytes(f)),
            out@ == terminated(lines.take(i as int), 0x0A),
        decreases files@.len() - i,
    {
        push_line(&mut out, &files[i]);
        out.push(0x0A);
        proof {
            assert(lines.take(i + 1) =~= lines.take(i as int).push(lines[i as int]));
            lemma_terminated_push(lines.take(i as int), lines[i as int], 0x0A);
        }
        i = i + 1;
    }
    proof {
        assert(lines.take(i as int) =~= lines);
    }
    out.pop();
    out
}

/// The event names of the database number distinct events: two names with
/// the same code are the same name, and every code is an event identifier
/// (`0x00..=0x5F`, see [`crate::event::spec_to_id`]).
pub proof fn lemma_event_codes_distinct(a: Seq<char>, b: Seq<char>)
    ensures
        event_code(a) is Some && event_code(a) == event_code(b) ==> a == b,
        event_code(a) matches Some(c) ==> c <= 0x5F,
{
}

/// The name of event `e` in the controller files (the disconnection is
/// `None`, which drops an input).
pub open spec fn db_name(e: Event) -> Seq<char> {
    if e is Disconnect {
        "None"@
    } else {
        event_name(e)
    }
}

/// Length, first two and last two characters of a name: enough to tell the
/// event names apart.
spec fn name_key(s: Seq<char>) -> (nat, char, char, char, char) {
    (s.len(), s[0], s[1], s[s.len() - 1], s[s.len() - 2])
}

/// The database's event names agree with the event identifiers: the code
/// of the name of every event but a numbered button is the event's
/// identifier, so that the bytes of the database read back as the events
/// that the controller files name.
#[verifier::spinoff_prover]
#[verifier::rlimit(100)]
pub proof fn lemma_event_codes_are_ids(e: Event)
    requires
        !(e is Number),
    ensures
        event_code(db_name(e)) == Some(spec_to_id(e).0),
{
    reveal_strlit("None");
    assert(name_key("None"@) == (4nat, 'N', 'o', 'e', 'n'));
    reveal_strlit("Exit");
    assert(name_key("Exit"@) == (4nat, 'E', 'x', 't', 'i'));
    reveal_strlit("ActionA");
    assert(name_key("ActionA"@) == (7nat, 'A', 'c', 'A', 'n'));
    reveal_strlit("ActionB");
    assert(name_key("ActionB"@) == (7nat, 'A', 'c', 'B', 'n'));
    reveal_strlit("ActionC");
    assert(name_key("ActionC"@) == (7nat, 'A', 'c', 'C', 'n'));
    reveal_strlit("ActionH");
    assert(name_key("ActionH"@) == (7nat, 'A', 'c', 'H', 'n'));
    reveal_strlit("ActionV");
    assert(name_key("ActionV"@) == (7nat, 'A', 'c', 'V', 'n'));
    reveal_strlit("ActionD");
    assert(name_key("ActionD"@) == (7nat, 'A', 'c', 'D', 'n'));
    reveal_strlit("MenuL");
    assert(name_key("MenuL"@) == (5nat, 'M', 'e', 'L', 'u'));
    reveal_strlit("MenuR");
    assert(name_key("MenuR"@) == (5nat, 'M', 'e', 'R', 'u'));
    reveal_strlit("Joy");
    assert(name_key("Joy"@) == (3nat, 'J', 'o', 'y', 'o'));
    reveal_strlit("Cam");
    assert(name_key("Cam"@) == (3nat, 'C', 'a', 'm', 'a'));
    reveal_strlit("BumperL");
    assert(name_key("BumperL"@) == (7nat, 'B', 'u', 'L', 'r'));
    reveal_strlit("BumperR");
    assert(name_key("BumperR"@) == (7nat, 'B', 'u', 'R', 'r'));
    reveal_strlit("TriggerL");
    assert(name_key("TriggerL"@) == (8nat, 'T', 'r', 'L', 'r'));
    reveal_strlit("TriggerR");
    assert(name_key("TriggerR"@) == (8nat, 'T', 'r', 'R', 'r'));
    reveal_strlit("Up");
    assert(name_key("Up"@) == (2nat, 'U', 'p', 'p', 'U'));
    reveal_strlit("Down");
    assert(name_key("Down"@) == (4nat, 'D', 'o', 'n', 'w'));
    reveal_strlit("Left");
    assert(name_key("Left"@) == (4nat, 'L', 'e', 't', 'f'));
    reveal_strlit("Right");
    assert(name_key("Right"@) == (5nat, 'R', 'i', 't', 'h'));
    reveal_strlit("HatUp");
    assert(name_key("HatUp"@) == (5nat, 'H', 'a', 'p', 'U'));
    reveal_strlit("HatDown");
    assert(name_key("HatDown"@) == (7nat, 'H', 'a', 'n', 'w'));
    reveal_strlit("HatLeft");
    assert(name_key("HatLeft"@) == (7nat, 'H', 'a', 't', 'f'));
    reveal_strlit("HatRight");
    assert(name_key("HatRight"@) == (8nat, 'H', 'a', 't', 'h'));
    reveal_strlit("MicUp");
    assert(name_key("MicUp"@) == (5nat, 'M', 'i', 'p', 'U'));
    reveal_strlit("MicDown");
    assert(name_key("MicDown"@) == (7nat, 'M', 'i', 'n', 'w'));
    reveal_strlit("MicLeft");
    assert(name_key("MicLeft"@) == (7nat, 'M', 'i', 't', 'f'));
    reveal_strlit("MicRight");
    assert(name_key("MicRight"@) == (8nat, 'M', 'i', 't', 'h'));
    reveal_strlit("PovUp");
    assert(name_key("PovUp"@) == (5nat, 'P', 'o', 'p', 'U'));
    reveal_strlit("PovDown");
    assert(name_key("PovDown"@) == (7nat, 'P', 'o', 'n', 'w'));
    reveal_strlit("PovLeft");
    assert(name_key("PovLeft"@) == (7nat, 'P', 'o', 't', 'f'));
    reveal_strlit("PovRight");
    assert(name_key("PovRight"@) == (8nat, 'P', 'o', 't', 'h'));
    reveal_strlit("JoyX");
    assert(name_key("JoyX"@) == (4nat, 'J', 'o', 'X', 'y'));
    reveal_strlit("JoyY");
    assert(name_key("JoyY"@) == (4nat, 'J', 'o', 'Y', 'y'));
    reveal_strlit("JoyZ");
    assert(name_key("JoyZ"@) == (4nat, 'J', 'o', 'Z', 'y'));
    reveal_strlit("CamX");
    assert(name_key("CamX"@) == (4nat, 'C', 'a', 'X', 'm'));
    reveal_strlit("CamY");
    assert(name_key("CamY"@) == (4nat, 'C', 'a', 'Y', 'm'));
    reveal_strlit("CamZ");
    assert(name_key("CamZ"@) == (4nat, 'C', 'a', 'Z', 'm'));
    reveal_strlit("Slew");
    assert(name_key("Slew"@) == (4nat, 'S', 'l', 'w', 'e'));
    reveal_strlit("Throttle");
    assert(name_key("Throttle"@) == (8nat, 'T', 'h', 'e', 'l'));
    reveal_strlit("ThrottleL");
    assert(name_key("ThrottleL"@) == (9nat, 'T', 'h', 'L', 'e'));
    reveal_strlit("ThrottleR");
    assert(name_key("ThrottleR"@) == (9nat, 'T', 'h', 'R', 'e'));
    reveal_strlit("Volume");
    assert(name_key("Volume"@) == (6nat, 'V', 'o', 'e', 'm'));
    reveal_strlit("Wheel");
    assert(name_key("Wheel"@) == (5nat, 'W', 'h', 'l', 'e'));
    reveal_strlit("Rudder");
    assert(name_key("Rudder"@) == (6nat, 'R', 'u', 'r', 'e'));
    reveal_strlit("Gas");
    assert(name_key("Gas"@) == (3nat, 'G', 'a', 's', 'a'));
    reveal_strlit("Brake");
    assert(name_key("Brake"@) == (5nat, 'B', 'r', 'e', 'k'));
    reveal_strlit("MicPush");
    assert(name_key("MicPush"@) == (7nat, 'M', 'i', 'h', 's'));
    reveal_strlit("Trigger");
    assert(name_key("Trigger"@) == (7nat, 'T', 'r', 'r', 'e'));
    reveal_strlit("Bumper");
    assert(name_key("Bumper"@) == (6nat, 'B', 'u', 'r', 'e'));
    reveal_strlit("ActionL");
    assert(name_key("ActionL"@) == (7nat, 'A', 'c', 'L', 'n'));
    reveal_strlit("ActionM");
    assert(name_key("ActionM"@) == (7nat, 'A', 'c', 'M', 'n'));
    reveal_strlit("ActionR");
    assert(name_key("ActionR"@) == (7nat, 'A', 'c', 'R', 'n'));
    reveal_strlit("Pinky");
    assert(name_key("Pinky"@) == (5nat, 'P', 'i', 'y', 'k'));
    reveal_strlit("PinkyForward");
    assert(name_key("PinkyForward"@) == (12nat, 'P', 'i', 'd', 'r'));
    reveal_strlit("PinkyBackward");
    assert(name_key("PinkyBackward"@) == (13nat, 'P', 'i', 'd', 'r'));
    reveal_strlit("FlapsUp");
    assert(name_key("FlapsUp"@) == (7nat, 'F', 'l', 'p', 'U'));
    reveal_strlit("FlapsDown");
    assert(name_key("FlapsDown"@) == (9nat, 'F', 'l', 'n', 'w'));
    reveal_strlit("BoatForward");
    assert(name_key("BoatForward"@) == (11nat, 'B', 'o', 'd', 'r'));
    reveal_strlit("BoatBackward");
    assert(name_key("BoatBackward"@) == (12nat, 'B', 'o', 'd', 'r'));
    reveal_strlit("AutopilotPath");
    assert(name_key("AutopilotPath"@) == (13nat, 'A', 'u', 'h', 't'));
    reveal_strlit("AutopilotAlt");
    assert(name_key("AutopilotAlt"@) == (12nat, 'A', 'u', 't', 'l'));
    reveal_strlit("EngineMotorL");
    assert(name_key("EngineMotorL"@) == (12nat, 'E', 'n', 'L', 'r'));
    reveal_strlit("EngineMotorR");
    assert(name_key("EngineMotorR"@) == (12nat, 'E', 'n', 'R', 'r'));
    reveal_strlit("EngineFuelFlowL");
    assert(name_key("EngineFuelFlowL"@) == (15nat, 'E', 'n', 'L', 'w'));
    reveal_strlit("EngineFuelFlowR");
    assert(name_key("EngineFuelFlowR"@) == (15nat, 'E', 'n', 'R', 'w'));
    reveal_strlit("EngineIgnitionL");
    assert(name_key("EngineIgnitionL"@) == (15nat, 'E', 'n', 'L', 'n'));
    reveal_strlit("EngineIgnitionR");
    assert(name_key("EngineIgnitionR"@) == (15nat, 'E', 'n', 'R', 'n'));
    reveal_strlit("SpeedbrakeBackward");
    assert(name_key("SpeedbrakeBackward"@) == (18nat, 'S', 'p', 'd', 'r'));
    reveal_strlit("SpeedbrakeForward");
    assert(name_key("SpeedbrakeForward"@) == (17nat, 'S', 'p', 'd', 'r'));
    reveal_strlit("ChinaBackward");
    assert(name_key("ChinaBackward"@) == (13nat, 'C', 'h', 'd', 'r'));
    reveal_strlit("ChinaForward");
    assert(name_key("ChinaForward"@) == (12nat, 'C', 'h', 'd', 'r'));
    reveal_strlit("Apu");
    assert(name_key("Apu"@) == (3nat, 'A', 'p', 'u', 'p'));
    reveal_strlit("RadarAltimeter");
    assert(name_key("RadarAltimeter"@) == (14nat, 'R', 'a', 'r', 'e'));
    reveal_strlit("LandingGearSilence");
    assert(name_key("LandingGearSilence"@) == (18nat, 'L', 'a', 'e', 'c'));
    reveal_strlit("Eac");
    assert(name_key("Eac"@) == (3nat, 'E', 'a', 'c', 'a'));
    reveal_strlit("AutopilotToggle");
    assert(name_key("AutopilotToggle"@) == (15nat, 'A', 'u', 'e', 'l'));
    reveal_strlit("ThrottleButton");
    assert(name_key("ThrottleButton"@) == (14nat, 'T', 'h', 'n', 'o'));
    reveal_strlit("MouseX");
    assert(name_key("MouseX"@) == (6nat, 'M', 'o', 'X', 'e'));
    reveal_strlit("MouseY");
    assert(name_key("MouseY"@) == (6nat, 'M', 'o', 'Y', 'e'));
    reveal_strlit("Mouse");
    assert(name_key("Mouse"@) == (5nat, 'M', 'o', 'e', 's'));
    reveal_strlit("PaddleLeft");
    assert(name_key("PaddleLeft"@) == (10nat, 'P', 'a', 't', 'f'));
    reveal_strlit("PaddleRight");
    assert(name_key("PaddleRight"@) == (11nat, 'P', 'a', 't', 'h'));
    reveal_strlit("PinkyLeft");
    assert(name_key("PinkyLeft"@) == (9nat, 'P', 'i', 't', 'f'));
    reveal_strlit("PinkyRight");
    assert(name_key("PinkyRight"@) == (10nat, 'P', 'i', 't', 'h'));
    reveal_strlit("Context");
    assert(name_key("Context"@) == (7nat, 'C', 'o', 't', 'x'));
    reveal_strlit("Dpi");
    assert(name_key("Dpi"@) == (3nat, 'D', 'p', 'i', 'p'));
    reveal_strlit("ScrollX");
    assert(name_key("ScrollX"@) == (7nat, 'S', 'c', 'X', 'l'));
    reveal_strlit("ScrollY");
    assert(name_key("ScrollY"@) == (7nat, 'S', 'c', 'Y', 'l'));
    reveal_strlit("Scroll");
    assert(name_key("Scroll"@) == (6nat, 'S', 'c', 'l', 'l'));
    reveal_strlit("TrimUp");
    assert(name_key("TrimUp"@) == (6nat, 'T', 'r', 'p', 'U'));
    reveal_strlit("TrimDown");
    assert(name_key("TrimDown"@) == (8nat, 'T', 'r', 'n', 'w'));
    reveal_strlit("TrimLeft");
    assert(name_key("TrimLeft"@) == (8nat, 'T', 'r', 't', 'f'));
    reveal_strlit("TrimRight");
    assert(name_key("TrimRight"@) == (9nat, 'T', 'r', 't', 'h'));
    reveal_strlit("ActionWheelX");
    assert(name_key("ActionWheelX"@) == (12nat, 'A', 'c', 'X', 'l'));
    reveal_strlit("ActionWheelY");
    assert(name_key("ActionWheelY"@) == (12nat, 'A', 'c', 'Y', 'l'));
}

/// Events of distinct kinds have distinct identifiers (numbered buttons
/// aside): two events share an identifier exactly when they are of the
/// same kind, that is when they have the same name.
pub proof fn lemma_ids_distinct_kinds(a: Event, b: Event)
    requires
        !(a is Number),
        !(b is Number),
    ensures
        spec_to_id(a).0 == spec_to_id(b).0 <==> db_name(a) == db_name(b),
{
    lemma_event_codes_are_ids(a);
    lemma_event_codes_are_ids(b);
    lemma_event_codes_distinct(db_name(a), db_name(b));
}

} // verus!
