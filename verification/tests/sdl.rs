use stick::sdl::{sdl_line_of, sdlgc_db};
use stick::sdl_map::{pad_entry, relabel, PadEntry};

const XBOX: &str = "030000005e0400008e02000010010000,Xbox 360 Controller,a:b0,b:b1,leftx:a0,platform:Linux,";

#[test]
fn sdl_line_becomes_database_line() {
    let line = sdl_line_of(XBOX).unwrap().unwrap();
    // The GUID's hexadecimal digits come out in upper case.
    assert_eq!(String::from_utf8(line).unwrap(), "03005E048E0200001001Xbox 360 Controller\tw3002;3303;2020");
}

#[test]
fn sdl_lines_left_out() {
    assert_eq!(sdl_line_of(""), Some(None));
    assert_eq!(sdl_line_of("# a comment"), Some(None));
    // Not a Linux line.
    assert_eq!(
        sdl_line_of("030000005e0400008e02000010010000,Xbox 360 Controller,a:b0,platform:Windows,"),
        Some(None)
    );
    // An emulated joystick: no vendor and product in the GUID.
    assert_eq!(
        sdl_line_of("030000105e0400008e02000010010000,Emulated,a:b0,platform:Linux,"),
        Some(None)
    );
}

#[test]
fn sdl_malformed_lines() {
    // Too short for a GUID.
    assert_eq!(sdl_line_of("0300"), None);
    // An input that the conversion does not know.
    assert_eq!(
        sdl_line_of("030000005e0400008e02000010010000,Pad,a:b200,platform:Linux,"),
        None
    );
}

#[test]
fn sdl_database() {
    let text = format!("# SDL database\n{}\n\n{}\n", XBOX, XBOX.replace("Xbox 360", "Other"));
    let db = sdlgc_db(&text).unwrap();
    assert_eq!(
        String::from_utf8(db).unwrap(),
        "03005E048E0200001001Xbox 360 Controller\tw3002;3303;2020\n03005E048E0200001001Other Controller\tw3002;3303;2020"
    );
    assert_eq!(sdlgc_db("0300\n"), None);
}

#[test]
fn relabel_table() {
    assert_eq!(relabel("a"), Some("ActA"));
    assert_eq!(relabel("lefttrigger"), Some("TriggerL"));
    assert_eq!(relabel("dpdown"), Some("DirDown"));
    assert_eq!(relabel("misc1"), None);
}

#[test]
fn pad_entries() {
    assert!(matches!(pad_entry("b3", "x"), Some(PadEntry::Button { code: 3, event: "ActH" })));
    assert!(matches!(pad_entry("b+7", "a"), Some(PadEntry::Button { code: 7, event: "ActA" })));
    assert!(matches!(pad_entry("a1~", "lefty"), Some(PadEntry::Axis { code: 1, event: "StickVer" })));
    assert!(matches!(pad_entry("a5", "righttrigger"), Some(PadEntry::Trigger { code: 5, event: "TriggerR" })));
    assert!(matches!(
        pad_entry("h0.1", "dpup"),
        Some(PadEntry::ThreeWay { code: 0x11, neg: "DirUp", pos: "" })
    ));
    assert!(matches!(
        pad_entry("h0.2", "dpright"),
        Some(PadEntry::ThreeWay { code: 0x10, neg: "", pos: "DirRight" })
    ));
    assert!(matches!(pad_entry("h0.8", "+leftx"), Some(PadEntry::Axis { code: 0x10, event: "StickHor" })));
    assert!(matches!(pad_entry("+a2", "rightx"), Some(PadEntry::ThreeWay { code: 2, neg: "", pos: "CStickHor" })));
    assert!(matches!(pad_entry("-a2", "rightx"), Some(PadEntry::ThreeWay { code: 2, neg: "CStickHor", pos: "" })));
}

#[test]
fn pad_entries_refused() {
    assert!(pad_entry("b256", "a").is_none());
    assert!(pad_entry("b", "a").is_none());
    assert!(pad_entry("b1", "misc1").is_none());
    assert!(pad_entry("a~", "leftx").is_none());
    assert!(pad_entry("h0.3", "dpup").is_none());
    assert!(pad_entry("h1.1", "dpup").is_none());
    assert!(pad_entry("Mac OS X", "platform").is_none());
}

#[test]
fn sdl_line_with_given_id() {
    use_given_id();
}

fn use_given_id() {
    let line = stick::sdl::sdl_line_with_id(XBOX, b"ID").unwrap().unwrap();
    assert_eq!(String::from_utf8(line).unwrap(), "IDXbox 360 Controller\tw3002;3303;2020");
    // Lines that are left out or malformed do not read the id.
    assert_eq!(stick::sdl::sdl_line_with_id("# comment", b"ID"), Some(None));
    assert_eq!(stick::sdl::sdl_line_with_id("0300", b"ID"), None);
}
