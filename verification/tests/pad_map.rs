use stick::pad_map::{merge_pad, pad_mapping, sdl_pad, MapError, SdlPad};

const PAD: &str = "030000005e0400008e02000010010000,Xbox Pad,a:b0,b:b1,x:b2,leftx:a0,lefttrigger:a2,dpup:h0.1,dpdown:h0.4,righty:+a4,righty:-a4,platform:Linux,";

fn pairs(p: &SdlPad) -> Vec<(&str, &str)> {
    p.mappings.iter().map(|(k, v)| (k.as_str(), v.as_str())).collect()
}

#[test]
fn line_gives_model() {
    let p = sdl_pad(PAD).unwrap().unwrap();
    assert_eq!(p.id, 0x0300_5E04_8E02_1001);
    assert_eq!(p.name, "Xbox Pad");
    assert_eq!(
        pairs(&p),
        vec![
            ("b0", "a"),
            ("b1", "b"),
            ("b2", "x"),
            ("a0", "leftx"),
            ("a2", "lefttrigger"),
            ("h0.1", "dpup"),
            ("h0.4", "dpdown"),
            ("+a4", "righty"),
            ("-a4", "righty"),
        ]
    );
}

#[test]
fn later_mapping_of_an_input_wins() {
    let p = sdl_pad("030000005e0400008e02000010010000,Pad,a:b0,b:b0,platform:Mac OS X,").unwrap().unwrap();
    assert_eq!(pairs(&p), vec![("b0", "b")]);
}

#[test]
fn lines_left_out() {
    assert!(matches!(sdl_pad(""), Ok(None)));
    assert!(matches!(sdl_pad("# comment"), Ok(None)));
    assert!(matches!(sdl_pad("030000005e0400008e02000010010000,Pad,a:b0,platform:Windows,"), Ok(None)));
    assert!(matches!(sdl_pad("xinput,XInput Controller,a:b0,platform:Linux,"), Ok(None)));
    assert!(matches!(sdl_pad("030000105e0400008e02000010010000,Pad,a:b0,platform:Linux,"), Ok(None)));
    // The last field is never read as a mapping.
    assert!(matches!(sdl_pad("030000005e0400008e02000010010000,Pad,a:b0,platform:Linux"), Ok(None)));
}

#[test]
fn malformed_lines() {
    assert!(matches!(sdl_pad("030000005e0400008e02000010010000"), Err(MapError::MissingName)));
    assert!(matches!(sdl_pad("030000005e0400008e02000010010000,Pad,a,platform:Linux,"), Err(MapError::MissingValue)));
    assert!(matches!(sdl_pad("030000005e0400008e020000100100001,Pad,a:b0,platform:Linux,"), Err(MapError::GuidLength)));
    assert!(matches!(sdl_pad("0300000g5e0400008e02000010010000,Pad,a:b0,platform:Linux,"), Ok(None)));
    assert!(matches!(sdl_pad("0z000000zz040000zz020000zz010000,Pad,a:b0,platform:Linux,"), Err(MapError::GuidNotHex)));
}

#[test]
fn models_merge_across_lines() {
    let mut pads = Vec::new();
    let first = sdl_pad("030000005e0400008e02000010010000,Pad,a:b0,platform:Linux,").unwrap().unwrap();
    assert_eq!(merge_pad(&mut pads, first), Ok(false));
    let second = sdl_pad("030000005e0400008e02000010010000,Pad,a:b0,b:b1,platform:Mac OS X,").unwrap().unwrap();
    assert_eq!(merge_pad(&mut pads, second), Ok(true));
    assert_eq!(pads.len(), 1);
    assert_eq!(pairs(&pads[0]), vec![("b0", "a"), ("b1", "b")]);
    let renamed = sdl_pad("030000005e0400008e02000010010000,Other,a:b0,platform:Linux,").unwrap().unwrap();
    assert_eq!(merge_pad(&mut pads, renamed), Err(MapError::NameMismatch));
    let remapped = sdl_pad("030000005e0400008e02000010010000,Pad,x:b0,platform:Linux,").unwrap().unwrap();
    assert_eq!(merge_pad(&mut pads, remapped), Err(MapError::MappingMismatch));
    assert_eq!(pairs(&pads[0]), vec![("b0", "a"), ("b1", "b")]);
    let other = sdl_pad("030000006d0400001dc2000014400000,Stick,a:b0,platform:Linux,").unwrap().unwrap();
    assert_eq!(merge_pad(&mut pads, other), Ok(false));
    assert_eq!(pads.len(), 2);
}

#[test]
fn model_becomes_mapping_file() {
    let p = sdl_pad(PAD).unwrap().unwrap();
    let m = pad_mapping(&p).unwrap();
    assert_eq!(m.name, "Xbox Pad");
    assert_eq!(m.type_, "Unknown");
    assert_eq!(m.button, vec![(0, "ActA"), (1, "ActB"), (2, "ActH")]);
    assert_eq!(m.axis, vec![(0, "StickHor")]);
    assert_eq!(m.trigger, vec![(2, "TriggerL")]);
    // Halves of a switch are joined by code, the last first.
    assert_eq!(m.three_way, vec![(4, "CStickVer", "CStickVer"), (0x11, "DirUp", "DirDown")]);
}

#[test]
fn nes_type_and_axis_join() {
    let line = "030000005e0400008e02000010010000,NES Pad,a:b0,leftx:a0,leftx:a0~,type:nes,platform:Linux,";
    let p = sdl_pad(line).unwrap().unwrap();
    let m = pad_mapping(&p).unwrap();
    assert_eq!(m.type_, "NES");
    assert_eq!(m.axis, vec![(0, "StickHor")]);
    let clash = "030000005e0400008e02000010010000,Pad,leftx:a0,leftx:a1,platform:Linux,";
    let p = sdl_pad(clash).unwrap().unwrap();
    assert!(matches!(pad_mapping(&p), Err(MapError::AxisCodeMismatch)));
    let twice = "030000005e0400008e02000010010000,Pad,dpup:h0.1,dpleft:-a17,platform:Linux,";
    let p = sdl_pad(twice).unwrap().unwrap();
    assert!(matches!(pad_mapping(&p), Err(MapError::SwitchSideTwice)));
    let unknown = "030000005e0400008e02000010010000,Pad,misc1:b5,platform:Linux,";
    let p = sdl_pad(unknown).unwrap().unwrap();
    assert!(matches!(pad_mapping(&p), Err(MapError::UnknownMapping)));
}
