use stick::remap::Remap;
use stick::sdb::{name_code, name_to_hex, remap_db, str_eq, ControllerFile, Target, Tweaks};

fn xbox_file() -> ControllerFile {
    ControllerFile {
        file_name: "0003045E028E0110.toml".to_string(),
        name: "Xbox Pad".to_string(),
        type_: "xbox".to_string(),
        remap: vec![
            ("ActionA".to_string(), Target::Event("ActionB".to_string())),
            (
                "3".to_string(),
                Target::Table(Tweaks {
                    event: Some("JoyX".to_string()),
                    max: None,
                    min: None,
                    scale: Some("2".to_string()),
                    deadzone: Some("0.1".to_string()),
                }),
            ),
        ],
    }
}

#[test]
fn event_names_and_codes() {
    assert_eq!(name_code("None"), Some(0));
    assert_eq!(name_code("ActionA"), Some(2));
    assert_eq!(name_code("JoyX"), Some(0x20));
    assert_eq!(name_code("ActionWheelY"), Some(0x5F));
    assert_eq!(name_code("Nothing"), None);
    assert_eq!(name_to_hex("ActionA"), "02");
    assert_eq!(name_to_hex("PovLeft"), "1E");
    assert_eq!(name_to_hex("ScrollX"), "57");
    assert!(str_eq("JoyX", "JoyX"));
    assert!(!str_eq("JoyX", "JoyY"));
}

#[test]
fn controller_file_line() {
    let db = remap_db(&vec![xbox_file()]);
    // Remappings come ordered by key, numbers before names.
    assert_eq!(String::from_utf8(db).unwrap(), "0003045E028E0110Xbox Pad\tx8320s2d0.1;0203");
}

#[test]
fn controller_files_are_separated_by_newlines() {
    let other = ControllerFile {
        file_name: "000000000000ABCD".to_string(),
        name: "Stick".to_string(),
        type_: "flight".to_string(),
        remap: vec![
            ("Trigger".to_string(), Target::Event("ActionA".to_string())),
            (
                "128".to_string(),
                Target::Table(Tweaks { event: None, max: Some(255), min: Some(-3), scale: None, deadzone: None }),
            ),
        ],
    };
    let db = remap_db(&vec![xbox_file(), other]);
    assert_eq!(
        String::from_utf8(db).unwrap(),
        "0003045E028E0110Xbox Pad\tx8320s2d0.1;0203\n000000000000ABCDStick\tf8000a255i-3;3002"
    );
}

#[test]
fn written_database_loads_back() {
    let db = String::from_utf8(remap_db(&vec![xbox_file()])).unwrap();
    let remap = Remap::new().load(&db).unwrap();
    let info = remap.info(0x0003045E028E0110).unwrap();
    assert_eq!(info.name(), "Xbox Pad");
    assert_eq!(info.type_(), b'x');
    let a = info.mapping(0x02).unwrap();
    assert_eq!(a.out, 0x03);
    assert_eq!(a.deadzone, None);
    let joy = info.mapping(0x83).unwrap();
    assert_eq!(joy.out, 0x20);
    assert_eq!(joy.deadzone.as_deref(), Some("0.1"));
    assert_eq!(joy.scale.as_deref(), Some("2"));
    assert_eq!(joy.unsigned, 0);
    assert!(info.mapping(0x03).is_none());
    assert!(remap.info(0x1234).is_none());
}

#[test]
fn load_reads_every_line() {
    let text = "0000000000000001One\tg0102u300;0304\r\n0000000000000002Two\tw0506\n0000000000000001Uno\tx0708";
    let remap = Remap::new().load(text).unwrap();
    // A later line replaces an earlier one for the same model.
    let one = remap.info(1).unwrap();
    assert_eq!(one.name(), "Uno");
    assert_eq!(one.type_(), b'x');
    assert_eq!(one.mapping(0x07).unwrap().out, 0x08);
    assert!(one.mapping(0x01).is_none());
    let two = remap.info(2).unwrap();
    assert_eq!(two.name(), "Two");
    assert_eq!(two.mapping(0x05).unwrap().out, 0x06);
}

#[test]
fn load_keeps_unsigned_tweak() {
    let remap = Remap::default().load("0000000000000001One\tg0102u300;0304").unwrap();
    let one = remap.info(1).unwrap();
    assert_eq!(one.mapping(0x01).unwrap().unsigned, 300);
    assert_eq!(one.mapping(0x03).unwrap().unsigned, 0);
}

#[test]
fn malformed_lines_are_refused() {
    // No tab after the name.
    assert!(Remap::new().load("0000000000000001One").is_none());
    // An identifier that is not hexadecimal.
    assert!(Remap::new().load("000000000000000GOne\tw0102").is_none());
    // An unknown tweak.
    assert!(Remap::new().load("0000000000000001One\tw0102q1").is_none());
    // A deadzone that is not a number.
    assert!(Remap::new().load("0000000000000001One\tw0102d.").is_none());
}

#[test]
fn empty_database_knows_nothing() {
    let remap = Remap::new().load("").unwrap();
    assert!(remap.info(0).is_none());
}

fn table(event: Option<&str>, max: Option<i64>, deadzone: Option<&str>) -> Target {
    Target::Table(Tweaks {
        event: event.map(|e| e.to_string()),
        max,
        min: None,
        scale: None,
        deadzone: deadzone.map(|d| d.to_string()),
    })
}

#[test]
fn documented_controller_file() {
    let file = ControllerFile {
        file_name: "0000000000000001.toml".to_string(),
        name: "My Controller Name".to_string(),
        type_: "xbox".to_string(),
        remap: vec![
            ("TriggerR".to_string(), table(None, None, None)),
            ("TriggerL".to_string(), table(None, None, None)),
            ("HatUp".to_string(), Target::Event("Up".to_string())),
            ("HatDown".to_string(), Target::Event("Down".to_string())),
            ("HatLeft".to_string(), Target::Event("Left".to_string())),
            ("HatRight".to_string(), Target::Event("Right".to_string())),
            ("CamX".to_string(), table(Some("CamX"), None, Some("0.075"))),
            ("CamY".to_string(), table(Some("CamY"), None, Some("0.075"))),
            ("JoyZ".to_string(), table(Some("TriggerR"), Some(1024), None)),
            ("CamZ".to_string(), table(Some("TriggerL"), Some(1024), None)),
        ],
    };
    assert!(stick::sdb::controller_file_ok(&file));
    let db = String::from_utf8(remap_db(&vec![file])).unwrap();
    assert_eq!(
        db,
        "0000000000000001My Controller Name\tx2323d0.075;2424d0.075;250Ea1024;1511;1612;1713;1410;220Fa1024;0E00;0F00"
    );
    // The range tweaks read back with their values.
    let remap = Remap::new().load(&db).unwrap();
    let info = remap.info(1).unwrap();
    let joyz = info.mapping(0x22).unwrap();
    assert_eq!(joyz.out, 0x0F);
    assert_eq!(joyz.max, Some(1024));
    assert_eq!(joyz.min, None);
    let camx = info.mapping(0x23).unwrap();
    assert_eq!(camx.deadzone.as_deref(), Some("0.075"));
    assert_eq!(camx.max, None);
}

#[test]
fn range_tweaks_read_signed_values() {
    let remap = Remap::new()
        .load("0000000000000002Pad\tx220Fa1024i-1024;2324a+7;2424i-9223372036854775808")
        .unwrap();
    let info = remap.info(2).unwrap();
    assert_eq!(info.mapping(0x22).unwrap().max, Some(1024));
    assert_eq!(info.mapping(0x22).unwrap().min, Some(-1024));
    assert_eq!(info.mapping(0x23).unwrap().max, Some(7));
    assert_eq!(info.mapping(0x24).unwrap().min, Some(i64::MIN));
    assert!(Remap::new().load("0000000000000002Pad\tx220Fa").is_none());
    assert!(Remap::new().load("0000000000000002Pad\tx220Fa-+1").is_none());
    assert!(Remap::new().load("0000000000000002Pad\tx220Fi9223372036854775808").is_none());
}

#[test]
fn controller_files_that_cannot_be_written() {
    let mut file = xbox_file();
    file.type_ = "keyboard".to_string();
    assert!(!stick::sdb::controller_file_ok(&file));
    let mut file = xbox_file();
    file.file_name = "short.toml".to_string();
    assert!(!stick::sdb::controller_file_ok(&file));
    let mut file = xbox_file();
    file.remap.push(("Nothing".to_string(), Target::Event("ActionA".to_string())));
    assert!(!stick::sdb::controller_file_ok(&file));
    let mut file = xbox_file();
    file.remap.push(("300".to_string(), Target::Event("ActionA".to_string())));
    assert!(!stick::sdb::controller_file_ok(&file));
    assert!(stick::sdb::controller_file_ok(&xbox_file()));
}

#[test]
fn try_load_refuses_cut_characters() {
    // The identifier's 16 bytes end inside a character.
    assert!(Remap::new().try_load("000000000000000\u{e9}One\tw0102").is_none());
    // A malformed line stops the reading before a later line is cut.
    assert!(matches!(Remap::new().try_load("000000000000000GOne\tw0102\n000000000000000\u{e9}"), Some(None)));
    let loaded = Remap::new().try_load("0000000000000001One\tw0102").unwrap().unwrap();
    assert_eq!(loaded.info(1).unwrap().name(), "One");
}

#[test]
fn later_line_for_a_model_wins_and_others_stay() {
    let first = Remap::new().load("0000000000000003Keep\tw0102").unwrap();
    let remap = first
        .load("0000000000000004Old\tw0102\n0000000000000004New\tx0304")
        .unwrap();
    assert_eq!(remap.info(3).unwrap().name(), "Keep");
    let four = remap.info(4).unwrap();
    assert_eq!(four.name(), "New");
    assert_eq!(four.type_(), b'x');
    assert!(four.mapping(0x01).is_none());
    assert_eq!(four.mapping(0x03).unwrap().out, 0x04);
}

#[test]
fn database_names_code_event_identifiers() {
    let half = 0x3FE0_0000_0000_0000u64;
    let cases = [
        ("None", stick::event::Event::Disconnect),
        ("ActionH", stick::event::Event::ActionH(true)),
        ("TriggerR", stick::event::Event::TriggerR(half)),
        ("PovLeft", stick::event::Event::PovLeft(false)),
        ("ScrollX", stick::event::Event::ScrollX(half)),
        ("ActionWheelY", stick::event::Event::ActionWheelY(half)),
    ];
    for (name, event) in cases {
        let code = u8::from_str_radix(&name_to_hex(name), 16).unwrap();
        assert_eq!(code, event.to_id().0);
    }
}
