use gilrs::{parse_sdl_mapping, Axis, AxisOrBtn, Button, EvCode, Mapping, MappingDb, MappingError};

const LINE: &str = "030000005e0400008e02000014010000,Xbox Controller,a:b0,b:b1,leftx:a0,platform:Linux,";

fn buttons() -> Vec<EvCode> {
    vec![EvCode::new(1, 0x130), EvCode::new(1, 0x131)]
}

fn axes() -> Vec<EvCode> {
    vec![EvCode::new(3, 0x00)]
}

#[test]
fn parses_sdl_line() {
    let m = parse_sdl_mapping(LINE.as_bytes(), &buttons(), &axes()).ok().unwrap();
    assert!(!m.is_default());
    assert_eq!(m.name(), "Xbox Controller");
    assert_eq!(m.map(&buttons()[0]), Some(AxisOrBtn::Btn(Button::South)));
    assert_eq!(m.map(&buttons()[1]), Some(AxisOrBtn::Btn(Button::East)));
    assert_eq!(m.map(&axes()[0]), Some(AxisOrBtn::Axis(Axis::LeftStickX)));
    assert_eq!(m.map(&EvCode::new(1, 0x200)), None);
}

#[test]
fn parsed_mapping_round_trips() {
    let m = parse_sdl_mapping(LINE.as_bytes(), &buttons(), &axes()).ok().unwrap();
    for c in buttons().iter().chain(axes().iter()) {
        let e = m.map(c).unwrap();
        assert_eq!(m.map_rev(&e), Some(*c));
    }
}

#[test]
fn code_beyond_device_is_rejected() {
    let r = parse_sdl_mapping(b"00,Pad,a:b5,", &buttons(), &axes());
    assert_eq!(r.err(), Some(MappingError::InvalidCode));
}

#[test]
fn code_claimed_twice_is_rejected() {
    let r = parse_sdl_mapping(b"00,Pad,a:b0,lefttrigger:b0,", &buttons(), &axes());
    assert_eq!(r.err(), Some(MappingError::DuplicatedEntry));
}

#[test]
fn malformed_lines_are_rejected() {
    assert_eq!(parse_sdl_mapping(b"00", &buttons(), &axes()).err(), Some(MappingError::ParseError));
    assert_eq!(
        parse_sdl_mapping(b"00,Pad,a-b0", &buttons(), &axes()).err(),
        Some(MappingError::ParseError)
    );
}

#[test]
fn unknown_element_is_rejected() {
    let r = Mapping::from_entries(
        vec![(EvCode::new(1, 0x130), AxisOrBtn::Btn(Button::Unknown))],
        String::from("x"),
    );
    assert_eq!(r.err(), Some(MappingError::UnknownElement));
}

#[test]
fn default_mapping_is_common_layout() {
    let m = Mapping::default_mapping();
    assert!(m.is_default());
    assert_eq!(m.map(&EvCode::new(1, 0x130)), Some(AxisOrBtn::Btn(Button::South)));
    assert_eq!(m.map(&EvCode::new(3, 0x01)), Some(AxisOrBtn::Axis(Axis::LeftStickY)));
    assert_eq!(m.map_rev(&AxisOrBtn::Btn(Button::DPadUp)), Some(EvCode::new(1, 0x220)));
    assert_eq!(m.map_rev(&AxisOrBtn::Btn(Button::Unknown)), None);
}

#[test]
fn database_finds_line_by_uuid() {
    let mut db = MappingDb::new();
    let text = format!("{}\n\n0300000000000000000000000000ffff,Other,a:b1,\n", LINE);
    db.insert(text.as_bytes());
    let uuid = [
        0x03, 0x00, 0x00, 0x00, 0x5e, 0x04, 0x00, 0x00, 0x8e, 0x02, 0x00, 0x00, 0x14, 0x01, 0x00,
        0x00,
    ];
    let line = db.get(uuid).unwrap();
    assert_eq!(line.as_slice(), LINE.as_bytes());
    let other = [0x03, 0, 0, 0, 0, 0, 0, 0, 0, 0, 0, 0, 0, 0, 0xff, 0xff];
    assert!(db.get(other).unwrap().starts_with(b"0300000000000000000000000000ffff,Other"));
    assert!(db.get([0u8; 16]).is_none());
}

#[test]
fn later_database_line_wins() {
    let mut db = MappingDb::new();
    db.insert(b"000000000000000000000000000000ab,First,a:b0,\n000000000000000000000000000000ab,Second,a:b0,");
    let mut uuid = [0u8; 16];
    uuid[15] = 0xab;
    assert!(db.get(uuid).unwrap().ends_with(b"Second,a:b0,"));
}
