use face_authd::controls::{
    control_flags_text, control_name_from_bytes, control_type_name, control_value_text,
    enumeration_ends, eq_ignore_ascii_case, find_control, is_readable_control_type,
    normalize_control_name, parse_settable_value, settable_control, ControlError, RawDeviceControl,
};

fn control(id: u32, name: &str, typ: u32) -> RawDeviceControl {
    RawDeviceControl {
        id,
        name: name.to_string(),
        typ,
        typ_name: control_type_name(typ),
        minimum: 0,
        maximum: 255,
        step: 1,
        default: 0,
        flags_text: "none".to_string(),
        current: None,
    }
}

#[test]
fn type_names() {
    let names: Vec<String> = (0..=10).map(control_type_name).collect();
    assert_eq!(
        names,
        vec![
            "Unknown", "Integer", "Boolean", "Menu", "Button", "Integer64", "CtrlClass", "String",
            "Bitmask", "IntegerMenu", "Unknown"
        ]
    );
}

#[test]
fn flags_text() {
    assert_eq!(control_flags_text(0), "none");
    assert_eq!(control_flags_text(0x0001), "disabled");
    assert_eq!(control_flags_text(0x0004 | 0x0040), "read-only|write-only");
    assert_eq!(
        control_flags_text(0xFF),
        "disabled|grabbed|read-only|update|inactive|slider|write-only|volatile"
    );
    assert_eq!(control_flags_text(0x100), "none");
}

#[test]
fn normalized_names() {
    assert_eq!(normalize_control_name("Exposure, Auto"), "exposureauto");
    assert_eq!(normalize_control_name("white_balance_temperature"), "whitebalancetemperature");
    assert_eq!(normalize_control_name("Ünïcode 1"), "ncode1");
    assert!(eq_ignore_ascii_case("Brightness", "bRIGHTNESS"));
    assert!(!eq_ignore_ascii_case("Brightness", "Brightnes"));
    assert!(!eq_ignore_ascii_case("É", "é"));
}

#[test]
fn finding_controls() {
    let controls = vec![control(1, "Brightness", 1), control(2, "Exposure, Auto", 3), control(3, "exposure auto", 1)];
    assert_eq!(find_control(&controls, "BRIGHTNESS"), Some(0));
    assert_eq!(find_control(&controls, "exposure_auto"), Some(1));
    assert_eq!(find_control(&controls, "gain"), None);
}

#[test]
fn settable_values() {
    let b = control(9, "Privacy", 2);
    for w in ["1", "TRUE", "Yes", "on"] {
        assert_eq!(parse_settable_value(&b, w), Ok(1));
    }
    for w in ["0", "False", "NO", "off"] {
        assert_eq!(parse_settable_value(&b, w), Ok(0));
    }
    let e = parse_settable_value(&b, "maybe").unwrap_err();
    assert_eq!(e, ControlError::InvalidBoolean { value: "maybe".to_string() });
    assert_eq!(e.message(), "invalid boolean value 'maybe'");

    let i = control(1, "Gain", 1);
    assert_eq!(parse_settable_value(&i, "-42"), Ok(-42));
    assert_eq!(parse_settable_value(&i, "+7"), Ok(7));
    assert_eq!(parse_settable_value(&i, "9223372036854775807"), Ok(i64::MAX));
    assert_eq!(parse_settable_value(&i, "-9223372036854775808"), Ok(i64::MIN));
    for bad in ["9223372036854775808", "", "-", "+", "1.5", " 3", "0x10"] {
        let e = parse_settable_value(&i, bad).unwrap_err();
        assert_eq!(e, ControlError::InvalidInteger { value: bad.to_string() });
    }
    assert_eq!(
        parse_settable_value(&i, "abc").unwrap_err().message(),
        "invalid integer value 'abc'"
    );
    let i64c = control(5, "Pan", 5);
    assert_eq!(
        parse_settable_value(&i64c, "1").unwrap_err().message(),
        "control 'Pan' is INTEGER64; raw setter currently supports only values representable through VIDIOC_S_CTRL"
    );
    let s = control(7, "Label", 7);
    assert_eq!(
        parse_settable_value(&s, "1").unwrap_err().message(),
        "control 'Label' has unsupported settable type String"
    );
}

#[test]
fn settable_control_lookup() {
    let controls = vec![control(10, "Brightness", 1), control(11, "Auto Exposure", 2)];
    assert_eq!(settable_control(&controls, "auto_exposure", "on"), Ok((11, 1)));
    assert_eq!(settable_control(&controls, "brightness", "4294967297"), Ok((10, 1)));
    let e = settable_control(&controls, "zoom", "1").unwrap_err();
    assert_eq!(e.message(), "control 'zoom' was not found");
}

#[test]
fn current_values() {
    assert!(is_readable_control_type(1));
    assert!(is_readable_control_type(2));
    assert!(is_readable_control_type(3));
    assert!(is_readable_control_type(4));
    assert!(is_readable_control_type(8));
    assert!(!is_readable_control_type(5));
    assert!(!is_readable_control_type(7));
    assert_eq!(control_value_text(2, 5), "true");
    assert_eq!(control_value_text(2, 0), "false");
    assert_eq!(control_value_text(1, -2147483648), "-2147483648");
    assert_eq!(control_value_text(3, 12), "12");
}

#[test]
fn shown_values_set_back() {
    let i = control(1, "Gain", 1);
    for v in [i32::MIN, -1, 0, 1, i32::MAX] {
        assert_eq!(parse_settable_value(&i, &control_value_text(1, v)), Ok(v as i64));
    }
    let b = control(2, "Privacy", 2);
    assert_eq!(parse_settable_value(&b, &control_value_text(2, 3)), Ok(1));
    assert_eq!(parse_settable_value(&b, &control_value_text(2, 0)), Ok(0));
}

#[test]
fn names_from_driver_bytes() {
    let mut raw = [0u8; 32];
    raw[..13].copy_from_slice(b" Brightness  ");
    assert_eq!(control_name_from_bytes(&raw), "Brightness");
    assert_eq!(control_name_from_bytes(b"Gain"), "Gain");
    assert_eq!(control_name_from_bytes(&[0x47, 0xFF, 0x00, 0x41]), "G\u{FFFD}");
}

#[test]
fn enumeration_end() {
    assert!(enumeration_ends(3, true));
    assert!(!enumeration_ends(0, true));
    assert!(!enumeration_ends(3, false));
}
