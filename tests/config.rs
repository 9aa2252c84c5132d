use r_menu::config::{join_possible, ConfigColor, ConfigItem, ConfigString, ConfigValueError, WindowPosition};

fn possible_of(e: ConfigValueError) -> (bool, Vec<&'static str>) {
    match e {
        ConfigValueError::InvalidType { possible_types } => (true, possible_types),
        ConfigValueError::InvalidValue { possible } => (false, possible),
    }
}

#[test]
fn join_lists_with_or_before_the_last() {
    assert_eq!(join_possible(&["a", "b", "c"]), "a,b or c");
    assert_eq!(join_possible(&["top", "bottom"]), "top or bottom");
    assert_eq!(join_possible(&["String"]), "String");
    assert_eq!(join_possible(&[]), "");
}

#[test]
fn join_replaces_a_comma_inside_the_last_part() {
    assert_eq!(join_possible(&["[decimal, decimal]"]), "[decimal or  decimal]");
}

#[test]
fn error_messages() {
    let e = ConfigValueError::InvalidType { possible_types: vec!["Vec<u8>", "u32"] };
    assert_eq!(e.message(), "Expected any of this types Vec<u8> or u32");
    let e = ConfigValueError::InvalidValue { possible: vec!["top", "bottom"] };
    assert_eq!(e.message(), "Value should be top or bottom");
}

#[test]
fn window_position_in_any_case() {
    assert_eq!(WindowPosition::from_item(ConfigItem::Str("TOP".to_string())).unwrap(), WindowPosition::Top);
    assert_eq!(
        WindowPosition::from_item(ConfigItem::Str("bottom".to_string())).unwrap(),
        WindowPosition::Bottom
    );
}

#[test]
fn window_position_rejects_other_values() {
    let e = WindowPosition::from_item(ConfigItem::Str("left".to_string())).unwrap_err();
    assert_eq!(possible_of(e), (false, vec!["top", "bottom"]));
    let e = WindowPosition::from_item(ConfigItem::Integer(1)).unwrap_err();
    assert_eq!(possible_of(e), (true, vec!["String"]));
}

#[test]
fn color_from_integer() {
    let c = ConfigColor::from_item(ConfigItem::Integer(0x11_22_33)).unwrap();
    assert_eq!(c, ConfigColor::new(0x11, 0x22, 0x33));
    let c = ConfigColor::from_item(ConfigItem::Integer(-1)).unwrap();
    assert_eq!(c, ConfigColor::new(255, 255, 255));
}

#[test]
fn color_from_array_takes_low_bytes() {
    let items = vec![ConfigItem::Integer(1), ConfigItem::Integer(258), ConfigItem::Integer(-1)];
    let c = ConfigColor::from_item(ConfigItem::Array(items)).unwrap();
    assert_eq!(c, ConfigColor::new(1, 2, 255));
}

#[test]
fn color_rejects_bad_arrays() {
    let short = vec![ConfigItem::Integer(1), ConfigItem::Integer(2)];
    let e = ConfigColor::from_item(ConfigItem::Array(short)).unwrap_err();
    assert_eq!(possible_of(e), (false, vec!["[integer, integer, integer]"]));
    let mixed = vec![ConfigItem::Integer(1), ConfigItem::Str("2".to_string()), ConfigItem::Integer(3)];
    let e = ConfigColor::from_item(ConfigItem::Array(mixed)).unwrap_err();
    assert_eq!(possible_of(e), (false, vec!["[integer, integer, integer]"]));
}

#[test]
fn color_rejects_other_types() {
    let e = ConfigColor::from_item(ConfigItem::Other).unwrap_err();
    assert_eq!(possible_of(e), (true, vec!["Vec<u8>", "u32"]));
}

#[test]
fn string_setting() {
    let s = ConfigString::from_item(ConfigItem::Str("/fonts/a.ttf".to_string())).unwrap();
    assert_eq!(s.as_str(), "/fonts/a.ttf");
    let e = ConfigString::from_item(ConfigItem::Integer(3)).unwrap_err();
    assert_eq!(possible_of(e), (true, vec!["String"]));
}

#[test]
fn window_position_from_lowercased_name() {
    assert_eq!(WindowPosition::from_folded("top").unwrap(), WindowPosition::Top);
    assert_eq!(WindowPosition::from_folded("bottom").unwrap(), WindowPosition::Bottom);
    let e = WindowPosition::from_folded("TOP").unwrap_err();
    assert_eq!(possible_of(e), (false, vec!["top", "bottom"]));
}
