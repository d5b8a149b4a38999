use timetrackrs::interpreter::{ExecError, Expected};
use timetrackrs::number::{decimal_text, parse_usize};
use timetrackrs::property::{
    decode_property, is_pid_property, property_kind, property_label, DecodeError, PropertyKind,
    RawValue,
};

#[test]
fn kind_follows_type_and_format() {
    assert_eq!(property_kind("UTF8_STRING", 8), PropertyKind::Text);
    assert_eq!(property_kind("STRING", 8), PropertyKind::Text);
    assert_eq!(property_kind("STRING", 32), PropertyKind::Text);
    assert_eq!(property_kind("ATOM", 32), PropertyKind::Atoms);
    assert_eq!(property_kind("ATOM", 8), PropertyKind::Atoms);
    assert_eq!(property_kind("CARDINAL", 32), PropertyKind::Numbers);
    assert_eq!(property_kind("CARDINAL", 16), PropertyKind::Bytes);
    assert_eq!(property_kind("WINDOW", 32), PropertyKind::Numbers);
    assert_eq!(property_kind("WINDOW", 8), PropertyKind::Numbers);
    assert_eq!(property_kind("WM_HINTS", 32), PropertyKind::Bytes);
    assert_eq!(property_kind("", 0), PropertyKind::Bytes);
    assert_eq!(property_kind("string", 8), PropertyKind::Bytes);
}

#[test]
fn text_property_is_decoded_as_utf8() {
    assert_eq!(decode_property("UTF8_STRING", 8, "h\u{e9}llo".as_bytes().to_vec()), Ok(RawValue::Text("h\u{e9}llo".to_string())));
    assert_eq!(decode_property("STRING", 8, vec![]), Ok(RawValue::Text(String::new())));
    assert_eq!(decode_property("STRING", 8, b"a\0b\0".to_vec()), Ok(RawValue::Text("a\0b\0".to_string())));
    assert_eq!(decode_property("STRING", 8, vec![0xff]), Err(DecodeError::NotUtf8));
    assert_eq!(decode_property("UTF8_STRING", 8, vec![0xc3]), Err(DecodeError::NotUtf8));
    assert_eq!(decode_property("UTF8_STRING", 8, vec![0xed, 0xa0, 0x80]), Err(DecodeError::NotUtf8));
    assert_eq!(decode_property("UTF8_STRING", 8, vec![0xc0, 0x80]), Err(DecodeError::NotUtf8));
}

#[test]
fn number_properties_are_decoded_as_words() {
    assert_eq!(decode_property("ATOM", 32, vec![1, 0, 0, 0, 2, 1, 0, 0]), Ok(RawValue::Atoms(vec![1, 258])));
    assert_eq!(decode_property("CARDINAL", 32, vec![0x39, 0x30, 0, 0]), Ok(RawValue::Numbers(vec![12345])));
    assert_eq!(decode_property("WINDOW", 32, vec![]), Ok(RawValue::Numbers(vec![])));
    assert_eq!(decode_property("ATOM", 8, vec![1, 0, 0, 0]), Err(DecodeError::NotWords));
    assert_eq!(decode_property("WINDOW", 16, vec![1, 0, 0, 0]), Err(DecodeError::NotWords));
    assert_eq!(decode_property("ATOM", 32, vec![1, 0, 0]), Err(DecodeError::NotWords));
    assert_eq!(decode_property("CARDINAL", 32, vec![1, 0, 0, 0, 0]), Err(DecodeError::NotWords));
}

#[test]
fn other_properties_are_decoded_as_hex() {
    assert_eq!(decode_property("WM_HINTS", 32, vec![1, 2, 3, 15, 16, 255]), Ok(RawValue::Bytes("0102030f10ff".to_string())));
    assert_eq!(decode_property("CARDINAL", 16, vec![0xab, 0xcd]), Ok(RawValue::Bytes("abcd".to_string())));
    assert_eq!(decode_property("X", 8, vec![]), Ok(RawValue::Bytes(String::new())));
}

#[test]
fn label_joins_type_and_format() {
    assert_eq!(property_label("CARDINAL", 32), "CARDINAL/32");
    assert_eq!(property_label("ATOM", 8), "ATOM/8");
    assert_eq!(property_label("", 0), "/0");
    assert_eq!(property_label("X", 255), "X/255");
}

#[test]
fn pid_property_is_the_cardinal_net_wm_pid() {
    assert!(is_pid_property("_NET_WM_PID", "CARDINAL", 32));
    assert!(!is_pid_property("_NET_WM_PID", "CARDINAL", 8));
    assert!(!is_pid_property("_NET_WM_PID", "ATOM", 32));
    assert!(!is_pid_property("WM_PID", "CARDINAL", 32));
}

#[test]
fn decimal_text_is_what_std_writes() {
    for n in 0..=255u8 {
        assert_eq!(decimal_text(n), n.to_string());
        assert_eq!(parse_usize(&decimal_text(n)), Some(n as usize));
    }
}

#[test]
fn failures_describe_themselves() {
    assert_eq!(
        ExecError::MissingKey { key: "ROWS".to_string() }.message(),
        "Value with Key ROWS does not exist"
    );
    assert_eq!(
        ExecError::ValueTypeMismatch { key: "ROWS".to_string(), expected: Expected::Vector }.message(),
        "The Value attained with Key ROWS is not a Vector"
    );
    assert_eq!(
        ExecError::ValueTypeMismatch { key: "R".to_string(), expected: Expected::Mapping }.message(),
        "The Value attained with Key R is not a Map"
    );
    assert_eq!(ExecError::NoBranchTaken.message(), "Didn't execute anything.");
    assert_eq!(ExecError::Failed { reason: "because".to_string() }.message(), "because");
}
