use pact_protobuf::descriptor::{
    DefaultValue, DescriptorProto, EnumDescriptorProto, EnumValueDescriptorProto,
    FieldDescriptorProto,
};
use pact_protobuf::escape::unescape;
use pact_protobuf::field::{ProtobufField, ProtobufFieldData};
use pact_protobuf::text::as_hex;
use pact_protobuf::wire::WireType;

fn colours() -> EnumDescriptorProto {
    EnumDescriptorProto {
        name: Some("Colour".to_string()),
        value: vec![
            EnumValueDescriptorProto { name: Some("RED".to_string()), number: Some(0) },
            EnumValueDescriptorProto { name: None, number: Some(1) },
            EnumValueDescriptorProto { name: Some("LOST".to_string()), number: None },
            EnumValueDescriptorProto { name: Some("GREEN".to_string()), number: Some(2) },
            EnumValueDescriptorProto { name: Some("VERT".to_string()), number: Some(2) },
        ],
        encoded: vec![],
    }
}

fn descriptor(name: Option<&str>) -> DescriptorProto {
    DescriptorProto {
        name: name.map(|name| name.to_string()),
        field: vec![],
        nested_type: vec![],
        enum_type: vec![],
        encoded: vec![],
    }
}

fn defaulted(text: &str) -> FieldDescriptorProto {
    FieldDescriptorProto {
        name: None,
        number: Some(1),
        field_type: None,
        named_type: None,
        default_value: Some(DefaultValue { text: text.to_string(), float: None, double: None }),
        encoded: vec![],
    }
}

#[test]
fn texts_of_field_data() {
    let text = |data: ProtobufFieldData| data.display("<float>");
    assert_eq!(text(ProtobufFieldData::String("a \"b\"".to_string())), "\"a \"b\"\"");
    assert_eq!(text(ProtobufFieldData::Boolean(true)), "true");
    assert_eq!(text(ProtobufFieldData::Boolean(false)), "false");
    assert_eq!(text(ProtobufFieldData::UInteger32(0)), "0");
    assert_eq!(text(ProtobufFieldData::UInteger32(u32::MAX)), "4294967295");
    assert_eq!(text(ProtobufFieldData::Integer32(-2147483648)), "-2147483648");
    assert_eq!(text(ProtobufFieldData::UInteger64(u64::MAX)), "18446744073709551615");
    assert_eq!(text(ProtobufFieldData::Integer64(i64::MIN)), "-9223372036854775808");
    assert_eq!(text(ProtobufFieldData::Integer64(1001)), "1001");
    assert_eq!(text(ProtobufFieldData::Float(1)), "<float>");
    assert_eq!(text(ProtobufFieldData::Double(1)), "<float>");
    assert_eq!(text(ProtobufFieldData::Message(vec![1], descriptor(Some("Test")))), "Test");
    assert_eq!(text(ProtobufFieldData::Message(vec![1], descriptor(None))), "unknown");
}

#[test]
fn texts_of_bytes_are_cut_off_after_sixteen() {
    let short: Vec<u8> = (0..16).collect();
    let long: Vec<u8> = (0..17).collect();
    let hex = "000102030405060708090a0b0c0d0e0f";
    assert_eq!(ProtobufFieldData::Bytes(short.clone()).display(""), hex);
    assert_eq!(ProtobufFieldData::Unknown(short).display(""), hex);
    let cut_off = format!("{}... (17 bytes)", hex);
    assert_eq!(ProtobufFieldData::Bytes(long.clone()).display(""), cut_off);
    assert_eq!(ProtobufFieldData::Unknown(long).display(""), cut_off);
}

#[test]
fn texts_of_enum_values() {
    let text = |number: i32| ProtobufFieldData::Enum(number, colours()).display("");
    assert_eq!(text(0), "RED");
    assert_eq!(text(1), "");
    assert_eq!(text(2), "GREEN");
    assert_eq!(text(3), "unknown");
    assert_eq!(ProtobufFieldData::Enum(2, colours()).as_bytes(), b"GREEN".to_vec());
}

#[test]
fn text_of_a_field() {
    let field = ProtobufField {
        field_num: 12,
        wire_type: WireType::LengthDelimited,
        data: ProtobufFieldData::String("abc".to_string()),
    };
    assert_eq!(field.display(""), "12:(LengthDelimited, String) = \"abc\"");
}

#[test]
fn names_of_kinds() {
    let kinds = [
        (ProtobufFieldData::String(String::new()), "String"),
        (ProtobufFieldData::Boolean(true), "Boolean"),
        (ProtobufFieldData::UInteger32(0), "UInteger32"),
        (ProtobufFieldData::Integer32(0), "Integer32"),
        (ProtobufFieldData::UInteger64(0), "UInteger64"),
        (ProtobufFieldData::Integer64(0), "Integer64"),
        (ProtobufFieldData::Float(0), "Float"),
        (ProtobufFieldData::Double(0), "Double"),
        (ProtobufFieldData::Bytes(vec![]), "Bytes"),
        (ProtobufFieldData::Enum(0, colours()), "Enum"),
        (ProtobufFieldData::Message(vec![], descriptor(None)), "Message"),
        (ProtobufFieldData::Unknown(vec![]), "Unknown"),
    ];
    for (data, name) in kinds {
        assert_eq!(data.data_type_name(), name);
        assert_eq!(data.default_field_value(&defaulted("1")).data_type_name(), name);
    }
}

#[test]
fn bytes_of_field_data() {
    assert_eq!(
        ProtobufFieldData::String("\u{e9}".to_string()).as_bytes(),
        vec![0xc3, 0xa9]
    );
    assert_eq!(ProtobufFieldData::Boolean(true).as_bytes(), vec![1]);
    assert_eq!(ProtobufFieldData::Boolean(false).as_bytes(), vec![0]);
    assert_eq!(ProtobufFieldData::UInteger32(0x01020304).as_bytes(), vec![4, 3, 2, 1]);
    assert_eq!(ProtobufFieldData::Integer32(-2).as_bytes(), vec![254, 255, 255, 255]);
    assert_eq!(
        ProtobufFieldData::UInteger64(0x0102030405060708).as_bytes(),
        vec![8, 7, 6, 5, 4, 3, 2, 1]
    );
    assert_eq!(ProtobufFieldData::Integer64(-1).as_bytes(), vec![255; 8]);
    assert_eq!(
        ProtobufFieldData::Float(12.34f32.to_bits()).as_bytes(),
        12.34f32.to_le_bytes().to_vec()
    );
    assert_eq!(
        ProtobufFieldData::Double(12.34f64.to_bits()).as_bytes(),
        12.34f64.to_le_bytes().to_vec()
    );
    assert_eq!(ProtobufFieldData::Bytes(vec![1, 2]).as_bytes(), vec![1, 2]);
    assert_eq!(ProtobufFieldData::Message(vec![3], descriptor(None)).as_bytes(), vec![3]);
    assert_eq!(ProtobufFieldData::Unknown(vec![4]).as_bytes(), vec![4]);
}

#[test]
fn defaults_at_the_edges_of_the_integer_types() {
    let u32_default =
        |text: &str| ProtobufFieldData::UInteger32(7).default_field_value(&defaulted(text));
    assert_eq!(u32_default("4294967295"), ProtobufFieldData::UInteger32(u32::MAX));
    assert_eq!(u32_default("+12"), ProtobufFieldData::UInteger32(12));
    assert_eq!(u32_default("0012"), ProtobufFieldData::UInteger32(12));
    for text in ["4294967296", "-1", "-0", "+", "", " 1", "1 ", "1.0", "0x1"] {
        assert_eq!(u32_default(text), ProtobufFieldData::UInteger32(0));
    }
    let i32_default =
        |text: &str| ProtobufFieldData::Integer32(7).default_field_value(&defaulted(text));
    assert_eq!(i32_default("-2147483648"), ProtobufFieldData::Integer32(i32::MIN));
    assert_eq!(i32_default("2147483647"), ProtobufFieldData::Integer32(i32::MAX));
    assert_eq!(i32_default("-0"), ProtobufFieldData::Integer32(0));
    for text in ["2147483648", "-2147483649", "-", "--1", "+-1"] {
        assert_eq!(i32_default(text), ProtobufFieldData::Integer32(0));
    }
    assert_eq!(
        ProtobufFieldData::UInteger64(7).default_field_value(&defaulted("18446744073709551615")),
        ProtobufFieldData::UInteger64(u64::MAX)
    );
    assert_eq!(
        ProtobufFieldData::UInteger64(7).default_field_value(&defaulted("18446744073709551616")),
        ProtobufFieldData::UInteger64(0)
    );
    assert_eq!(
        ProtobufFieldData::Integer64(7).default_field_value(&defaulted("-9223372036854775808")),
        ProtobufFieldData::Integer64(i64::MIN)
    );
    assert_eq!(
        ProtobufFieldData::Integer64(7).default_field_value(&defaulted("9223372036854775808")),
        ProtobufFieldData::Integer64(0)
    );
}

#[test]
fn the_text_of_an_integer_as_the_default_gives_the_integer() {
    for n in [i64::MIN, -1001, -1, 0, 9, 10, 99, 100, i64::MAX] {
        let data = ProtobufFieldData::Integer64(n);
        let descriptor = defaulted(&data.display(""));
        assert_eq!(ProtobufFieldData::Integer64(5).default_field_value(&descriptor), data);
    }
}

#[test]
fn the_default_of_a_default_is_the_same() {
    let descriptor = defaulted("12");
    let once = ProtobufFieldData::UInteger32(3).default_field_value(&descriptor);
    assert_eq!(once.default_field_value(&descriptor), once);
}

#[test]
fn the_default_of_a_field_keeps_its_number_and_wire_type() {
    let field = ProtobufField {
        field_num: 4,
        wire_type: WireType::Varint,
        data: ProtobufFieldData::UInteger32(9),
    };
    let expected = ProtobufField { data: ProtobufFieldData::UInteger32(8), ..field.clone() };
    assert_eq!(field.default_field_value(&defaulted("8")), expected);
}

#[test]
fn bytes_of_escaped_texts() {
    for (text, bytes) in [
        ("", vec![]),
        ("\\1", vec![1]),
        ("\\12", vec![10]),
        ("\\001", vec![1]),
        ("\\0012", vec![1, 50]),
        ("\\377\\200", vec![255, 128]),
        ("\\18", vec![1, 56]),
        ("\\xff", vec![255]),
        ("\\x4A\\x4a", vec![74, 74]),
        ("\\x1", vec![1]),
        ("\\x0041g", vec![65, 103]),
        ("\\n\\r\\t\\a\\b\\f\\v", vec![10, 13, 9, 7, 8, 12, 11]),
        ("\\\\\\'\\\"\\?", vec![92, 39, 34, 63]),
        ("\\\\001", vec![92, 48, 48, 49]),
        ("a\u{e9}\\303\\251", vec![97, 0xc3, 0xa9, 0xc3, 0xa9]),
    ] {
        assert_eq!(unescape(text), bytes);
    }
}

#[test]
fn a_backslash_that_starts_no_escape_stays() {
    for text in ["\\", "a\\", "\\q", "\\8", "\\x", "\\xg", "\\400", "\\777", "\\x100", "\\\u{e9}"] {
        assert_eq!(unescape(text), text.as_bytes().to_vec());
    }
}

#[test]
fn the_default_of_a_bytes_field_is_escaped() {
    let bytes_default =
        |text: &str| ProtobufFieldData::Bytes(vec![9]).default_field_value(&defaulted(text));
    assert_eq!(bytes_default("\\001"), ProtobufFieldData::Bytes(vec![1]));
    let all: Vec<u8> = (0..=255).collect();
    let text: String = all.iter().map(|byte| format!("\\{:03o}", byte)).collect();
    assert_eq!(bytes_default(&text), ProtobufFieldData::Bytes(all));
    let string_default = ProtobufFieldData::String(String::new());
    assert_eq!(
        string_default.default_field_value(&defaulted("\\001")),
        ProtobufFieldData::String("\\001".to_string())
    );
}

#[test]
fn hexadecimal_forms() {
    assert_eq!(as_hex(&[]), "");
    assert_eq!(as_hex(&[0, 9, 10, 15, 16, 255]), "00090a0f10ff");
}

#[test]
fn equality_of_floating_point_data() {
    let float = |value: f32| ProtobufFieldData::Float(value.to_bits());
    let double = |value: f64| ProtobufFieldData::Double(value.to_bits());
    let floats = [0.0, -0.0, 1.5, -1.5, f32::INFINITY, f32::NEG_INFINITY, f32::NAN, -f32::NAN];
    for a in floats {
        for b in floats {
            assert_eq!(float(a) == float(b), a == b);
            assert_eq!(double(a.into()) == double(b.into()), a == b);
            assert!(float(a) != double(b.into()));
        }
    }
}

#[test]
fn equality_of_field_data() {
    let data = || {
        vec![
            ProtobufFieldData::String("a".to_string()),
            ProtobufFieldData::String("b".to_string()),
            ProtobufFieldData::Boolean(true),
            ProtobufFieldData::UInteger32(1),
            ProtobufFieldData::Integer32(1),
            ProtobufFieldData::UInteger64(1),
            ProtobufFieldData::Integer64(1),
            ProtobufFieldData::Float(1),
            ProtobufFieldData::Double(1),
            ProtobufFieldData::Bytes(vec![1]),
            ProtobufFieldData::Bytes(vec![1, 2]),
            ProtobufFieldData::Enum(1, colours()),
            ProtobufFieldData::Enum(2, colours()),
            ProtobufFieldData::Enum(1, EnumDescriptorProto { encoded: vec![1], ..colours() }),
            ProtobufFieldData::Message(vec![1], descriptor(None)),
            ProtobufFieldData::Message(vec![1], descriptor(Some("a"))),
            ProtobufFieldData::Message(
                vec![1],
                DescriptorProto { nested_type: vec![descriptor(None)], ..descriptor(None) },
            ),
            ProtobufFieldData::Unknown(vec![1]),
        ]
    };
    for (i, a) in data().iter().enumerate() {
        for (j, b) in data().iter().enumerate() {
            assert_eq!(a == b, i == j);
        }
    }
    let field = |field_num: u32, wire_type: WireType| ProtobufField {
        field_num,
        wire_type,
        data: ProtobufFieldData::Boolean(true),
    };
    assert!(field(1, WireType::Varint) == field(1, WireType::Varint));
    assert!(field(1, WireType::Varint) != field(2, WireType::Varint));
    assert!(field(1, WireType::Varint) != field(1, WireType::ThirtyTwoBit));
}
