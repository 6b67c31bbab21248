use pact_protobuf::descriptor::{
    find_field_descriptor, find_message_type_by_name, last_name, DescriptorProto,
    EnumDescriptorProto, EnumValueDescriptorProto, FieldDescriptorProto, FileDescriptorProto,
    FileDescriptorSet, LookupError,
};
use pact_protobuf::message_decoder::{
    checked_decode_message, decode_message, MessageError, ProtobufField, ProtobufFieldData,
};
use pact_protobuf::wire::WireType;
use prost_types::field_descriptor_proto::Type;

fn field(number: i32, field_type: Type) -> FieldDescriptorProto {
    named_field(number, field_type, None)
}

fn named_field(number: i32, field_type: Type, name: Option<&str>) -> FieldDescriptorProto {
    FieldDescriptorProto {
        name: Some(format!("field_{}", number)),
        number: Some(number),
        field_type: Some(field_type as i32),
        named_type: name.map(|name| name.to_string()),
        default_value: None,
        encoded: vec![],
    }
}

fn message(name: &str, field: Vec<FieldDescriptorProto>) -> DescriptorProto {
    DescriptorProto {
        name: Some(name.to_string()),
        field,
        nested_type: vec![],
        enum_type: vec![],
        encoded: vec![],
    }
}

fn no_files() -> FileDescriptorSet {
    FileDescriptorSet { file: vec![] }
}

fn decode(bytes: &[u8], descriptor: &DescriptorProto) -> Result<Vec<ProtobufField>, MessageError> {
    let mut buffer = bytes;
    decode_message(&mut buffer, descriptor, &no_files())
}

/// The data of the only field of a message with the field 1 of that type.
fn decode_one(bytes: &[u8], field_type: Type) -> ProtobufFieldData {
    let fields = decode(bytes, &message("Test", vec![field(1, field_type)])).unwrap();
    assert_eq!(fields.len(), 1);
    assert_eq!(fields[0].field_num, 1);
    fields[0].data.clone()
}

#[test]
fn an_empty_message_has_no_fields() {
    assert_eq!(decode(&[], &message("Test", vec![field(1, Type::Int32)])), Ok(vec![]));
}

#[test]
fn varints_of_every_type() {
    let minus_one = [8, 255, 255, 255, 255, 255, 255, 255, 255, 255, 1];
    assert_eq!(decode_one(&minus_one, Type::Int32), ProtobufFieldData::Integer32(-1));
    assert_eq!(decode_one(&minus_one, Type::Int64), ProtobufFieldData::Integer64(-1));
    assert_eq!(decode_one(&minus_one, Type::Uint64), ProtobufFieldData::UInteger64(u64::MAX));
    assert_eq!(decode_one(&minus_one, Type::Uint32), ProtobufFieldData::UInteger32(u32::MAX));
    assert_eq!(decode_one(&minus_one, Type::Sint32), ProtobufFieldData::Integer32(i32::MIN));
    assert_eq!(decode_one(&minus_one, Type::Sint64), ProtobufFieldData::Integer64(i64::MIN));
    assert_eq!(decode_one(&minus_one, Type::Bool), ProtobufFieldData::Boolean(true));
    assert_eq!(decode_one(&[8, 0], Type::Bool), ProtobufFieldData::Boolean(false));
}

#[test]
fn zigzag_values() {
    for (byte, value) in [(0u8, 0), (1, -1), (2, 1), (3, -2), (4, 2), (127, -64)] {
        assert_eq!(decode_one(&[8, byte], Type::Sint32), ProtobufFieldData::Integer32(value));
        let value = i64::from(value);
        assert_eq!(decode_one(&[8, byte], Type::Sint64), ProtobufFieldData::Integer64(value));
    }
}

#[test]
fn a_varint_is_cut_to_the_bits_of_its_type() {
    // 2^32 + 2^31 + 5
    let bytes = [8, 133, 128, 128, 128, 24];
    assert_eq!(decode_one(&bytes, Type::Int32), ProtobufFieldData::Integer32(-2147483643));
    assert_eq!(decode_one(&bytes, Type::Uint32), ProtobufFieldData::UInteger32(2147483653));
    assert_eq!(decode_one(&bytes, Type::Int64), ProtobufFieldData::Integer64(6442450949));
}

#[test]
fn fixed_width_integers() {
    let bytes = [9, 1, 2, 3, 4, 5, 6, 7, 255];
    assert_eq!(
        decode_one(&bytes, Type::Fixed64),
        ProtobufFieldData::UInteger64(0xff07_0605_0403_0201)
    );
    assert_eq!(
        decode_one(&bytes, Type::Sfixed64),
        ProtobufFieldData::Integer64(0xff07_0605_0403_0201u64 as i64)
    );
    let bytes = [13, 1, 2, 3, 255];
    assert_eq!(decode_one(&bytes, Type::Fixed32), ProtobufFieldData::UInteger32(0xff03_0201));
    assert_eq!(
        decode_one(&bytes, Type::Sfixed32),
        ProtobufFieldData::Integer32(0xff03_0201u32 as i32)
    );
}

#[test]
fn data_that_does_not_match_the_declared_type_is_unknown() {
    assert_eq!(
        decode_one(&[8, 0xac, 2], Type::String),
        ProtobufFieldData::Unknown(vec![44, 1, 0, 0, 0, 0, 0, 0])
    );
    assert_eq!(
        decode_one(&[9, 1, 2, 3, 4, 5, 6, 7, 8], Type::Int64),
        ProtobufFieldData::Unknown(vec![1, 2, 3, 4, 5, 6, 7, 8])
    );
    assert_eq!(
        decode_one(&[13, 1, 2, 3, 4], Type::Int32),
        ProtobufFieldData::Unknown(vec![1, 2, 3, 4])
    );
    assert_eq!(
        decode_one(&[10, 3, 7, 8, 9], Type::Int32),
        ProtobufFieldData::Unknown(vec![3, 7, 8, 9])
    );
}

#[test]
fn a_field_without_a_valid_type_counts_as_a_double() {
    for field_type in [None, Some(0), Some(19), Some(-1)] {
        let descriptor = message(
            "Test",
            vec![FieldDescriptorProto { field_type, ..field(1, Type::Int32) }],
        );
        let fields = decode(&[9, 0, 0, 0, 0, 0, 0, 0xf0, 0x3f], &descriptor).unwrap();
        assert_eq!(fields[0].data, ProtobufFieldData::Double(1.0f64.to_bits()));
    }
}

#[test]
fn fields_that_the_descriptor_does_not_know() {
    let descriptor = message("Test", vec![]);
    let data = |bytes: &[u8]| decode(bytes, &descriptor).unwrap()[0].data.clone();
    assert_eq!(data(&[8, 1]), ProtobufFieldData::Unknown(vec![1, 0, 0, 0, 0, 0, 0, 0]));
    assert_eq!(
        data(&[9, 1, 2, 3, 4, 5, 6, 7, 8]),
        ProtobufFieldData::Unknown(vec![8, 7, 6, 5, 4, 3, 2, 1])
    );
    assert_eq!(data(&[13, 1, 2, 3, 4]), ProtobufFieldData::Unknown(vec![4, 3, 2, 1]));
    assert_eq!(data(&[10, 2, 5, 6]), ProtobufFieldData::Unknown(vec![2, 5, 6]));
    // the length is written anew, in its shortest form
    assert_eq!(data(&[10, 0x82, 0, 5, 6]), ProtobufFieldData::Unknown(vec![2, 5, 6]));
}

#[test]
fn a_long_length_is_kept_in_front_of_unknown_bytes() {
    let mut bytes = vec![10, 0xac, 2];
    bytes.extend(vec![1u8; 300]);
    let fields = decode(&bytes, &message("Test", vec![])).unwrap();
    assert_eq!(fields[0].data.as_bytes(), bytes[1..].to_vec());
}

#[test]
fn fields_come_by_number_and_keep_their_order_under_a_number() {
    let descriptor = message("Test", vec![field(1, Type::Int32), field(2, Type::Int32)]);
    let fields = decode(&[24, 9, 16, 1, 8, 7, 16, 2, 16, 1], &descriptor).unwrap();
    let found: Vec<(u32, Vec<u8>)> =
        fields.iter().map(|field| (field.field_num, field.data.as_bytes())).collect();
    assert_eq!(
        found,
        vec![
            (1, vec![7, 0, 0, 0]),
            (2, vec![1, 0, 0, 0]),
            (2, vec![2, 0, 0, 0]),
            (2, vec![1, 0, 0, 0]),
            (3, vec![9, 0, 0, 0, 0, 0, 0, 0]),
        ]
    );
}

#[test]
fn messages_with_different_fields_decode_to_the_same_in_either_order() {
    let descriptor = message("Test", vec![field(1, Type::Int32), field(2, Type::Bytes)]);
    let first = [8, 1, 8, 2];
    let second = [18, 1, 9];
    let one = decode(&[&first[..], &second[..]].concat(), &descriptor).unwrap();
    let other = decode(&[&second[..], &first[..]].concat(), &descriptor).unwrap();
    assert_eq!(one, other);
    let mut parts = decode(&first, &descriptor).unwrap();
    parts.extend(decode(&second, &descriptor).unwrap());
    assert_eq!(one, parts);
}

#[test]
fn decoding_reads_the_buffer_to_its_end() {
    let bytes = [8, 1, 16, 2];
    let mut buffer: &[u8] = &bytes;
    decode_message(&mut buffer, &message("Test", vec![]), &no_files()).unwrap();
    assert_eq!(buffer.len(), 0);
}

#[test]
fn the_largest_field_number() {
    // 2^29 - 1 as a varint field
    let fields = decode(&[0xf8, 0xff, 0xff, 0xff, 0x0f, 1], &message("Test", vec![])).unwrap();
    assert_eq!(fields[0].field_num, 0x1fff_ffff);
    assert_eq!(fields[0].wire_type, WireType::Varint);
}

#[test]
fn invalid_keys() {
    let descriptor = message("Test", vec![]);
    // field number 0, wire types 6 and 7, more than 32 bits, a cut off key
    for bytes in [&[0u8, 1][..], &[14, 1], &[15, 1], &[0xf8, 0xff, 0xff, 0xff, 0x1f, 1], &[0x88]] {
        assert!(matches!(decode(bytes, &descriptor), Err(MessageError::Key(_))));
    }
    let text = |bytes: &[u8]| decode(bytes, &descriptor).unwrap_err().describe();
    assert_eq!(text(&[0, 1]), "failed to decode Protobuf message: invalid tag value: 0");
    assert_eq!(text(&[14, 1]), "failed to decode Protobuf message: invalid wire type value: 6");
    assert_eq!(text(&[7, 1]), "failed to decode Protobuf message: invalid wire type value: 7");
    assert_eq!(
        text(&[0xf8, 0xff, 0xff, 0xff, 0x1f, 1]),
        "failed to decode Protobuf message: invalid key value: 8589934584"
    );
    assert_eq!(text(&[0x88]), "failed to decode Protobuf message: invalid varint");
}

#[test]
fn invalid_varints() {
    let known = message("Test", vec![field(1, Type::Int64)]);
    let unknown = message("Test", vec![]);
    let too_long = [8, 255, 255, 255, 255, 255, 255, 255, 255, 255, 2];
    assert_eq!(
        decode(&[8], &known).unwrap_err().describe(),
        "failed to decode Protobuf message: invalid varint"
    );
    for descriptor in [&known, &unknown] {
        assert!(matches!(decode(&[8], descriptor), Err(MessageError::Varint(_))));
        assert!(matches!(decode(&[8, 0x80], descriptor), Err(MessageError::Varint(_))));
        assert!(matches!(decode(&too_long, descriptor), Err(MessageError::Varint(_))));
        assert!(matches!(decode(&[10, 0x80], descriptor), Err(MessageError::Varint(_))));
    }
}

#[test]
fn text_that_is_not_utf8() {
    let descriptor = message("Test", vec![field(1, Type::String)]);
    let error = decode(&[10, 2, 0xc3, 0x28], &descriptor).unwrap_err();
    assert!(matches!(error, MessageError::Utf8(_)));
    assert_eq!(error.describe(), "invalid utf-8 sequence of 1 bytes from index 0");
    let fields = decode(&[10, 2, 0xc3, 0xa9], &descriptor).unwrap();
    assert_eq!(fields[0].data, ProtobufFieldData::String("\u{e9}".to_string()));
}

#[test]
fn an_enum_that_is_not_declared() {
    let descriptor = message("Test", vec![named_field(1, Type::Enum, Some(".pkg.Colour"))]);
    let error = decode(&[8, 1], &descriptor).unwrap_err();
    assert_eq!(
        error,
        MessageError::EnumNotFound { named_type: Some(".pkg.Colour".to_string()), field_num: 1 }
    );
    assert_eq!(
        error.describe(),
        "Did not find the enum Some(\".pkg.Colour\") for the field 1 in the Protobuf descriptor"
    );
    assert_eq!(
        error.describe_with("", "<name>"),
        "Did not find the enum <name> for the field 1 in the Protobuf descriptor"
    );
}

#[test]
fn an_enum_is_found_by_the_last_part_of_its_name() {
    let colour = EnumDescriptorProto {
        name: Some("Colour".to_string()),
        value: vec![EnumValueDescriptorProto { name: Some("RED".to_string()), number: Some(-1) }],
        encoded: vec![7],
    };
    let descriptor = DescriptorProto {
        enum_type: vec![
            EnumDescriptorProto { name: None, value: vec![], encoded: vec![] },
            colour.clone(),
        ],
        ..message("Test", vec![named_field(1, Type::Enum, Some(".pkg.Colour"))])
    };
    let bytes = [8, 255, 255, 255, 255, 255, 255, 255, 255, 255, 1];
    let fields = decode(&bytes, &descriptor).unwrap();
    assert_eq!(fields[0].data, ProtobufFieldData::Enum(-1, colour));
}

#[test]
fn an_embedded_message_that_is_not_declared() {
    let descriptor = message("Test", vec![named_field(1, Type::Message, None)]);
    let error = decode(&[10, 0], &descriptor).unwrap_err();
    assert_eq!(error, MessageError::MessageNotFound { named_type: None, field_num: 1 });
    assert_eq!(
        error.describe(),
        "Did not find the embedded message None for the field 1 in the Protobuf descriptor"
    );
}

#[test]
fn an_embedded_message_is_looked_for_inside_and_then_in_the_files() {
    let inside = message("Inner", vec![field(1, Type::Int32)]);
    let outside = message("Inner", vec![field(2, Type::Int32)]);
    let files = FileDescriptorSet {
        file: vec![
            FileDescriptorProto { message_type: vec![message("Other", vec![])] },
            FileDescriptorProto { message_type: vec![outside.clone()] },
        ],
    };
    let mut descriptor = message("Test", vec![named_field(1, Type::Message, Some(".pkg.Inner"))]);
    let bytes = [10, 1, 5];
    let mut buffer: &[u8] = &bytes;
    let fields = decode_message(&mut buffer, &descriptor, &files).unwrap();
    assert_eq!(fields[0].data, ProtobufFieldData::Message(vec![5], outside));

    descriptor.nested_type = vec![inside.clone()];
    let mut buffer: &[u8] = &bytes;
    let fields = decode_message(&mut buffer, &descriptor, &files).unwrap();
    assert_eq!(fields[0].data, ProtobufFieldData::Message(vec![5], inside));
}

#[test]
fn fewer_bytes_than_the_length_of_a_known_field() {
    let descriptor = message("Test", vec![field(1, Type::Bytes)]);
    let error = decode(&[10, 5, 1, 2], &descriptor).unwrap_err();
    assert_eq!(
        error,
        MessageError::InsufficientData { remaining: 2, length: 5, field_num: 1 }
    );
    assert_eq!(
        error.describe(),
        "Insufficient data remaining (2 bytes) to read 5 bytes for field 1"
    );
}

#[test]
fn groups_are_not_supported() {
    let known = message("Test", vec![field(1, Type::Group)]);
    for descriptor in [&known, &message("Test", vec![])] {
        let error = decode(&[11], descriptor).unwrap_err();
        assert_eq!(error, MessageError::UnsupportedWireType(WireType::StartGroup));
        assert_eq!(
            error.describe(),
            "Messages with StartGroup wire type fields are not supported"
        );
        assert_eq!(
            decode(&[12], descriptor),
            Err(MessageError::UnsupportedWireType(WireType::EndGroup))
        );
    }
}

#[test]
fn payloads_that_the_buffer_ends_in() {
    let known = message("Test", vec![field(1, Type::Bytes)]);
    let unknown = message("Test", vec![]);
    let checked = |bytes: &[u8], descriptor: &DescriptorProto| {
        let mut buffer = bytes;
        checked_decode_message(&mut buffer, descriptor, &no_files())
    };
    assert_eq!(checked(&[9, 1, 2, 3, 4, 5, 6, 7], &known), None);
    assert_eq!(checked(&[9, 1, 2, 3, 4, 5, 6, 7], &unknown), None);
    assert_eq!(checked(&[13, 1, 2, 3], &known), None);
    assert_eq!(checked(&[13, 1, 2, 3], &unknown), None);
    assert_eq!(checked(&[10, 5, 1, 2], &unknown), None);
    assert_eq!(
        checked(&[10, 5, 1, 2], &known),
        Some(Err(MessageError::InsufficientData { remaining: 2, length: 5, field_num: 1 }))
    );
    assert_eq!(checked(&[10, 1, 2], &known).unwrap().unwrap().len(), 1);
}

#[test]
fn the_first_fault_decides() {
    let descriptor = message("Test", vec![field(1, Type::String)]);
    assert!(matches!(
        decode(&[8, 1, 10, 1, 0xff, 0], &descriptor),
        Err(MessageError::Utf8(_))
    ));
    assert!(matches!(decode(&[8, 1, 0, 10, 1, 0xff], &descriptor), Err(MessageError::Key(_))));
}

#[test]
fn last_names() {
    assert_eq!(last_name(".pkg.sub.Type"), "Type");
    assert_eq!(last_name("Type"), "Type");
    assert_eq!(last_name("Type."), "");
    assert_eq!(last_name(""), "");
    assert_eq!(last_name("a.\u{e9}t\u{e9}"), "\u{e9}t\u{e9}");
}

#[test]
fn the_first_field_with_a_number() {
    let first = named_field(3, Type::Int32, Some("first"));
    let descriptor = message(
        "Test",
        vec![
            FieldDescriptorProto { number: None, ..field(3, Type::Bool) },
            first.clone(),
            named_field(3, Type::Int32, Some("second")),
        ],
    );
    assert_eq!(find_field_descriptor(3, &descriptor), Ok(first));
    let error = find_field_descriptor(-4, &descriptor).unwrap_err();
    assert_eq!(error, LookupError::FieldNotFound(-4));
    assert_eq!(error.describe(), "Did not find a field with number -4 in the descriptor");
}

#[test]
fn a_message_type_that_no_file_declares() {
    let files = FileDescriptorSet {
        file: vec![FileDescriptorProto { message_type: vec![message("Other", vec![])] }],
    };
    let error = find_message_type_by_name("Test", &files).unwrap_err();
    assert_eq!(error, LookupError::MessageNotFound("Test".to_string()));
    assert_eq!(error.describe(), "Did not find a message type 'Test' in the descriptors");
    assert_eq!(find_message_type_by_name("Other", &files), Ok(message("Other", vec![])));
}
