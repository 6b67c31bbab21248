use pact_protobuf::descriptor::{
    DefaultValue, DescriptorProto, EnumDescriptorProto, EnumValueDescriptorProto,
    FieldDescriptorProto, FileDescriptorSet,
};
use pact_protobuf::message_decoder::{decode_message, ProtobufFieldData};
use pact_protobuf::wire::WireType;
use pact_plugin_driver::proto::InitPluginRequest;
use prost::Message;
use prost_types::field_descriptor_proto::Type;

const FIELD_1_MESSAGE: [u8; 2] = [8, 1];
const FIELD_2_MESSAGE: [u8; 2] = [16, 55];
const FIELD_5_MESSAGE: [u8; 3] = [0b101000, 0b10110011, 0b101011];

fn field_descriptor(
    name: &str,
    number: i32,
    field_type: Type,
    named_type: Option<&str>,
) -> FieldDescriptorProto {
    FieldDescriptorProto {
        name: Some(name.to_string()),
        number: Some(number),
        field_type: Some(field_type as i32),
        named_type: named_type.map(|name| name.to_string()),
        default_value: None,
        encoded: vec![],
    }
}

fn default_value(text: &str) -> Option<DefaultValue> {
    Some(DefaultValue {
        text: text.to_string(),
        float: text.parse::<f32>().ok().map(|value| value.to_bits()),
        double: text.parse::<f64>().ok().map(|value| value.to_bits()),
    })
}

fn with_default(descriptor: FieldDescriptorProto, text: &str) -> FieldDescriptorProto {
    FieldDescriptorProto { default_value: default_value(text), ..descriptor }
}

fn message_descriptor(name: &str, field: Vec<FieldDescriptorProto>) -> DescriptorProto {
    DescriptorProto {
        name: Some(name.to_string()),
        field,
        nested_type: vec![],
        enum_type: vec![],
        encoded: vec![],
    }
}

fn no_files() -> FileDescriptorSet {
    FileDescriptorSet { file: vec![] }
}

fn enum_value(name: &str, number: i32) -> EnumValueDescriptorProto {
    EnumValueDescriptorProto { name: Some(name.to_string()), number: Some(number) }
}

#[test]
fn decode_boolean() {
    let mut buffer: &[u8] = &FIELD_1_MESSAGE;
    let descriptor = message_descriptor(
        "TestMessage",
        vec![field_descriptor("bool_field", 1, Type::Bool, None)],
    );

    let result = decode_message(&mut buffer, &descriptor, &no_files()).unwrap();
    assert_eq!(result.len(), 1);

    let field_result = result.first().unwrap();

    assert_eq!(field_result.field_num, 1);
    assert_eq!(field_result.wire_type, WireType::Varint);
    assert_eq!(&field_result.data, &ProtobufFieldData::Boolean(true));
}

#[test]
fn decode_int32() {
    let mut buffer: &[u8] = &FIELD_2_MESSAGE;
    let descriptor = message_descriptor(
        "TestMessage",
        vec![field_descriptor("field_1", 2, Type::Int32, Some("Int32"))],
    );

    let result = decode_message(&mut buffer, &descriptor, &no_files()).unwrap();
    assert_eq!(result.len(), 1);

    let field_result = result.first().unwrap();

    assert_eq!(field_result.field_num, 2);
    assert_eq!(field_result.wire_type, WireType::Varint);
    assert_eq!(&field_result.data, &ProtobufFieldData::Integer32(55));
}

#[test]
fn decode_uint64() {
    let mut buffer: &[u8] = &FIELD_5_MESSAGE;
    let descriptor = message_descriptor(
        "TestMessage",
        vec![field_descriptor("field_1", 5, Type::Uint64, Some("Uint64"))],
    );

    let result = decode_message(&mut buffer, &descriptor, &no_files()).unwrap();
    assert_eq!(result.len(), 1);

    let field_result = result.first().unwrap();

    assert_eq!(field_result.field_num, 5);
    assert_eq!(field_result.wire_type, WireType::Varint);
    assert_eq!(&field_result.data, &ProtobufFieldData::UInteger64(5555));
}

#[test]
fn decode_enum() {
    let mut buffer: &[u8] = &FIELD_2_MESSAGE;
    let enum_descriptor = EnumDescriptorProto {
        name: Some("ContentTypeHint".to_string()),
        value: vec![enum_value("DEFAULT", 0), enum_value("TEXT", 55), enum_value("BINARY", 66)],
        encoded: vec![],
    };
    let descriptor = DescriptorProto {
        enum_type: vec![enum_descriptor.clone()],
        ..message_descriptor(
            "TestMessage",
            vec![field_descriptor("field_1", 2, Type::Enum, Some("ContentTypeHint"))],
        )
    };

    let result = decode_message(&mut buffer, &descriptor, &no_files()).unwrap();
    assert_eq!(result.len(), 1);

    let field_result = result.first().unwrap();

    assert_eq!(field_result.field_num, 2);
    assert_eq!(field_result.wire_type, WireType::Varint);
    assert_eq!(&field_result.data, &ProtobufFieldData::Enum(55, enum_descriptor));
}

#[test]
fn decode_f32() {
    let f_value: f32 = 12.34;
    let mut bytes: Vec<u8> = vec![21];
    bytes.extend_from_slice(&f_value.to_le_bytes());
    let mut buffer = bytes.as_slice();
    let descriptor = message_descriptor(
        "TestMessage",
        vec![field_descriptor("field_1", 2, Type::Float, Some("Float"))],
    );

    let result = decode_message(&mut buffer, &descriptor, &no_files()).unwrap();
    assert_eq!(result.len(), 1);

    let field_result = result.first().unwrap();

    assert_eq!(field_result.field_num, 2);
    assert_eq!(field_result.wire_type, WireType::ThirtyTwoBit);
    assert_eq!(&field_result.data, &ProtobufFieldData::Float(12.34f32.to_bits()));
}

#[test]
fn decode_f64() {
    let f_value: f64 = 12.34;
    let mut bytes: Vec<u8> = vec![17];
    bytes.extend_from_slice(&f_value.to_le_bytes());
    let mut buffer = bytes.as_slice();
    let descriptor = message_descriptor(
        "TestMessage",
        vec![field_descriptor("field_1", 2, Type::Double, Some("Double"))],
    );

    let result = decode_message(&mut buffer, &descriptor, &no_files()).unwrap();
    assert_eq!(result.len(), 1);

    let field_result = result.first().unwrap();

    assert_eq!(field_result.field_num, 2);
    assert_eq!(field_result.wire_type, WireType::SixtyFourBit);
    assert_eq!(&field_result.data, &ProtobufFieldData::Double(12.34f64.to_bits()));
}

#[test]
fn decode_string() {
    let str_data = "this is a string!";
    let mut bytes: Vec<u8> = vec![10, str_data.len() as u8];
    bytes.extend_from_slice(str_data.as_bytes());
    let mut buffer = bytes.as_slice();
    let descriptor = message_descriptor(
        "TestMessage",
        vec![field_descriptor("type", 1, Type::String, Some("String"))],
    );

    let result = decode_message(&mut buffer, &descriptor, &no_files()).unwrap();
    assert_eq!(result.len(), 1);

    let field_result = result.first().unwrap();

    assert_eq!(field_result.field_num, 1);
    assert_eq!(field_result.wire_type, WireType::LengthDelimited);
    assert_eq!(&field_result.data, &ProtobufFieldData::String(str_data.to_string()));
}

#[test]
fn decode_message_test() {
    let message = InitPluginRequest {
        implementation: "test".to_string(),
        version: "1.2.3.4".to_string(),
    };
    let embedded_descriptor = message_descriptor(
        "InitPluginRequest",
        vec![
            field_descriptor("implementation", 1, Type::String, Some("String")),
            field_descriptor("version", 2, Type::String, Some("String")),
        ],
    );
    let encoded = message.encode_to_vec();
    let mut bytes: Vec<u8> = vec![10, encoded.len() as u8];
    bytes.extend_from_slice(&encoded);
    let mut buffer = bytes.as_slice();
    let descriptor = DescriptorProto {
        nested_type: vec![embedded_descriptor.clone()],
        ..message_descriptor(
            "TestMessage",
            vec![field_descriptor("message", 1, Type::Message, Some("InitPluginRequest"))],
        )
    };

    let result = decode_message(&mut buffer, &descriptor, &no_files()).unwrap();
    assert_eq!(result.len(), 1);

    let field_result = result.first().unwrap();

    assert_eq!(field_result.field_num, 1);
    assert_eq!(field_result.wire_type, WireType::LengthDelimited);
    assert_eq!(&field_result.data, &ProtobufFieldData::Message(encoded, embedded_descriptor));
}

#[test]
fn decode_message_with_unknown_field() {
    let message = InitPluginRequest {
        implementation: "test".to_string(),
        version: "1.2.3.4".to_string(),
    };
    let descriptor = message_descriptor(
        "InitPluginRequest",
        vec![field_descriptor("implementation", 1, Type::String, Some("String"))],
    );

    let bytes = message.encode_to_vec();
    let mut buffer = bytes.as_slice();
    let result = decode_message(&mut buffer, &descriptor, &no_files()).unwrap();
    assert_eq!(result.len(), 2);

    let field_result = result.first().unwrap();
    assert_eq!(field_result.field_num, 1);
    assert_eq!(field_result.wire_type, WireType::LengthDelimited);
    assert_eq!(&field_result.data, &ProtobufFieldData::String("test".to_string()));

    let field_result = result.get(1).unwrap();
    assert_eq!(field_result.field_num, 2);
    assert_eq!(field_result.wire_type, WireType::LengthDelimited);
    assert_eq!(field_result.data.data_type_name(), "Unknown");
}

#[test]
fn default_field_value_test_boolean() {
    let descriptor = field_descriptor("bool_field", 1, Type::Bool, None);
    assert_eq!(
        ProtobufFieldData::Boolean(true).default_field_value(&descriptor),
        ProtobufFieldData::Boolean(false)
    );

    let descriptor = with_default(
        field_descriptor("bool_field", 1, Type::Bool, None),
        "true",
    );
    assert_eq!(
        ProtobufFieldData::Boolean(true).default_field_value(&descriptor),
        ProtobufFieldData::Boolean(true)
    );

    let descriptor = with_default(
        field_descriptor("bool_field", 1, Type::Bool, None),
        "false",
    );
    assert_eq!(
        ProtobufFieldData::Boolean(true).default_field_value(&descriptor),
        ProtobufFieldData::Boolean(false)
    );
}

#[test]
fn default_field_value_test_string() {
    let descriptor = field_descriptor("field", 1, Type::String, Some("String"));
    assert_eq!(
        ProtobufFieldData::String("true".to_string()).default_field_value(&descriptor),
        ProtobufFieldData::String("".to_string())
    );

    let descriptor = with_default(
        field_descriptor("field", 1, Type::String, Some("String")),
        "true",
    );
    assert_eq!(
        ProtobufFieldData::String("other".to_string()).default_field_value(&descriptor),
        ProtobufFieldData::String("true".to_string())
    );
}

#[test]
fn default_field_value_test_u32() {
    let descriptor = field_descriptor("field", 1, Type::Uint32, None);
    assert_eq!(
        ProtobufFieldData::UInteger32(123).default_field_value(&descriptor),
        ProtobufFieldData::UInteger32(0)
    );

    let descriptor = with_default(
        field_descriptor("field", 1, Type::Uint32, None),
        "100",
    );
    assert_eq!(
        ProtobufFieldData::UInteger32(123).default_field_value(&descriptor),
        ProtobufFieldData::UInteger32(100)
    );

    let descriptor = with_default(
        field_descriptor("field", 1, Type::Uint32, None),
        "sdsd",
    );
    assert_eq!(
        ProtobufFieldData::UInteger32(123).default_field_value(&descriptor),
        ProtobufFieldData::UInteger32(0)
    );
}

#[test]
fn default_field_value_test_i32() {
    let descriptor = field_descriptor("field", 1, Type::Int32, None);
    assert_eq!(
        ProtobufFieldData::Integer32(123).default_field_value(&descriptor),
        ProtobufFieldData::Integer32(0)
    );

    let descriptor = with_default(
        field_descriptor("field", 1, Type::Int32, None),
        "100",
    );
    assert_eq!(
        ProtobufFieldData::Integer32(123).default_field_value(&descriptor),
        ProtobufFieldData::Integer32(100)
    );

    let descriptor = with_default(
        field_descriptor("field", 1, Type::Int32, None),
        "sdsd",
    );
    assert_eq!(
        ProtobufFieldData::Integer32(123).default_field_value(&descriptor),
        ProtobufFieldData::Integer32(0)
    );
}

#[test]
fn default_field_value_test_u64() {
    let descriptor = field_descriptor("field", 1, Type::Uint64, None);
    assert_eq!(
        ProtobufFieldData::UInteger64(123).default_field_value(&descriptor),
        ProtobufFieldData::UInteger64(0)
    );

    let descriptor = with_default(
        field_descriptor("field", 1, Type::Uint64, None),
        "100",
    );
    assert_eq!(
        ProtobufFieldData::UInteger64(123).default_field_value(&descriptor),
        ProtobufFieldData::UInteger64(100)
    );

    let descriptor = with_default(
        field_descriptor("field", 1, Type::Uint64, None),
        "sdsd",
    );
    assert_eq!(
        ProtobufFieldData::UInteger64(123).default_field_value(&descriptor),
        ProtobufFieldData::UInteger64(0)
    );
}

#[test]
fn default_field_value_test_i64() {
    let descriptor = field_descriptor("field", 1, Type::Int64, None);
    assert_eq!(
        ProtobufFieldData::Integer64(123).default_field_value(&descriptor),
        ProtobufFieldData::Integer64(0)
    );

    let descriptor = with_default(
        field_descriptor("field", 1, Type::Int64, None),
        "100",
    );
    assert_eq!(
        ProtobufFieldData::Integer64(123).default_field_value(&descriptor),
        ProtobufFieldData::Integer64(100)
    );

    let descriptor = with_default(
        field_descriptor("field", 1, Type::Int64, None),
        "sdsd",
    );
    assert_eq!(
        ProtobufFieldData::Integer64(123).default_field_value(&descriptor),
        ProtobufFieldData::Integer64(0)
    );
}

#[test]
fn default_field_value_test_f32() {
    let descriptor = field_descriptor("field", 1, Type::Float, None);
    assert_eq!(
        ProtobufFieldData::Float(123.0f32.to_bits()).default_field_value(&descriptor),
        ProtobufFieldData::Float(0.0f32.to_bits())
    );

    let descriptor = with_default(
        field_descriptor("field", 1, Type::Float, None),
        "100",
    );
    assert_eq!(
        ProtobufFieldData::Float(123.0f32.to_bits()).default_field_value(&descriptor),
        ProtobufFieldData::Float(100.0f32.to_bits())
    );

    let descriptor = with_default(
        field_descriptor("field", 1, Type::Float, None),
        "sdsd",
    );
    assert_eq!(
        ProtobufFieldData::Float(123.0f32.to_bits()).default_field_value(&descriptor),
        ProtobufFieldData::Float(0.0f32.to_bits())
    );
}

#[test]
fn default_field_value_test_f64() {
    let descriptor = field_descriptor("field", 1, Type::Double, None);
    assert_eq!(
        ProtobufFieldData::Double(123.0f64.to_bits()).default_field_value(&descriptor),
        ProtobufFieldData::Double(0.0f64.to_bits())
    );

    let descriptor = with_default(
        field_descriptor("field", 1, Type::Double, None),
        "100",
    );
    assert_eq!(
        ProtobufFieldData::Double(123.0f64.to_bits()).default_field_value(&descriptor),
        ProtobufFieldData::Double(100.0f64.to_bits())
    );

    let descriptor = with_default(
        field_descriptor("field", 1, Type::Double, None),
        "sdsd",
    );
    assert_eq!(
        ProtobufFieldData::Double(123.0f64.to_bits()).default_field_value(&descriptor),
        ProtobufFieldData::Double(0.0f64.to_bits())
    );
}

#[test]
fn default_field_value_test_enum() {
    let enum_descriptor = EnumDescriptorProto {
        name: Some("EnumValue".to_string()),
        value: vec![enum_value("OPT1", 0), enum_value("OPT2", 1), enum_value("OPT3", 2)],
        encoded: vec![],
    };
    let descriptor = field_descriptor("field", 1, Type::Enum, Some("OPT1"));
    assert_eq!(
        ProtobufFieldData::Enum(2, enum_descriptor.clone()).default_field_value(&descriptor),
        ProtobufFieldData::Enum(0, enum_descriptor.clone())
    );

    let descriptor = with_default(
        field_descriptor("field", 1, Type::Enum, Some("OPT2")),
        "1",
    );
    assert_eq!(
        ProtobufFieldData::Enum(2, enum_descriptor.clone()).default_field_value(&descriptor),
        ProtobufFieldData::Enum(1, enum_descriptor.clone())
    );

    let descriptor = with_default(
        field_descriptor("field", 1, Type::Enum, Some("OPT2")),
        "sdsd",
    );
    assert_eq!(
        ProtobufFieldData::Enum(2, enum_descriptor.clone()).default_field_value(&descriptor),
        ProtobufFieldData::Enum(0, enum_descriptor.clone())
    );
}

#[test]
fn default_field_value_test_bytes() {
    let descriptor = field_descriptor("field", 1, Type::Bytes, None);
    assert_eq!(
        ProtobufFieldData::Bytes(vec![1, 2, 3, 4]).default_field_value(&descriptor),
        ProtobufFieldData::Bytes(vec![])
    );

    let descriptor = with_default(
        field_descriptor("field", 1, Type::Bytes, None),
        "true",
    );
    assert_eq!(
        ProtobufFieldData::Bytes(vec![1, 2, 3, 4]).default_field_value(&descriptor),
        ProtobufFieldData::Bytes(vec![116, 114, 117, 101])
    );
}

#[test]
fn default_field_value_test_message() {
    let embedded_descriptor = message_descriptor(
        "InitPluginRequest",
        vec![
            field_descriptor("implementation", 1, Type::String, Some("String")),
            field_descriptor("version", 2, Type::String, Some("String")),
        ],
    );
    let descriptor = field_descriptor("field", 1, Type::Message, Some("InitPluginRequest"));
    assert_eq!(
        ProtobufFieldData::Message(vec![1, 2, 3, 4], embedded_descriptor.clone())
            .default_field_value(&descriptor),
        ProtobufFieldData::Message(vec![], embedded_descriptor.clone())
    );

    let descriptor = with_default(
        field_descriptor("field", 1, Type::Message, Some("InitPluginRequest")),
        "true",
    );
    assert_eq!(
        ProtobufFieldData::Message(vec![1, 2, 3, 4], embedded_descriptor.clone())
            .default_field_value(&descriptor),
        ProtobufFieldData::Message(vec![], embedded_descriptor.clone())
    );
}

#[test]
fn default_field_value_test_unknown() {
    let descriptor = field_descriptor("field", 1, Type::Bytes, None);
    assert_eq!(
        ProtobufFieldData::Unknown(vec![1, 2, 3, 4]).default_field_value(&descriptor),
        ProtobufFieldData::Unknown(vec![])
    );

    let descriptor = with_default(
        field_descriptor("field", 1, Type::Bytes, None),
        "true",
    );
    assert_eq!(
        ProtobufFieldData::Unknown(vec![1, 2, 3, 4]).default_field_value(&descriptor),
        ProtobufFieldData::Unknown(vec![])
    );
}

#[test]
fn decoded_fields_hold_whole_descriptors() {
    let whole_enum = prost_types::EnumDescriptorProto {
        name: Some("Colour".to_string()),
        reserved_name: vec!["OLD".to_string()],
        ..prost_types::EnumDescriptorProto::default()
    };
    let whole_message = prost_types::DescriptorProto {
        name: Some("Inner".to_string()),
        oneof_decl: vec![prost_types::OneofDescriptorProto {
            name: Some("choice".to_string()),
            options: None,
        }],
        options: Some(prost_types::MessageOptions {
            deprecated: Some(true),
            ..prost_types::MessageOptions::default()
        }),
        reserved_name: vec!["old".to_string()],
        ..prost_types::DescriptorProto::default()
    };
    let descriptor = DescriptorProto {
        nested_type: vec![DescriptorProto {
            encoded: whole_message.encode_to_vec(),
            ..message_descriptor("Inner", vec![])
        }],
        enum_type: vec![EnumDescriptorProto {
            name: Some("Colour".to_string()),
            value: vec![],
            encoded: whole_enum.encode_to_vec(),
        }],
        ..message_descriptor(
            "TestMessage",
            vec![
                field_descriptor("inner", 1, Type::Message, Some("Inner")),
                field_descriptor("colour", 2, Type::Enum, Some("Colour")),
            ],
        )
    };
    let mut buffer: &[u8] = &[10, 0, 16, 0];
    let fields = decode_message(&mut buffer, &descriptor, &no_files()).unwrap();
    match &fields[0].data {
        ProtobufFieldData::Message(_, found) => assert_eq!(
            prost_types::DescriptorProto::decode(found.encoded.as_slice()).unwrap(),
            whole_message
        ),
        data => panic!("unexpected {:?}", data),
    }
    match &fields[1].data {
        ProtobufFieldData::Enum(_, found) => assert_eq!(
            prost_types::EnumDescriptorProto::decode(found.encoded.as_slice()).unwrap(),
            whole_enum
        ),
        data => panic!("unexpected {:?}", data),
    }
}
