//! Decoder for encoded Protobuf messages using the descriptors
use crate::descriptor::{
    declared_type, enum_of, field_of, find_embedded_message, find_enum_type, find_field_descriptor,
    message_of, DescriptorProto, DescriptorView, FieldDescriptorProto, FieldDescriptorView,
    FileDescriptorSet, Type,
};
use crate::field::{FieldDataView, FieldView};
pub use crate::field::{ProtobufField, ProtobufFieldData};
use crate::text::{debug_form, debug_text, decimal, push_decimal};
use crate::wire::{
    copy_to_bytes, decode_error_text, decode_failure, decode_key, decode_varint,
    describe_decode_error, encode_varint, field_key, get_i32_le, get_i64_le,
    get_u32, get_u32_le, get_u64, get_u64_le, key_failure, le_bytes, le_value, lemma_key_length,
    lemma_le_bytes_of_value, lemma_varint_length, signed_32, signed_64, to_le_bytes, to_signed_32,
    to_signed_64, to_unsigned_32, varint, varint_bytes, zigzag, zigzag_32, zigzag_64, WireType,
};
use std::cmp::Ordering;
use vstd::prelude::*;
use vstd::utf8::{decode_utf8, valid_utf8};

verus! {

#[verifier::external_type_specification]
#[verifier::external_body]
pub struct ExUtf8Error(std::str::Utf8Error);

/// The text that `Display` gives for an error in UTF-8.
pub uninterp spec fn utf8_error_text(error: std::str::Utf8Error) -> Seq<char>;

/// `std::str::Utf8Error` as `Display` writes it. What the text is is left to the name.
#[verifier::external_body]
fn describe_utf8_error(error: &std::str::Utf8Error) -> (r: String)
    ensures
        r@ == utf8_error_text(*error),
{
    error.to_string()
}

/// The text of the error that `from_utf8` gives for bytes that are not valid UTF-8.
pub uninterp spec fn utf8_failure(bytes: Seq<u8>) -> Seq<char>;

/// `std::str::from_utf8`: the text that the bytes are the UTF-8 form of. It fails where they are
/// not valid UTF-8. What the error says is left to the name.
pub assume_specification[ std::str::from_utf8 ](v: &[u8]) -> (r: Result<
    &str,
    std::str::Utf8Error,
>)
    ensures
        r is Ok <==> valid_utf8(v@),
        r matches Ok(text) ==> text@ == decode_utf8(v@),
        r matches Err(error) ==> utf8_error_text(error) == utf8_failure(v@),
;

/// Why a message could not be decoded.
#[derive(Debug, PartialEq)]
pub enum MessageError {
    /// There is no valid field key where one must start
    Key(prost::DecodeError),
    /// There is no valid varint where one must start
    Varint(prost::DecodeError),
    /// A string field is not valid UTF-8
    Utf8(std::str::Utf8Error),
    /// The message does not declare the enum of a field
    EnumNotFound { named_type: Option<String>, field_num: u32 },
    /// Neither the message nor the files declare the message type of a field
    MessageNotFound { named_type: Option<String>, field_num: u32 },
    /// Fewer bytes remain than the length of a field
    InsufficientData { remaining: usize, length: u64, field_num: u32 },
    /// Fields with this wire type are not supported
    UnsupportedWireType(WireType),
}

/// A decoding error as mathematical values, with its text in the place of an outside error.
pub ghost enum ErrorView {
    Key(Seq<char>),
    Varint(Seq<char>),
    Utf8(Seq<char>),
    EnumNotFound { named_type: Option<Seq<char>>, field_num: u32 },
    MessageNotFound { named_type: Option<Seq<char>>, field_num: u32 },
    InsufficientData { remaining: nat, length: u64, field_num: u32 },
    UnsupportedWireType(WireType),
}

impl View for MessageError {
    type V = ErrorView;

    open spec fn view(&self) -> ErrorView {
        match *self {
            MessageError::Key(error) => ErrorView::Key(decode_error_text(error)),
            MessageError::Varint(error) => ErrorView::Varint(decode_error_text(error)),
            MessageError::Utf8(error) => ErrorView::Utf8(utf8_error_text(error)),
            MessageError::EnumNotFound { named_type, field_num } => ErrorView::EnumNotFound {
                named_type: named_type.deep_view(),
                field_num,
            },
            MessageError::MessageNotFound { named_type, field_num } => ErrorView::MessageNotFound {
                named_type: named_type.deep_view(),
                field_num,
            },
            MessageError::InsufficientData { remaining, length, field_num } => {
                ErrorView::InsufficientData { remaining: remaining as nat, length, field_num }
            },
            MessageError::UnsupportedWireType(wire_type) => ErrorView::UnsupportedWireType(
                wire_type,
            ),
        }
    }
}

/// The text of a decoding error, where `cause` is that of the outside error for those that have
/// one, and `named_type` the form of the type name for those that give one.
pub open spec fn error_text(
    error: ErrorView,
    cause: Seq<char>,
    named_type: Seq<char>,
) -> Seq<char> {
    match error {
        ErrorView::Key(_) => cause,
        ErrorView::Varint(_) => cause,
        ErrorView::Utf8(_) => cause,
        ErrorView::EnumNotFound { field_num, .. } => "Did not find the enum "@ + named_type
            + " for the field "@ + decimal(field_num as nat) + " in the Protobuf descriptor"@,
        ErrorView::MessageNotFound { field_num, .. } => "Did not find the embedded message "@
            + named_type + " for the field "@ + decimal(field_num as nat)
            + " in the Protobuf descriptor"@,
        ErrorView::InsufficientData { remaining, length, field_num } =>
            "Insufficient data remaining ("@ + decimal(remaining) + " bytes) to read "@ + decimal(
            length as nat,
        ) + " bytes for field "@ + decimal(field_num as nat),
        ErrorView::UnsupportedWireType(wire_type) => "Messages with "@ + wire_type.spec_name()
            + " wire type fields are not supported"@,
    }
}

/// The name of the type that a decoding error gives, if it gives one.
pub open spec fn error_type(error: ErrorView) -> Option<Seq<char>> {
    match error {
        ErrorView::EnumNotFound { named_type, .. } => named_type,
        ErrorView::MessageNotFound { named_type, .. } => named_type,
        _ => None,
    }
}

/// The text of the outside error of a decoding error, empty where it has none.
pub open spec fn error_cause(error: ErrorView) -> Seq<char> {
    match error {
        ErrorView::Key(cause) => cause,
        ErrorView::Varint(cause) => cause,
        ErrorView::Utf8(cause) => cause,
        _ => Seq::empty(),
    }
}

impl MessageError {
    /// The text of the error, where `cause` is that of the outside error for those that have one,
    /// and `named_type` the form of the type name for those that give one.
    pub fn describe_with(&self, cause: &str, named_type: &str) -> (r: String)
        ensures
            r@ == error_text(self@, cause@, named_type@),
    {
        let mut text = String::new();
        match self {
            MessageError::Key(_) => text.append(cause),
            MessageError::Varint(_) => text.append(cause),
            MessageError::Utf8(_) => text.append(cause),
            MessageError::EnumNotFound { field_num, .. } => {
                text.append("Did not find the enum ");
                text.append(named_type);
                text.append(" for the field ");
                push_decimal(&mut text, *field_num as u64);
                text.append(" in the Protobuf descriptor");
            },
            MessageError::MessageNotFound { field_num, .. } => {
                text.append("Did not find the embedded message ");
                text.append(named_type);
                text.append(" for the field ");
                push_decimal(&mut text, *field_num as u64);
                text.append(" in the Protobuf descriptor");
            },
            MessageError::InsufficientData { remaining, length, field_num } => {
                text.append("Insufficient data remaining (");
                push_decimal(&mut text, *remaining as u64);
                text.append(" bytes) to read ");
                push_decimal(&mut text, *length);
                text.append(" bytes for field ");
                push_decimal(&mut text, *field_num as u64);
            },
            MessageError::UnsupportedWireType(wire_type) => {
                text.append("Messages with ");
                text.append(wire_type.name());
                text.append(" wire type fields are not supported");
            },
        }
        assert(text@ =~= error_text(self@, cause@, named_type@));
        text
    }

    /// The text of the error.
    pub fn describe(&self) -> (r: String)
        ensures
            r@ == error_text(self@, error_cause(self@), debug_text(error_type(self@))),
    {
        let cause = match self {
            MessageError::Key(error) => describe_decode_error(error),
            MessageError::Varint(error) => describe_decode_error(error),
            MessageError::Utf8(error) => describe_utf8_error(error),
            _ => String::new(),
        };
        let named_type = match self {
            MessageError::EnumNotFound { named_type, .. } => debug_form(named_type),
            MessageError::MessageNotFound { named_type, .. } => debug_form(named_type),
            _ => debug_form(&None),
        };
        self.describe_with(cause.as_str(), named_type.as_str())
    }
}

/// What reading the payload of one field comes to: its data and the bytes after it, an error, or
/// a payload that the buffer ends in the middle of.
pub ghost enum Payload {
    Data(FieldDataView, Seq<u8>),
    Failed(ErrorView),
    Truncated,
}

/// What decoding a message comes to: its fields in the order of the wire, an error, or a payload
/// that the buffer ends in the middle of.
pub ghost enum Outcome {
    Fields(Seq<FieldView>),
    Failed(ErrorView),
    Truncated,
}

/// The error for bytes that do not start with a varint.
pub open spec fn no_varint() -> ErrorView {
    ErrorView::Varint(decode_failure("invalid varint"@))
}

/// The data of a varint field. Types that are not written as varints leave the value unknown.
pub open spec fn varint_data(
    value: u64,
    field: FieldDescriptorView,
    field_num: u32,
    message: DescriptorView,
) -> Result<FieldDataView, ErrorView> {
    match declared_type(field.field_type) {
        Type::Int64 => Ok(FieldDataView::Integer64(signed_64(value as nat))),
        Type::Uint64 => Ok(FieldDataView::UInteger64(value)),
        Type::Int32 => Ok(FieldDataView::Integer32(signed_32(value as nat))),
        Type::Bool => Ok(FieldDataView::Boolean(value > 0)),
        Type::Uint32 => Ok(FieldDataView::UInteger32((value % 0x1_0000_0000) as u32)),
        Type::Enum => match enum_of(message, field.named_type) {
            Some(descriptor) => Ok(FieldDataView::Enum(signed_32(value as nat), descriptor)),
            None => Err(ErrorView::EnumNotFound { named_type: field.named_type, field_num }),
        },
        Type::Sint32 => Ok(
            FieldDataView::Integer32(zigzag((value % 0x1_0000_0000) as nat) as i32),
        ),
        Type::Sint64 => Ok(FieldDataView::Integer64(zigzag(value as nat) as i64)),
        _ => Ok(FieldDataView::Unknown(le_bytes(value as nat, 8))),
    }
}

/// The data of a field of eight bytes. Types of other widths leave the bytes unknown.
pub open spec fn fixed_64_data(bytes: Seq<u8>, field_type: Type) -> FieldDataView {
    match field_type {
        Type::Double => FieldDataView::Double(le_value(bytes) as u64),
        Type::Fixed64 => FieldDataView::UInteger64(le_value(bytes) as u64),
        Type::Sfixed64 => FieldDataView::Integer64(signed_64(le_value(bytes))),
        _ => FieldDataView::Unknown(bytes),
    }
}

/// The data of a field of four bytes. Types of other widths leave the bytes unknown.
pub open spec fn fixed_32_data(bytes: Seq<u8>, field_type: Type) -> FieldDataView {
    match field_type {
        Type::Float => FieldDataView::Float(le_value(bytes) as u32),
        Type::Fixed32 => FieldDataView::UInteger32(le_value(bytes) as u32),
        Type::Sfixed32 => FieldDataView::Integer32(signed_32(le_value(bytes))),
        _ => FieldDataView::Unknown(bytes),
    }
}

/// The data of a length delimited field. Types that are not written with a length leave the
/// bytes unknown, behind their length.
pub open spec fn delimited_data(
    length: u64,
    bytes: Seq<u8>,
    field: FieldDescriptorView,
    field_num: u32,
    message: DescriptorView,
    files: Seq<Seq<DescriptorView>>,
) -> Result<FieldDataView, ErrorView> {
    match declared_type(field.field_type) {
        Type::String => if valid_utf8(bytes) {
            Ok(FieldDataView::String(decode_utf8(bytes)))
        } else {
            Err(ErrorView::Utf8(utf8_failure(bytes)))
        },
        Type::Message => match message_of(message, field.named_type, files) {
            Some(descriptor) => Ok(FieldDataView::Message(bytes, descriptor)),
            None => Err(ErrorView::MessageNotFound { named_type: field.named_type, field_num }),
        },
        Type::Bytes => Ok(FieldDataView::Bytes(bytes)),
        _ => Ok(FieldDataView::Unknown(varint_bytes(length as nat) + bytes)),
    }
}

/// The number of bytes that a length asks for: what is left of it in an index of memory.
pub open spec fn byte_count(length: u64) -> nat {
    (length as usize) as nat
}

/// The payload of a field that the descriptor knows, at the front of `bytes`.
pub open spec fn known_payload(
    bytes: Seq<u8>,
    wire_type: WireType,
    field: FieldDescriptorView,
    field_num: u32,
    message: DescriptorView,
    files: Seq<Seq<DescriptorView>>,
) -> Payload {
    match wire_type {
        WireType::Varint => match varint(bytes) {
            Some((value, size)) => match varint_data(value as u64, field, field_num, message) {
                Ok(data) => Payload::Data(data, bytes.skip(size as int)),
                Err(error) => Payload::Failed(error),
            },
            None => Payload::Failed(no_varint()),
        },
        WireType::SixtyFourBit => if bytes.len() >= 8 {
            Payload::Data(
                fixed_64_data(bytes.take(8), declared_type(field.field_type)),
                bytes.skip(8),
            )
        } else {
            Payload::Truncated
        },
        WireType::LengthDelimited => match varint(bytes) {
            Some((value, size)) => {
                let length = value as u64;
                let rest = bytes.skip(size as int);
                let count = byte_count(length);
                if rest.len() >= count {
                    match delimited_data(
                        length,
                        rest.take(count as int),
                        field,
                        field_num,
                        message,
                        files,
                    ) {
                        Ok(data) => Payload::Data(data, rest.skip(count as int)),
                        Err(error) => Payload::Failed(error),
                    }
                } else {
                    Payload::Failed(
                        ErrorView::InsufficientData { remaining: rest.len(), length, field_num },
                    )
                }
            },
            None => Payload::Failed(no_varint()),
        },
        WireType::ThirtyTwoBit => if bytes.len() >= 4 {
            Payload::Data(
                fixed_32_data(bytes.take(4), declared_type(field.field_type)),
                bytes.skip(4),
            )
        } else {
            Payload::Truncated
        },
        _ => Payload::Failed(ErrorView::UnsupportedWireType(wire_type)),
    }
}

/// The payload of a field that the descriptor does not know, at the front of `bytes`: a varint
/// as its eight bytes, least significant first; fixed width bytes in the reverse order; delimited
/// bytes behind their length.
pub open spec fn unknown_payload(bytes: Seq<u8>, wire_type: WireType) -> Payload {
    match wire_type {
        WireType::Varint => match varint(bytes) {
            Some((value, size)) => Payload::Data(
                FieldDataView::Unknown(le_bytes(value, 8)),
                bytes.skip(size as int),
            ),
            None => Payload::Failed(no_varint()),
        },
        WireType::SixtyFourBit => if bytes.len() >= 8 {
            Payload::Data(FieldDataView::Unknown(bytes.take(8).reverse()), bytes.skip(8))
        } else {
            Payload::Truncated
        },
        WireType::LengthDelimited => match varint(bytes) {
            Some((value, size)) => {
                let rest = bytes.skip(size as int);
                let count = byte_count(value as u64);
                if rest.len() >= count {
                    Payload::Data(
                        FieldDataView::Unknown(varint_bytes(value) + rest.take(count as int)),
                        rest.skip(count as int),
                    )
                } else {
                    Payload::Truncated
                }
            },
            None => Payload::Failed(no_varint()),
        },
        WireType::ThirtyTwoBit => if bytes.len() >= 4 {
            Payload::Data(FieldDataView::Unknown(bytes.take(4).reverse()), bytes.skip(4))
        } else {
            Payload::Truncated
        },
        _ => Payload::Failed(ErrorView::UnsupportedWireType(wire_type)),
    }
}

/// The payload of the field `field_num` of a message, at the front of `bytes`.
pub open spec fn field_payload(
    bytes: Seq<u8>,
    wire_type: WireType,
    field_num: u32,
    message: DescriptorView,
    files: Seq<Seq<DescriptorView>>,
) -> Payload {
    match field_of(message, field_num as i32) {
        Some(field) => known_payload(bytes, wire_type, field, field_num, message, files),
        None => unknown_payload(bytes, wire_type),
    }
}

/// A payload is read from the front of the bytes.
pub proof fn lemma_payload_suffix(
    bytes: Seq<u8>,
    wire_type: WireType,
    field_num: u32,
    message: DescriptorView,
    files: Seq<Seq<DescriptorView>>,
)
    ensures
        field_payload(bytes, wire_type, field_num, message, files) matches Payload::Data(_, rest)
            ==> rest.is_suffix_of(bytes),
{
    lemma_varint_length(bytes, 10);
}

/// The outcome with `fields` in front.
pub open spec fn after_fields(fields: Seq<FieldView>, outcome: Outcome) -> Outcome {
    match outcome {
        Outcome::Fields(more) => Outcome::Fields(fields + more),
        _ => outcome,
    }
}

/// The outcome of decoding a message: field after field to the end of the bytes, each a key and
/// then a payload, up to the first that cannot be read.
pub open spec fn wire_fields(
    bytes: Seq<u8>,
    message: DescriptorView,
    files: Seq<Seq<DescriptorView>>,
) -> Outcome
    decreases bytes.len(),
{
    if bytes.len() == 0 {
        Outcome::Fields(seq![])
    } else {
        match field_key(bytes) {
            Some((field_num, wire_type, size)) => {
                let after_key = bytes.skip(size as int);
                match field_payload(after_key, wire_type, field_num, message, files) {
                    Payload::Data(data, rest) => {
                        proof {
                            lemma_key_length(bytes);
                            lemma_payload_suffix(after_key, wire_type, field_num, message, files);
                        }
                        after_fields(
                            seq![FieldView { field_num, wire_type, data }],
                            wire_fields(rest, message, files),
                        )
                    },
                    Payload::Failed(error) => Outcome::Failed(error),
                    Payload::Truncated => Outcome::Truncated,
                }
            },
            None => Outcome::Failed(ErrorView::Key(decode_failure(key_failure(bytes)))),
        }
    }
}

/// The fields with the number `field_num`, in their order.
pub open spec fn with_number(fields: Seq<FieldView>, field_num: u32) -> Seq<FieldView> {
    fields.filter(|field: FieldView| field.field_num == field_num)
}

/// `sorted` holds the fields by ascending number, those with the same number in the order that
/// they have in `fields`.
pub open spec fn stably_sorted(fields: Seq<FieldView>, sorted: Seq<FieldView>) -> bool {
    &&& forall|i: int, j: int|
        0 <= i <= j < sorted.len() ==> sorted[i].field_num <= sorted[j].field_num
    &&& forall|field_num: u32| #[trigger]
        with_number(sorted, field_num) == with_number(fields, field_num)
}

/// The fields as mathematical values.
pub open spec fn field_views(fields: Seq<ProtobufField>) -> Seq<FieldView> {
    fields.map_values(|field: ProtobufField| field@)
}

/// Why the payload of a field could not be read.
enum Failure {
    Error(MessageError),
    Truncated,
}

/// `data` and the bytes left in `rest` are what reading a payload comes to.
spec fn reads(r: Result<ProtobufFieldData, Failure>, rest: Seq<u8>, payload: Payload) -> bool {
    match r {
        Ok(data) => payload == Payload::Data(data@, rest),
        Err(Failure::Error(error)) => payload == Payload::Failed(error@),
        Err(Failure::Truncated) => payload is Truncated,
    }
}

/// The data of a varint field.
fn read_varint_data(
    value: u64,
    field: &FieldDescriptorProto,
    field_num: u32,
    descriptor: &DescriptorProto,
) -> (r: Result<ProtobufFieldData, MessageError>)
    ensures
        match r {
            Ok(data) => varint_data(value, field@, field_num, descriptor@) == Ok::<
                FieldDataView,
                ErrorView,
            >(data@),
            Err(error) => varint_data(value, field@, field_num, descriptor@) == Err::<
                FieldDataView,
                ErrorView,
            >(error@),
        },
{
    Ok(
        match field.declared_type() {
            Type::Int64 => ProtobufFieldData::Integer64(to_signed_64(value)),
            Type::Uint64 => ProtobufFieldData::UInteger64(value),
            Type::Int32 => ProtobufFieldData::Integer32(to_signed_32(value)),
            Type::Bool => ProtobufFieldData::Boolean(value > 0),
            Type::Uint32 => ProtobufFieldData::UInteger32(to_unsigned_32(value)),
            Type::Enum => match find_enum_type(&field.named_type, descriptor) {
                Some(enum_proto) => ProtobufFieldData::Enum(to_signed_32(value), enum_proto),
                None => {
                    return Err(
                        MessageError::EnumNotFound {
                            named_type: field.named_type.clone(),
                            field_num,
                        },
                    );
                },
            },
            Type::Sint32 => ProtobufFieldData::Integer32(zigzag_32(to_unsigned_32(value))),
            Type::Sint64 => ProtobufFieldData::Integer64(zigzag_64(value)),
            _ => ProtobufFieldData::Unknown(to_le_bytes(value, 8)),
        },
    )
}

/// The bytes behind their length.
fn with_length(length: u64, bytes: &Vec<u8>) -> (r: Vec<u8>)
    ensures
        r@ == varint_bytes(length as nat) + bytes@,
{
    let mut buffer = encode_varint(length);
    buffer.extend_from_slice(bytes.as_slice());
    assert(buffer@ =~= varint_bytes(length as nat) + bytes@);
    buffer
}

/// The data of a length delimited field.
fn read_delimited_data(
    length: u64,
    bytes: Vec<u8>,
    field: &FieldDescriptorProto,
    field_num: u32,
    descriptor: &DescriptorProto,
    descriptors: &FileDescriptorSet,
) -> (r: Result<ProtobufFieldData, MessageError>)
    ensures
        ({
            let data = delimited_data(
                length,
                bytes@,
                field@,
                field_num,
                descriptor@,
                descriptors@,
            );
            match r {
                Ok(found) => data == Ok::<FieldDataView, ErrorView>(found@),
                Err(error) => data == Err::<FieldDataView, ErrorView>(error@),
            }
        }),
{
    match field.declared_type() {
        Type::String => match std::str::from_utf8(bytes.as_slice()) {
            Ok(text) => Ok(ProtobufFieldData::String(text.to_owned())),
            Err(error) => Err(MessageError::Utf8(error)),
        },
        Type::Message => match find_embedded_message(&field.named_type, descriptor, descriptors) {
            Some(message_proto) => Ok(ProtobufFieldData::Message(bytes, message_proto)),
            None => Err(
                MessageError::MessageNotFound { named_type: field.named_type.clone(), field_num },
            ),
        },
        Type::Bytes => Ok(ProtobufFieldData::Bytes(bytes)),
        _ => Ok(ProtobufFieldData::Unknown(with_length(length, &bytes))),
    }
}

/// Reads the payload of a field that the descriptor knows.
#[verifier::rlimit(40)]
fn read_known_payload(
    buffer: &mut &[u8],
    wire_type: WireType,
    field: &FieldDescriptorProto,
    field_num: u32,
    descriptor: &DescriptorProto,
    descriptors: &FileDescriptorSet,
) -> (r: Result<ProtobufFieldData, Failure>)
    ensures
        reads(
            r,
            final(buffer)@,
            known_payload(
                old(buffer)@,
                wire_type,
                field@,
                field_num,
                descriptor@,
                descriptors@,
            ),
        ),
        final(buffer)@.is_suffix_of(old(buffer)@),
{
    match wire_type {
        WireType::Varint => match decode_varint(buffer) {
            Ok(value) => match read_varint_data(value, field, field_num, descriptor) {
                Ok(data) => Ok(data),
                Err(error) => Err(Failure::Error(error)),
            },
            Err(error) => Err(Failure::Error(MessageError::Varint(error))),
        },
        WireType::SixtyFourBit => {
            if buffer.len() < 8 {
                return Err(Failure::Truncated);
            }
            Ok(
                match field.declared_type() {
                    Type::Double => ProtobufFieldData::Double(get_u64_le(buffer)),
                    Type::Fixed64 => ProtobufFieldData::UInteger64(get_u64_le(buffer)),
                    Type::Sfixed64 => ProtobufFieldData::Integer64(get_i64_le(buffer)),
                    _ => {
                        proof {
                            lemma_le_bytes_of_value(buffer@.take(8));
                        }
                        let value: u64 = get_u64_le(buffer);
                        ProtobufFieldData::Unknown(to_le_bytes(value, 8))
                    },
                },
            )
        },
        WireType::LengthDelimited => match decode_varint(buffer) {
            Ok(length) => {
                let count: usize = #[verifier::truncate]
                (length as usize);
                if buffer.len() < count {
                    return Err(
                        Failure::Error(
                            MessageError::InsufficientData {
                                remaining: buffer.len(),
                                length,
                                field_num,
                            },
                        ),
                    );
                }
                let bytes = copy_to_bytes(buffer, count);
                match read_delimited_data(
                    length,
                    bytes,
                    field,
                    field_num,
                    descriptor,
                    descriptors,
                ) {
                    Ok(data) => Ok(data),
                    Err(error) => Err(Failure::Error(error)),
                }
            },
            Err(error) => Err(Failure::Error(MessageError::Varint(error))),
        },
        WireType::ThirtyTwoBit => {
            if buffer.len() < 4 {
                return Err(Failure::Truncated);
            }
            Ok(
                match field.declared_type() {
                    Type::Float => ProtobufFieldData::Float(get_u32_le(buffer)),
                    Type::Fixed32 => ProtobufFieldData::UInteger32(get_u32_le(buffer)),
                    Type::Sfixed32 => ProtobufFieldData::Integer32(get_i32_le(buffer)),
                    _ => {
                        proof {
                            lemma_le_bytes_of_value(buffer@.take(4));
                        }
                        let value: u32 = get_u32_le(buffer);
                        ProtobufFieldData::Unknown(to_le_bytes(value as u64, 4))
                    },
                },
            )
        },
        _ => Err(Failure::Error(MessageError::UnsupportedWireType(wire_type))),
    }
}

/// Reads the payload of a field that the descriptor does not know.
fn read_unknown_payload(buffer: &mut &[u8], wire_type: WireType) -> (r: Result<
    ProtobufFieldData,
    Failure,
>)
    ensures
        reads(r, final(buffer)@, unknown_payload(old(buffer)@, wire_type)),
        final(buffer)@.is_suffix_of(old(buffer)@),
{
    let bytes: Vec<u8> = match wire_type {
        WireType::Varint => match decode_varint(buffer) {
            Ok(value) => to_le_bytes(value, 8),
            Err(error) => {
                return Err(Failure::Error(MessageError::Varint(error)));
            },
        },
        WireType::SixtyFourBit => {
            if buffer.len() < 8 {
                return Err(Failure::Truncated);
            }
            proof {
                lemma_le_bytes_of_value(buffer@.take(8).reverse());
            }
            to_le_bytes(get_u64(buffer), 8)
        },
        WireType::LengthDelimited => match decode_varint(buffer) {
            Ok(length) => {
                let count: usize = #[verifier::truncate]
                (length as usize);
                if buffer.len() < count {
                    return Err(Failure::Truncated);
                }
                with_length(length, &copy_to_bytes(buffer, count))
            },
            Err(error) => {
                return Err(Failure::Error(MessageError::Varint(error)));
            },
        },
        WireType::ThirtyTwoBit => {
            if buffer.len() < 4 {
                return Err(Failure::Truncated);
            }
            proof {
                lemma_le_bytes_of_value(buffer@.take(4).reverse());
            }
            to_le_bytes(get_u32(buffer) as u64, 4)
        },
        _ => {
            return Err(Failure::Error(MessageError::UnsupportedWireType(wire_type)));
        },
    };
    Ok(ProtobufFieldData::Unknown(bytes))
}

/// Reads the payload of the field `field_num` of a message.
fn read_payload(
    buffer: &mut &[u8],
    wire_type: WireType,
    field_num: u32,
    descriptor: &DescriptorProto,
    descriptors: &FileDescriptorSet,
) -> (r: Result<ProtobufFieldData, Failure>)
    requires
        field_num <= i32::MAX,
    ensures
        reads(
            r,
            final(buffer)@,
            field_payload(old(buffer)@, wire_type, field_num, descriptor@, descriptors@),
        ),
        final(buffer)@.is_suffix_of(old(buffer)@),
{
    match find_field_descriptor(field_num as i32, descriptor) {
        Ok(field_descriptor) => read_known_payload(
            buffer,
            wire_type,
            &field_descriptor,
            field_num,
            descriptor,
            descriptors,
        ),
        Err(_) => read_unknown_payload(buffer, wire_type),
    }
}

/// The order of two field numbers.
pub open spec fn number_order(a: u32, b: u32) -> Ordering {
    if a < b {
        Ordering::Less
    } else if a > b {
        Ordering::Greater
    } else {
        Ordering::Equal
    }
}

/// Compares two fields by their numbers.
fn by_number(a: &ProtobufField, b: &ProtobufField) -> (r: Ordering)
    ensures
        r == number_order(a.field_num, b.field_num),
        r == (if a.field_num < b.field_num {
            Ordering::Less
        } else if a.field_num == b.field_num {
            Ordering::Equal
        } else {
            Ordering::Greater
        }),
{
    if a.field_num < b.field_num {
        Ordering::Less
    } else if a.field_num == b.field_num {
        Ordering::Equal
    } else {
        Ordering::Greater
    }
}

/// `Itertools::sorted_by`: the fields by ascending number. The sort is stable: fields with the
/// same number keep their order.
#[verifier::external_body]
fn sorted_by_number(fields: Vec<ProtobufField>) -> (r: Vec<ProtobufField>)
    ensures
        stably_sorted(field_views(fields@), field_views(r@)),
{
    itertools::Itertools::sorted_by(fields.into_iter(), |a, b| by_number(a, b)).collect()
}

/// Decodes the Protobuf message using the descriptors. There is no result where the buffer ends
/// in the middle of a payload whose end it must hold: that of a field of fixed width, or of a
/// length delimited field that the descriptor does not know.
#[verifier::rlimit(40)]
pub fn checked_decode_message(
    buffer: &mut &[u8],
    descriptor: &DescriptorProto,
    descriptors: &FileDescriptorSet,
) -> (r: Option<Result<Vec<ProtobufField>, MessageError>>)
    ensures
        match r {
            Some(Ok(fields)) => {
                &&& wire_fields(old(buffer)@, descriptor@, descriptors@) matches Outcome::Fields(
                    in_order,
                )
                &&& stably_sorted(in_order, field_views(fields@))
                &&& final(buffer)@.len() == 0
            },
            Some(Err(error)) => wire_fields(old(buffer)@, descriptor@, descriptors@)
                == Outcome::Failed(error@),
            None => wire_fields(old(buffer)@, descriptor@, descriptors@) is Truncated,
        },
        final(buffer)@.is_suffix_of(old(buffer)@),
{
    let mut fields: Vec<ProtobufField> = Vec::new();
    assert(field_views(fields@) =~= seq![]);
    proof {
        let outcome = wire_fields(buffer@, descriptor@, descriptors@);
        if outcome is Fields {
            assert(seq![] + outcome->Fields_0 =~= outcome->Fields_0);
        }
    }
    while buffer.len() > 0
        invariant
            buffer@.is_suffix_of(old(buffer)@),
            wire_fields(old(buffer)@, descriptor@, descriptors@) == after_fields(
                field_views(fields@),
                wire_fields(buffer@, descriptor@, descriptors@),
            ),
        decreases buffer@.len(),
    {
        proof {
            lemma_key_length(buffer@);
        }
        let (field_num, wire_type) = match decode_key(buffer) {
            Ok(key) => key,
            Err(error) => {
                return Some(Err(MessageError::Key(error)));
            },
        };
        match read_payload(buffer, wire_type, field_num, descriptor, descriptors) {
            Ok(data) => {
                let ghost before = field_views(fields@);
                let ghost field = FieldView { field_num, wire_type, data: data@ };
                fields.push(ProtobufField { field_num, wire_type, data });
                proof {
                    assert(field_views(fields@) =~= before.push(field));
                    let outcome = wire_fields(buffer@, descriptor@, descriptors@);
                    if outcome is Fields {
                        let more = outcome->Fields_0;
                        assert(before.push(field) + more =~= before + (seq![field] + more));
                    }
                }
            },
            Err(Failure::Error(error)) => {
                return Some(Err(error));
            },
            Err(Failure::Truncated) => {
                return None;
            },
        }
    }
    assert(field_views(fields@) + seq![] =~= field_views(fields@));
    Some(Ok(sorted_by_number(fields)))
}

/// Decodes the Protobuf message using the descriptors
pub fn decode_message(
    buffer: &mut &[u8],
    descriptor: &DescriptorProto,
    descriptors: &FileDescriptorSet,
) -> (r: Result<Vec<ProtobufField>, MessageError>)
    requires
        !(wire_fields(old(buffer)@, descriptor@, descriptors@) is Truncated),
    ensures
        match r {
            Ok(fields) => {
                &&& wire_fields(old(buffer)@, descriptor@, descriptors@) matches Outcome::Fields(
                    in_order,
                )
                &&& stably_sorted(in_order, field_views(fields@))
                &&& final(buffer)@.len() == 0
            },
            Err(error) => wire_fields(old(buffer)@, descriptor@, descriptors@) == Outcome::Failed(
                error@,
            ),
        },
        final(buffer)@.is_suffix_of(old(buffer)@),
{
    checked_decode_message(buffer, descriptor, descriptors).unwrap()
}

} // verus!
