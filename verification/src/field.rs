//! Decoded fields, their default values and their texts.
use crate::descriptor::{
    first_where, same_bytes, text_or_default, text_or_empty, DefaultValueView, DescriptorProto,
    DescriptorView, EnumDescriptorProto, EnumDescriptorView, EnumValueView, FieldDescriptorProto,
};
use crate::escape::{escaped, lemma_escaped_read_back, unescape, unescaped};
use crate::text::{
    as_hex, decimal, hex, lemma_decimal_read_back, lemma_signed_decimal_read_back, parse_i32,
    parse_i64, parse_u32, parse_u64, parsed_signed, parsed_unsigned, push_decimal,
    push_signed_decimal, same_text, signed_decimal,
};
use crate::wire::{
    bits_32, bits_64, le_bytes, le_value, lemma_le_read_back_32, lemma_le_read_back_64, signed_32,
    signed_64, to_le_bytes, WireType,
};
use vstd::prelude::*;
use vstd::std_specs::cmp::PartialEqSpecImpl;
use vstd::utf8::encode_utf8;

verus! {

/// Decoded Protobuf field
#[derive(Debug)]
pub struct ProtobufField {
    /// Field number
    pub field_num: u32,
    /// Wire type for the field
    pub wire_type: WireType,
    /// Field data
    pub data: ProtobufFieldData,
}

/// Decoded Protobuf field data
#[derive(Debug)]
pub enum ProtobufFieldData {
    /// String value
    String(String),
    /// Boolean value
    Boolean(bool),
    /// Unsigned 32 bit integer
    UInteger32(u32),
    /// Signed 32 bit integer
    Integer32(i32),
    /// Unsigned 64 bit integer
    UInteger64(u64),
    /// Signed 64 bit integer
    Integer64(i64),
    /// The bits of a 32 bit floating point number
    Float(u32),
    /// The bits of a 64 bit floating point number
    Double(u64),
    /// Array of bytes
    Bytes(Vec<u8>),
    /// Enum value
    Enum(i32, EnumDescriptorProto),
    /// Embedded message
    Message(Vec<u8>, DescriptorProto),
    /// For field data that does not match the descriptor
    Unknown(Vec<u8>),
}

/// Field data as mathematical values.
pub ghost enum FieldDataView {
    String(Seq<char>),
    Boolean(bool),
    UInteger32(u32),
    Integer32(i32),
    UInteger64(u64),
    Integer64(i64),
    Float(u32),
    Double(u64),
    Bytes(Seq<u8>),
    Enum(i32, EnumDescriptorView),
    Message(Seq<u8>, DescriptorView),
    Unknown(Seq<u8>),
}

/// A field as mathematical values.
pub ghost struct FieldView {
    pub field_num: u32,
    pub wire_type: WireType,
    pub data: FieldDataView,
}

impl View for ProtobufFieldData {
    type V = FieldDataView;

    open spec fn view(&self) -> FieldDataView {
        match *self {
            ProtobufFieldData::String(s) => FieldDataView::String(s@),
            ProtobufFieldData::Boolean(b) => FieldDataView::Boolean(b),
            ProtobufFieldData::UInteger32(n) => FieldDataView::UInteger32(n),
            ProtobufFieldData::Integer32(n) => FieldDataView::Integer32(n),
            ProtobufFieldData::UInteger64(n) => FieldDataView::UInteger64(n),
            ProtobufFieldData::Integer64(n) => FieldDataView::Integer64(n),
            ProtobufFieldData::Float(bits) => FieldDataView::Float(bits),
            ProtobufFieldData::Double(bits) => FieldDataView::Double(bits),
            ProtobufFieldData::Bytes(b) => FieldDataView::Bytes(b@),
            ProtobufFieldData::Enum(n, descriptor) => FieldDataView::Enum(n, descriptor@),
            ProtobufFieldData::Message(b, descriptor) => FieldDataView::Message(b@, descriptor@),
            ProtobufFieldData::Unknown(b) => FieldDataView::Unknown(b@),
        }
    }
}

impl View for ProtobufField {
    type V = FieldView;

    open spec fn view(&self) -> FieldView {
        FieldView { field_num: self.field_num, wire_type: self.wire_type, data: self.data@ }
    }
}

/// Whether the bits are those of a 32 bit floating point value that is not a number: all bits of
/// the exponent and some of the fraction are set.
pub open spec fn is_nan_32(bits: u32) -> bool {
    bits % 0x8000_0000 > 0x7f80_0000
}

/// Whether the bits are those of a 64 bit floating point value that is not a number: all bits of
/// the exponent and some of the fraction are set.
pub open spec fn is_nan_64(bits: u64) -> bool {
    bits % 0x8000_0000_0000_0000 > 0x7ff0_0000_0000_0000
}

/// Whether 32 bit floating point numbers with these bits are equal: zero has two signs, and what
/// is not a number is equal to nothing.
pub open spec fn equal_32(a: u32, b: u32) -> bool {
    !is_nan_32(a) && !is_nan_32(b) && (a == b || (a % 0x8000_0000 == 0 && b % 0x8000_0000 == 0))
}

/// Whether 64 bit floating point numbers with these bits are equal: zero has two signs, and what
/// is not a number is equal to nothing.
pub open spec fn equal_64(a: u64, b: u64) -> bool {
    !is_nan_64(a) && !is_nan_64(b) && (a == b || (a % 0x8000_0000_0000_0000 == 0 && b
        % 0x8000_0000_0000_0000 == 0))
}

/// Whether field data is equal: of the same kind, with equal values.
pub open spec fn equal_data(a: FieldDataView, b: FieldDataView) -> bool {
    match (a, b) {
        (FieldDataView::Float(a), FieldDataView::Float(b)) => equal_32(a, b),
        (FieldDataView::Double(a), FieldDataView::Double(b)) => equal_64(a, b),
        _ => a == b,
    }
}

/// Whether fields are equal: with the same number and wire type, and equal data.
pub open spec fn equal_fields(a: FieldView, b: FieldView) -> bool {
    a.field_num == b.field_num && a.wire_type == b.wire_type && equal_data(a.data, b.data)
}

impl PartialEq for ProtobufFieldData {
    fn eq(&self, other: &Self) -> (r: bool) {
        match (self, other) {
            (ProtobufFieldData::String(a), ProtobufFieldData::String(b)) => same_text(
                a.as_str(),
                b.as_str(),
            ),
            (ProtobufFieldData::Boolean(a), ProtobufFieldData::Boolean(b)) => *a == *b,
            (ProtobufFieldData::UInteger32(a), ProtobufFieldData::UInteger32(b)) => *a == *b,
            (ProtobufFieldData::Integer32(a), ProtobufFieldData::Integer32(b)) => *a == *b,
            (ProtobufFieldData::UInteger64(a), ProtobufFieldData::UInteger64(b)) => *a == *b,
            (ProtobufFieldData::Integer64(a), ProtobufFieldData::Integer64(b)) => *a == *b,
            (ProtobufFieldData::Float(a), ProtobufFieldData::Float(b)) => {
                let a_size: u32 = *a % 0x8000_0000;
                let b_size: u32 = *b % 0x8000_0000;
                a_size <= 0x7f80_0000 && b_size <= 0x7f80_0000 && (*a == *b || (a_size == 0
                    && b_size == 0))
            },
            (ProtobufFieldData::Double(a), ProtobufFieldData::Double(b)) => {
                let a_size: u64 = *a % 0x8000_0000_0000_0000;
                let b_size: u64 = *b % 0x8000_0000_0000_0000;
                a_size <= 0x7ff0_0000_0000_0000 && b_size <= 0x7ff0_0000_0000_0000 && (*a == *b || (
                a_size == 0 && b_size == 0))
            },
            (ProtobufFieldData::Bytes(a), ProtobufFieldData::Bytes(b)) => same_bytes(a, b),
            (
                ProtobufFieldData::Enum(a, a_descriptor),
                ProtobufFieldData::Enum(b, b_descriptor),
            ) => *a == *b && *a_descriptor == *b_descriptor,
            (
                ProtobufFieldData::Message(a, a_descriptor),
                ProtobufFieldData::Message(b, b_descriptor),
            ) => same_bytes(a, b) && *a_descriptor == *b_descriptor,
            (ProtobufFieldData::Unknown(a), ProtobufFieldData::Unknown(b)) => same_bytes(a, b),
            _ => false,
        }
    }
}

impl PartialEqSpecImpl for ProtobufFieldData {
    open spec fn obeys_eq_spec() -> bool {
        true
    }

    open spec fn eq_spec(&self, other: &Self) -> bool {
        equal_data(self@, other@)
    }
}

impl PartialEq for ProtobufField {
    fn eq(&self, other: &Self) -> (r: bool) {
        self.field_num == other.field_num && self.wire_type == other.wire_type && self.data
            == other.data
    }
}

impl PartialEqSpecImpl for ProtobufField {
    open spec fn obeys_eq_spec() -> bool {
        true
    }

    open spec fn eq_spec(&self, other: &Self) -> bool {
        equal_fields(self@, other@)
    }
}

impl Clone for ProtobufFieldData {
    fn clone(&self) -> (r: Self)
        ensures
            r@ == self@,
    {
        match self {
            ProtobufFieldData::String(s) => ProtobufFieldData::String(s.clone()),
            ProtobufFieldData::Boolean(b) => ProtobufFieldData::Boolean(*b),
            ProtobufFieldData::UInteger32(n) => ProtobufFieldData::UInteger32(*n),
            ProtobufFieldData::Integer32(n) => ProtobufFieldData::Integer32(*n),
            ProtobufFieldData::UInteger64(n) => ProtobufFieldData::UInteger64(*n),
            ProtobufFieldData::Integer64(n) => ProtobufFieldData::Integer64(*n),
            ProtobufFieldData::Float(bits) => ProtobufFieldData::Float(*bits),
            ProtobufFieldData::Double(bits) => ProtobufFieldData::Double(*bits),
            ProtobufFieldData::Bytes(b) => ProtobufFieldData::Bytes(b.clone()),
            ProtobufFieldData::Enum(n, descriptor) => ProtobufFieldData::Enum(
                *n,
                descriptor.clone(),
            ),
            ProtobufFieldData::Message(b, descriptor) => ProtobufFieldData::Message(
                b.clone(),
                descriptor.clone(),
            ),
            ProtobufFieldData::Unknown(b) => ProtobufFieldData::Unknown(b.clone()),
        }
    }
}

impl Clone for ProtobufField {
    fn clone(&self) -> (r: Self)
        ensures
            r@ == self@,
    {
        ProtobufField {
            field_num: self.field_num,
            wire_type: self.wire_type,
            data: self.data.clone(),
        }
    }
}

/// The name of the kind of data.
pub open spec fn kind_name(data: FieldDataView) -> Seq<char> {
    match data {
        FieldDataView::String(_) => "String"@,
        FieldDataView::Boolean(_) => "Boolean"@,
        FieldDataView::UInteger32(_) => "UInteger32"@,
        FieldDataView::Integer32(_) => "Integer32"@,
        FieldDataView::UInteger64(_) => "UInteger64"@,
        FieldDataView::Integer64(_) => "Integer64"@,
        FieldDataView::Float(_) => "Float"@,
        FieldDataView::Double(_) => "Double"@,
        FieldDataView::Bytes(_) => "Bytes"@,
        FieldDataView::Enum(_, _) => "Enum"@,
        FieldDataView::Message(_, _) => "Message"@,
        FieldDataView::Unknown(_) => "Unknown"@,
    }
}

/// The name of an enum's value: that of the first value with the number, empty where it has no
/// name, and "unknown" where no value has the number.
pub open spec fn enum_value_name(number: i32, descriptor: EnumDescriptorView) -> Seq<char> {
    match first_where(descriptor.value, |value: EnumValueView| value.number == Some(number)) {
        Some(value) => text_or_empty(value.name),
        None => "unknown"@,
    }
}

/// The bytes of field data: numbers in little endian order, the text of strings and the names of
/// enum values in UTF-8, and the bytes of everything else as they are.
pub open spec fn data_bytes(data: FieldDataView) -> Seq<u8> {
    match data {
        FieldDataView::String(s) => encode_utf8(s),
        FieldDataView::Boolean(b) => seq![if b { 1u8 } else { 0u8 }],
        FieldDataView::UInteger32(n) => le_bytes(n as nat, 4),
        FieldDataView::Integer32(n) => le_bytes((n as int % 0x1_0000_0000) as nat, 4),
        FieldDataView::UInteger64(n) => le_bytes(n as nat, 8),
        FieldDataView::Integer64(n) => le_bytes((n as int % 0x1_0000_0000_0000_0000) as nat, 8),
        FieldDataView::Float(bits) => le_bytes(bits as nat, 4),
        FieldDataView::Double(bits) => le_bytes(bits as nat, 8),
        FieldDataView::Bytes(b) => b,
        FieldDataView::Enum(n, descriptor) => encode_utf8(enum_value_name(n, descriptor)),
        FieldDataView::Message(b, _) => b,
        FieldDataView::Unknown(b) => b,
    }
}

/// The value of the same kind that a field has by default. A default that the descriptor gives
/// counts where the kind has a text form, and zero stands in for a text that is no number. The
/// text for a string is the string itself, that for bytes is C escaped.
pub open spec fn default_data(
    data: FieldDataView,
    default: Option<DefaultValueView>,
) -> FieldDataView {
    let text = match default {
        Some(value) => value.text,
        None => Seq::empty(),
    };
    match data {
        FieldDataView::String(_) => FieldDataView::String(text),
        FieldDataView::Boolean(_) => FieldDataView::Boolean(text == "true"@),
        FieldDataView::UInteger32(_) => FieldDataView::UInteger32(
            match parsed_unsigned(text, u32::MAX as nat) {
                Some(n) => n as u32,
                None => 0,
            },
        ),
        FieldDataView::Integer32(_) => FieldDataView::Integer32(default_i32(text)),
        FieldDataView::UInteger64(_) => FieldDataView::UInteger64(
            match parsed_unsigned(text, u64::MAX as nat) {
                Some(n) => n as u64,
                None => 0,
            },
        ),
        FieldDataView::Integer64(_) => FieldDataView::Integer64(
            match parsed_signed(text, i64::MIN as int, i64::MAX as int) {
                Some(n) => n as i64,
                None => 0,
            },
        ),
        FieldDataView::Float(_) => FieldDataView::Float(
            match default {
                Some(DefaultValueView { float: Some(bits), .. }) => bits,
                _ => 0,
            },
        ),
        FieldDataView::Double(_) => FieldDataView::Double(
            match default {
                Some(DefaultValueView { double: Some(bits), .. }) => bits,
                _ => 0,
            },
        ),
        FieldDataView::Bytes(_) => FieldDataView::Bytes(unescaped(text)),
        FieldDataView::Enum(_, descriptor) => FieldDataView::Enum(default_i32(text), descriptor),
        FieldDataView::Message(_, descriptor) => FieldDataView::Message(seq![], descriptor),
        FieldDataView::Unknown(_) => FieldDataView::Unknown(seq![]),
    }
}

/// The 32 bit integer that a text stands for, or zero.
pub open spec fn default_i32(text: Seq<char>) -> i32 {
    match parsed_signed(text, i32::MIN as int, i32::MAX as int) {
        Some(n) => n as i32,
        None => 0,
    }
}

/// The text of bytes: their hexadecimal form, cut off after sixteen bytes.
pub open spec fn bytes_text(bytes: Seq<u8>) -> Seq<char> {
    if bytes.len() <= 16 {
        hex(bytes)
    } else {
        hex(bytes.take(16)) + "... ("@ + decimal(bytes.len()) + " bytes)"@
    }
}

/// The text of field data, where `float_text` is that of the number for the floating point kinds.
pub open spec fn data_text(data: FieldDataView, float_text: Seq<char>) -> Seq<char> {
    match data {
        FieldDataView::String(s) => seq!['"'] + s + seq!['"'],
        FieldDataView::Boolean(b) => if b { "true"@ } else { "false"@ },
        FieldDataView::UInteger32(n) => decimal(n as nat),
        FieldDataView::Integer32(n) => signed_decimal(n as int),
        FieldDataView::UInteger64(n) => decimal(n as nat),
        FieldDataView::Integer64(n) => signed_decimal(n as int),
        FieldDataView::Float(_) => float_text,
        FieldDataView::Double(_) => float_text,
        FieldDataView::Bytes(b) => bytes_text(b),
        FieldDataView::Enum(n, descriptor) => enum_value_name(n, descriptor),
        FieldDataView::Message(_, descriptor) => match descriptor.name {
            Some(name) => name,
            None => "unknown"@,
        },
        FieldDataView::Unknown(b) => bytes_text(b),
    }
}

/// The text of a field: its number, its wire type, the kind of its data, and the data.
pub open spec fn field_text(field: FieldView, float_text: Seq<char>) -> Seq<char> {
    decimal(field.field_num as nat) + ":("@ + field.wire_type.spec_name() + ", "@ + kind_name(
        field.data,
    ) + ") = "@ + data_text(field.data, float_text)
}

/// The name of an enum's value.
fn find_enum_value_name(number: i32, descriptor: &EnumDescriptorProto) -> (r: String)
    ensures
        r@ == enum_value_name(number, descriptor@),
{
    let ghost accepts = |value: EnumValueView| value.number == Some(number);
    let ghost values = descriptor@.value;
    let mut i: usize = 0;
    assert(values.skip(0) =~= values);
    while i < descriptor.value.len()
        invariant
            i <= descriptor.value@.len(),
            values == descriptor@.value,
            values.len() == descriptor.value@.len(),
            accepts == (|value: EnumValueView| value.number == Some(number)),
            first_where(values, accepts) == first_where(values.skip(i as int), accepts),
        decreases descriptor.value@.len() - i,
    {
        assert(values[i as int] == descriptor.value@[i as int]@);
        assert(values.skip(i as int).skip(1) =~= values.skip(i + 1));
        if let Some(n) = descriptor.value[i].number {
            if n == number {
                return text_or_default(&descriptor.value[i].name);
            }
        }
        i += 1;
    }
    "unknown".to_owned()
}

/// The text of bytes.
fn display_bytes(bytes: &Vec<u8>) -> (r: String)
    ensures
        r@ == bytes_text(bytes@),
{
    if bytes.len() <= 16 {
        as_hex(bytes.as_slice())
    } else {
        let mut text = as_hex(&bytes.as_slice()[0..16]);
        text.append("... (");
        push_decimal(&mut text, bytes.len() as u64);
        text.append(" bytes)");
        assert(bytes@.subrange(0, 16) =~= bytes@.take(16));
        text
    }
}

impl ProtobufFieldData {
    /// Returns the type name of the field.
    pub fn data_type_name(&self) -> (r: &'static str)
        ensures
            r@ == kind_name(self@),
    {
        match self {
            ProtobufFieldData::String(_) => "String",
            ProtobufFieldData::Boolean(_) => "Boolean",
            ProtobufFieldData::UInteger32(_) => "UInteger32",
            ProtobufFieldData::Integer32(_) => "Integer32",
            ProtobufFieldData::UInteger64(_) => "UInteger64",
            ProtobufFieldData::Integer64(_) => "Integer64",
            ProtobufFieldData::Float(_) => "Float",
            ProtobufFieldData::Double(_) => "Double",
            ProtobufFieldData::Bytes(_) => "Bytes",
            ProtobufFieldData::Enum(_, _) => "Enum",
            ProtobufFieldData::Message(_, _) => "Message",
            ProtobufFieldData::Unknown(_) => "Unknown",
        }
    }

    /// Converts the data for this value into a byte array
    pub fn as_bytes(&self) -> (r: Vec<u8>)
        ensures
            r@ == data_bytes(self@),
    {
        match self {
            ProtobufFieldData::String(s) => s.as_str().as_bytes_vec(),
            ProtobufFieldData::Boolean(b) => {
                let bytes: Vec<u8> = vec![if *b { 1u8 } else { 0u8 }];
                assert(bytes@ =~= data_bytes(self@));
                bytes
            },
            ProtobufFieldData::UInteger32(n) => to_le_bytes(*n as u64, 4),
            ProtobufFieldData::Integer32(n) => to_le_bytes(bits_32(*n) as u64, 4),
            ProtobufFieldData::UInteger64(n) => to_le_bytes(*n, 8),
            ProtobufFieldData::Integer64(n) => to_le_bytes(bits_64(*n), 8),
            ProtobufFieldData::Float(bits) => to_le_bytes(*bits as u64, 4),
            ProtobufFieldData::Double(bits) => to_le_bytes(*bits, 8),
            ProtobufFieldData::Bytes(b) => b.clone(),
            ProtobufFieldData::Enum(n, descriptor) => find_enum_value_name(
                *n,
                descriptor,
            ).as_str().as_bytes_vec(),
            ProtobufFieldData::Message(b, _) => b.clone(),
            ProtobufFieldData::Unknown(data) => data.clone(),
        }
    }

    /// Return the default value for this field data
    pub fn default_field_value(&self, descriptor: &FieldDescriptorProto) -> (r: ProtobufFieldData)
        ensures
            r@ == default_data(self@, descriptor@.default_value),
    {
        match &descriptor.default_value {
            Some(value) => {
                let text = value.text.as_str();
                match self {
                    ProtobufFieldData::String(_) => ProtobufFieldData::String(value.text.clone()),
                    ProtobufFieldData::Boolean(_) => ProtobufFieldData::Boolean(
                        same_text(text, "true"),
                    ),
                    ProtobufFieldData::UInteger32(_) => ProtobufFieldData::UInteger32(
                        parse_u32(text).unwrap_or(0),
                    ),
                    ProtobufFieldData::Integer32(_) => ProtobufFieldData::Integer32(
                        parse_i32(text).unwrap_or(0),
                    ),
                    ProtobufFieldData::UInteger64(_) => ProtobufFieldData::UInteger64(
                        parse_u64(text).unwrap_or(0),
                    ),
                    ProtobufFieldData::Integer64(_) => ProtobufFieldData::Integer64(
                        parse_i64(text).unwrap_or(0),
                    ),
                    ProtobufFieldData::Float(_) => ProtobufFieldData::Float(
                        value.float.unwrap_or(0),
                    ),
                    ProtobufFieldData::Double(_) => ProtobufFieldData::Double(
                        value.double.unwrap_or(0),
                    ),
                    ProtobufFieldData::Bytes(_) => ProtobufFieldData::Bytes(unescape(text)),
                    ProtobufFieldData::Enum(_, descriptor) => ProtobufFieldData::Enum(
                        parse_i32(text).unwrap_or(0),
                        descriptor.clone(),
                    ),
                    ProtobufFieldData::Message(_, descriptor) => ProtobufFieldData::Message(
                        Vec::new(),
                        descriptor.clone(),
                    ),
                    ProtobufFieldData::Unknown(_) => ProtobufFieldData::Unknown(Vec::new()),
                }
            },
            None => match self {
                ProtobufFieldData::String(_) => ProtobufFieldData::String(String::new()),
                ProtobufFieldData::Boolean(_) => {
                    proof {
                        reveal_strlit("true");
                    }
                    ProtobufFieldData::Boolean(false)
                },
                ProtobufFieldData::UInteger32(_) => ProtobufFieldData::UInteger32(0),
                ProtobufFieldData::Integer32(_) => ProtobufFieldData::Integer32(0),
                ProtobufFieldData::UInteger64(_) => ProtobufFieldData::UInteger64(0),
                ProtobufFieldData::Integer64(_) => ProtobufFieldData::Integer64(0),
                ProtobufFieldData::Float(_) => ProtobufFieldData::Float(0),
                ProtobufFieldData::Double(_) => ProtobufFieldData::Double(0),
                ProtobufFieldData::Bytes(_) => ProtobufFieldData::Bytes(Vec::new()),
                ProtobufFieldData::Enum(_, descriptor) => ProtobufFieldData::Enum(
                    0,
                    descriptor.clone(),
                ),
                ProtobufFieldData::Message(_, descriptor) => ProtobufFieldData::Message(
                    Vec::new(),
                    descriptor.clone(),
                ),
                ProtobufFieldData::Unknown(_) => ProtobufFieldData::Unknown(Vec::new()),
            },
        }
    }

    /// The text of the data, where `float_text` is that of the number for the floating point
    /// kinds; the other kinds leave it unread.
    pub fn display(&self, float_text: &str) -> (r: String)
        ensures
            r@ == data_text(self@, float_text@),
    {
        let mut text = String::new();
        match self {
            ProtobufFieldData::String(s) => {
                text.push('"');
                text.append(s.as_str());
                text.push('"');
                assert(text@ =~= data_text(self@, float_text@));
            },
            ProtobufFieldData::Boolean(b) => text.append(if *b { "true" } else { "false" }),
            ProtobufFieldData::UInteger32(n) => push_decimal(&mut text, *n as u64),
            ProtobufFieldData::Integer32(n) => push_signed_decimal(&mut text, *n as i64),
            ProtobufFieldData::UInteger64(n) => push_decimal(&mut text, *n),
            ProtobufFieldData::Integer64(n) => push_signed_decimal(&mut text, *n),
            ProtobufFieldData::Float(_) => text.append(float_text),
            ProtobufFieldData::Double(_) => text.append(float_text),
            ProtobufFieldData::Bytes(b) => text.append(display_bytes(b).as_str()),
            ProtobufFieldData::Enum(n, descriptor) => text.append(
                find_enum_value_name(*n, descriptor).as_str(),
            ),
            ProtobufFieldData::Message(_, descriptor) => match &descriptor.name {
                Some(name) => text.append(name.as_str()),
                None => text.append("unknown"),
            },
            ProtobufFieldData::Unknown(b) => text.append(display_bytes(b).as_str()),
        }
        assert(text@ =~= data_text(self@, float_text@));
        text
    }
}

impl ProtobufField {
    /// Create a copy of this field with the value replaced with the default
    pub fn default_field_value(&self, descriptor: &FieldDescriptorProto) -> (r: ProtobufField)
        ensures
            r@ == (FieldView {
                data: default_data(self@.data, descriptor@.default_value),
                ..self@
            }),
    {
        ProtobufField {
            field_num: self.field_num,
            wire_type: self.wire_type,
            data: self.data.default_field_value(descriptor),
        }
    }

    /// The text of the field, where `float_text` is that of the number for the floating point
    /// kinds of data; the other kinds leave it unread.
    pub fn display(&self, float_text: &str) -> (r: String)
        ensures
            r@ == field_text(self@, float_text@),
    {
        let mut text = String::new();
        push_decimal(&mut text, self.field_num as u64);
        text.append(":(");
        text.append(self.wire_type.name());
        text.append(", ");
        text.append(self.data.data_type_name());
        text.append(") = ");
        text.append(self.data.display(float_text).as_str());
        assert(text@ =~= field_text(self@, float_text@));
        text
    }
}

/// The default value of a field is of the same kind as the field.
pub proof fn lemma_default_keeps_kind(data: FieldDataView, default: Option<DefaultValueView>)
    ensures
        kind_name(default_data(data, default)) == kind_name(data),
{
}

/// The default value of a default value is the same value again.
pub proof fn lemma_default_idempotent(data: FieldDataView, default: Option<DefaultValueView>)
    ensures
        default_data(default_data(data, default), default) == default_data(data, default),
{
}

/// An integer in its decimal form as the default gives that integer.
pub proof fn lemma_default_of_decimal(data: FieldDataView, default: DefaultValueView, value: int)
    requires
        default.text == signed_decimal(value),
    ensures
        match data {
            FieldDataView::UInteger32(_) => 0 <= value <= u32::MAX ==> default_data(
                data,
                Some(default),
            ) == FieldDataView::UInteger32(value as u32),
            FieldDataView::Integer32(_) => i32::MIN <= value <= i32::MAX ==> default_data(
                data,
                Some(default),
            ) == FieldDataView::Integer32(value as i32),
            FieldDataView::UInteger64(_) => 0 <= value <= u64::MAX ==> default_data(
                data,
                Some(default),
            ) == FieldDataView::UInteger64(value as u64),
            FieldDataView::Integer64(_) => i64::MIN <= value <= i64::MAX ==> default_data(
                data,
                Some(default),
            ) == FieldDataView::Integer64(value as i64),
            FieldDataView::Enum(_, descriptor) => i32::MIN <= value <= i32::MAX ==> default_data(
                data,
                Some(default),
            ) == FieldDataView::Enum(value as i32, descriptor),
            _ => true,
        },
{
    if 0 <= value <= u32::MAX {
        lemma_decimal_read_back(value as nat, u32::MAX as nat);
    }
    if 0 <= value <= u64::MAX {
        lemma_decimal_read_back(value as nat, u64::MAX as nat);
    }
    if i32::MIN <= value <= i32::MAX {
        lemma_signed_decimal_read_back(value, i32::MIN as int, i32::MAX as int);
    }
    if i64::MIN <= value <= i64::MAX {
        lemma_signed_decimal_read_back(value, i64::MIN as int, i64::MAX as int);
    }
}

/// The C escaped text of bytes as the default gives those bytes.
pub proof fn lemma_default_of_escaped(bytes: Seq<u8>, old_bytes: Seq<u8>, default: DefaultValueView)
    requires
        default.text == escaped(bytes),
    ensures
        default_data(FieldDataView::Bytes(old_bytes), Some(default)) == FieldDataView::Bytes(bytes),
{
    lemma_escaped_read_back(bytes);
}

/// The numbers of field data are read back from its bytes.
pub proof fn lemma_bytes_read_back(data: FieldDataView)
    ensures
        match data {
            FieldDataView::UInteger32(n) => le_value(data_bytes(data)) == n,
            FieldDataView::Integer32(n) => signed_32(le_value(data_bytes(data))) == n,
            FieldDataView::UInteger64(n) => le_value(data_bytes(data)) == n,
            FieldDataView::Integer64(n) => signed_64(le_value(data_bytes(data))) == n,
            FieldDataView::Float(bits) => le_value(data_bytes(data)) == bits,
            FieldDataView::Double(bits) => le_value(data_bytes(data)) == bits,
            _ => true,
        },
{
    match data {
        FieldDataView::UInteger32(n) => lemma_le_read_back_32(n),
        FieldDataView::Integer32(n) => lemma_le_read_back_32((n as int % 0x1_0000_0000) as u32),
        FieldDataView::UInteger64(n) => lemma_le_read_back_64(n),
        FieldDataView::Integer64(n) => lemma_le_read_back_64(
            (n as int % 0x1_0000_0000_0000_0000) as u64,
        ),
        FieldDataView::Float(bits) => lemma_le_read_back_32(bits),
        FieldDataView::Double(bits) => lemma_le_read_back_64(bits),
        _ => {},
    }
}

/// Equality of field data is symmetric and transitive, and all data is equal to itself but for
/// floating point values that are not numbers.
pub proof fn lemma_equal_data(a: FieldDataView, b: FieldDataView, c: FieldDataView)
    ensures
        equal_data(a, b) <==> equal_data(b, a),
        equal_data(a, b) && equal_data(b, c) ==> equal_data(a, c),
        equal_data(a, a) <==> match a {
            FieldDataView::Float(bits) => !is_nan_32(bits),
            FieldDataView::Double(bits) => !is_nan_64(bits),
            _ => true,
        },
{
}

} // verus!
