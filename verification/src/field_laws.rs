//! What field data, its bytes, its defaults and its texts are, for every kind and every value.
use crate::descriptor::{
    first_where, lemma_first_where, DefaultValueView, EnumDescriptorView, EnumValueView,
};
use crate::escape::unescaped;
use crate::field::{
    bytes_text, data_bytes, data_text, default_data, enum_value_name, equal_data, equal_fields,
    field_text, kind_name, FieldDataView, FieldView, ProtobufField, ProtobufFieldData,
};
use crate::text::{decimal, hex, parsed_signed, parsed_unsigned, signed_decimal};
use crate::wire::{le_bytes, WireType};
use crate::wire_laws::lemma_le_digits;
use vstd::arithmetic::power::pow;
use vstd::prelude::*;
use vstd::std_specs::cmp::PartialEqSpec;
use vstd::utf8::{decode_utf8, encode_utf8_decode_utf8, encode_utf8_valid_utf8, valid_utf8};

verus! {

/// The views of field data and of fields show all that they hold.
pub proof fn lemma_field_views(data: ProtobufFieldData, field: ProtobufField)
    ensures
        match data {
            ProtobufFieldData::String(s) => data@ == FieldDataView::String(s@),
            ProtobufFieldData::Boolean(b) => data@ == FieldDataView::Boolean(b),
            ProtobufFieldData::UInteger32(n) => data@ == FieldDataView::UInteger32(n),
            ProtobufFieldData::Integer32(n) => data@ == FieldDataView::Integer32(n),
            ProtobufFieldData::UInteger64(n) => data@ == FieldDataView::UInteger64(n),
            ProtobufFieldData::Integer64(n) => data@ == FieldDataView::Integer64(n),
            ProtobufFieldData::Float(bits) => data@ == FieldDataView::Float(bits),
            ProtobufFieldData::Double(bits) => data@ == FieldDataView::Double(bits),
            ProtobufFieldData::Bytes(b) => data@ == FieldDataView::Bytes(b@),
            ProtobufFieldData::Enum(n, descriptor) => data@ == FieldDataView::Enum(n, descriptor@),
            ProtobufFieldData::Message(b, descriptor) => data@ == FieldDataView::Message(
                b@,
                descriptor@,
            ),
            ProtobufFieldData::Unknown(b) => data@ == FieldDataView::Unknown(b@),
        },
        field@.field_num == field.field_num,
        field@.wire_type == field.wire_type,
        field@.data == field.data@,
{
}

/// The bytes of bytes, messages and unknown data are those bytes, in full. The bytes of a string and
/// of the name of an enum value decode to that text, and the bytes of a number are all its digits
/// to the base 256, least significant first.
pub proof fn lemma_bytes_of_data(data: FieldDataView)
    ensures
        match data {
            FieldDataView::Bytes(b) => data_bytes(data) == b,
            FieldDataView::Message(b, _) => data_bytes(data) == b,
            FieldDataView::Unknown(b) => data_bytes(data) == b,
            FieldDataView::String(s) => valid_utf8(data_bytes(data)) && decode_utf8(
                data_bytes(data),
            ) == s,
            FieldDataView::Enum(n, descriptor) => valid_utf8(data_bytes(data)) && decode_utf8(
                data_bytes(data),
            ) == enum_value_name(n, descriptor),
            FieldDataView::Boolean(b) => data_bytes(data).len() == 1 && (data_bytes(data)[0] == 1
                <==> b) && (data_bytes(data)[0] == 0 <==> !b),
            FieldDataView::UInteger32(n) => data_bytes(data).len() == 4 && (forall|i: nat|
                i < 4 ==> #[trigger] data_bytes(data)[i as int] == n as int / pow(0x100, i)
                    % 0x100),
            FieldDataView::Integer32(n) => data_bytes(data).len() == 4 && (forall|i: nat|
                i < 4 ==> #[trigger] data_bytes(data)[i as int] == n as int % 0x1_0000_0000 / pow(
                    0x100,
                    i,
                ) % 0x100),
            FieldDataView::UInteger64(n) => data_bytes(data).len() == 8 && (forall|i: nat|
                i < 8 ==> #[trigger] data_bytes(data)[i as int] == n as int / pow(0x100, i)
                    % 0x100),
            FieldDataView::Integer64(n) => data_bytes(data).len() == 8 && (forall|i: nat|
                i < 8 ==> #[trigger] data_bytes(data)[i as int] == n as int
                    % 0x1_0000_0000_0000_0000 / pow(0x100, i) % 0x100),
            FieldDataView::Float(n) => data_bytes(data).len() == 4 && (forall|i: nat|
                i < 4 ==> #[trigger] data_bytes(data)[i as int] == n as int / pow(0x100, i)
                    % 0x100),
            FieldDataView::Double(n) => data_bytes(data).len() == 8 && (forall|i: nat|
                i < 8 ==> #[trigger] data_bytes(data)[i as int] == n as int / pow(0x100, i)
                    % 0x100),
        },
{
    match data {
        FieldDataView::String(s) => {
            encode_utf8_valid_utf8(s);
            encode_utf8_decode_utf8(s);
        },
        FieldDataView::Enum(n, descriptor) => {
            encode_utf8_valid_utf8(enum_value_name(n, descriptor));
            encode_utf8_decode_utf8(enum_value_name(n, descriptor));
        },
        FieldDataView::UInteger32(n) => lemma_digits_of(n as nat, 4),
        FieldDataView::Integer32(n) => lemma_digits_of((n as int % 0x1_0000_0000) as nat, 4),
        FieldDataView::UInteger64(n) => lemma_digits_of(n as nat, 8),
        FieldDataView::Integer64(n) => lemma_digits_of(
            (n as int % 0x1_0000_0000_0000_0000) as nat,
            8,
        ),
        FieldDataView::Float(n) => lemma_digits_of(n as nat, 4),
        FieldDataView::Double(n) => lemma_digits_of(n as nat, 8),
        _ => {},
    }
}

proof fn lemma_digits_of(value: nat, count: nat)
    requires
        count > 0,
    ensures
        le_bytes(value, count).len() == count,
        forall|i: nat|
            i < count ==> #[trigger] le_bytes(value, count)[i as int] == value as int / pow(0x100, i)
                % 0x100,
{
    lemma_le_digits(value, count, 0);
    assert forall|i: nat| i < count implies #[trigger] le_bytes(value, count)[i as int]
        == value as int / pow(0x100, i) % 0x100 by {
        lemma_le_digits(value, count, i);
    }
}

/// The name of an enum's value is that of the first value with the number, whole; it is empty where
/// that value has no name, and "unknown" where no value has the number.
pub proof fn lemma_enum_value_names(number: i32, descriptor: EnumDescriptorView)
    ensures
        forall|i: int|
            0 <= i < descriptor.value.len() && (#[trigger] descriptor.value[i]).number == Some(
                number,
            ) && (forall|j: int|
                0 <= j < i ==> (#[trigger] descriptor.value[j]).number != Some(number)) ==> (
            match descriptor.value[i].name {
                Some(name) => enum_value_name(number, descriptor) == name,
                None => enum_value_name(number, descriptor).len() == 0,
            }),
        (forall|i: int|
            0 <= i < descriptor.value.len() ==> (#[trigger] descriptor.value[i]).number != Some(
                number,
            )) ==> enum_value_name(number, descriptor) == "unknown"@,
{
    let accepts = |value: EnumValueView| value.number == Some(number);
    let values = descriptor.value;
    lemma_first_where(values, accepts);
    assert forall|i: int|
        0 <= i < values.len() && (#[trigger] values[i]).number == Some(number) && (forall|j: int|
            0 <= j < i ==> (#[trigger] values[j]).number != Some(number)) implies first_where(
        values,
        accepts,
    ) == Some(values[i]) by {
        assert(accepts(values[i]));
        let found = first_where(values, accepts)->0;
        let k = choose|k: int|
            0 <= k < values.len() && #[trigger] values[k] == found && accepts(found) && (forall|
                j: int,
            |
                0 <= j < k ==> !accepts(#[trigger] values[j]));
        if k < i {
            assert(values[k].number != Some(number));
        } else if i < k {
            assert(!accepts(values[i]));
        }
    }
    if first_where(values, accepts) is Some {
        let found = first_where(values, accepts)->0;
        let k = choose|k: int|
            0 <= k < values.len() && #[trigger] values[k] == found && accepts(found);
        assert(values[k].number == Some(number));
    }
}

/// What a default text gives for each kind of data: a string is the text itself, a boolean is true
/// for "true" alone, an integer is the one that the text stands for, a floating point number has
/// the bits that the default gives, and bytes are those that the escaped text stands for. Zero
/// stands in where the text stands for no number. Enums and messages keep their descriptors.
pub proof fn lemma_defaults_given(data: FieldDataView, default: DefaultValueView)
    ensures
        match data {
            FieldDataView::String(_) => default_data(data, Some(default)) == FieldDataView::String(
                default.text,
            ),
            FieldDataView::Boolean(_) => default_data(data, Some(default))
                == FieldDataView::Boolean(default.text == "true"@),
            FieldDataView::UInteger32(_) => match parsed_unsigned(default.text, 0xffff_ffff) {
                Some(n) => default_data(data, Some(default)) == FieldDataView::UInteger32(n as u32),
                None => default_data(data, Some(default)) == FieldDataView::UInteger32(0),
            },
            FieldDataView::Integer32(_) => match parsed_signed(
                default.text,
                -0x8000_0000,
                0x7fff_ffff,
            ) {
                Some(n) => default_data(data, Some(default)) == FieldDataView::Integer32(n as i32),
                None => default_data(data, Some(default)) == FieldDataView::Integer32(0),
            },
            FieldDataView::UInteger64(_) => match parsed_unsigned(
                default.text,
                0xffff_ffff_ffff_ffff,
            ) {
                Some(n) => default_data(data, Some(default)) == FieldDataView::UInteger64(n as u64),
                None => default_data(data, Some(default)) == FieldDataView::UInteger64(0),
            },
            FieldDataView::Integer64(_) => match parsed_signed(
                default.text,
                -0x8000_0000_0000_0000,
                0x7fff_ffff_ffff_ffff,
            ) {
                Some(n) => default_data(data, Some(default)) == FieldDataView::Integer64(n as i64),
                None => default_data(data, Some(default)) == FieldDataView::Integer64(0),
            },
            FieldDataView::Float(_) => match default.float {
                Some(bits) => default_data(data, Some(default)) == FieldDataView::Float(bits),
                None => default_data(data, Some(default)) == FieldDataView::Float(0),
            },
            FieldDataView::Double(_) => match default.double {
                Some(bits) => default_data(data, Some(default)) == FieldDataView::Double(bits),
                None => default_data(data, Some(default)) == FieldDataView::Double(0),
            },
            FieldDataView::Bytes(_) => default_data(data, Some(default)) == FieldDataView::Bytes(
                unescaped(default.text),
            ),
            FieldDataView::Enum(_, descriptor) => match parsed_signed(
                default.text,
                -0x8000_0000,
                0x7fff_ffff,
            ) {
                Some(n) => default_data(data, Some(default)) == FieldDataView::Enum(
                    n as i32,
                    descriptor,
                ),
                None => default_data(data, Some(default)) == FieldDataView::Enum(0, descriptor),
            },
            FieldDataView::Message(_, descriptor) => default_data(data, Some(default))
                == FieldDataView::Message(seq![], descriptor),
            FieldDataView::Unknown(_) => default_data(data, Some(default))
                == FieldDataView::Unknown(seq![]),
        },
{
}

/// Without a default, strings, bytes, messages and unknown data are empty, booleans are false, and
/// numbers and enum values are zero.
pub proof fn lemma_defaults_not_given(data: FieldDataView)
    ensures
        match data {
            FieldDataView::String(_) => default_data(data, None) == FieldDataView::String(seq![]),
            FieldDataView::Boolean(_) => default_data(data, None) == FieldDataView::Boolean(false),
            FieldDataView::UInteger32(_) => default_data(data, None) == FieldDataView::UInteger32(
                0,
            ),
            FieldDataView::Integer32(_) => default_data(data, None) == FieldDataView::Integer32(0),
            FieldDataView::UInteger64(_) => default_data(data, None) == FieldDataView::UInteger64(
                0,
            ),
            FieldDataView::Integer64(_) => default_data(data, None) == FieldDataView::Integer64(0),
            FieldDataView::Float(_) => default_data(data, None) == FieldDataView::Float(0),
            FieldDataView::Double(_) => default_data(data, None) == FieldDataView::Double(0),
            FieldDataView::Bytes(_) => default_data(data, None) == FieldDataView::Bytes(seq![]),
            FieldDataView::Enum(_, descriptor) => default_data(data, None) == FieldDataView::Enum(
                0,
                descriptor,
            ),
            FieldDataView::Message(_, descriptor) => default_data(data, None)
                == FieldDataView::Message(seq![], descriptor),
            FieldDataView::Unknown(_) => default_data(data, None) == FieldDataView::Unknown(seq![]),
        },
{
    reveal_strlit("true");
}

/// The kinds of data have these names, each its own.
pub proof fn lemma_kind_names(data: FieldDataView)
    ensures
        data is String ==> kind_name(data) == "String"@,
        data is Boolean ==> kind_name(data) == "Boolean"@,
        data is UInteger32 ==> kind_name(data) == "UInteger32"@,
        data is Integer32 ==> kind_name(data) == "Integer32"@,
        data is UInteger64 ==> kind_name(data) == "UInteger64"@,
        data is Integer64 ==> kind_name(data) == "Integer64"@,
        data is Float ==> kind_name(data) == "Float"@,
        data is Double ==> kind_name(data) == "Double"@,
        data is Bytes ==> kind_name(data) == "Bytes"@,
        data is Enum ==> kind_name(data) == "Enum"@,
        data is Message ==> kind_name(data) == "Message"@,
        data is Unknown ==> kind_name(data) == "Unknown"@,
{
}

/// The text of data: a string in quotes, whole and with nothing escaped; integers in decimal form;
/// the names of enum values and messages, whole; and bytes in hexadecimal form, of which more than
/// sixteen are cut off behind the sixteenth, with their number.
pub proof fn lemma_data_texts(data: FieldDataView, float_text: Seq<char>)
    ensures
        ({
            let text = data_text(data, float_text);
            match data {
                FieldDataView::String(s) => {
                    &&& text.len() == s.len() + 2
                    &&& text[0] == '"' && text.last() == '"'
                    &&& forall|i: int| 0 <= i < s.len() ==> #[trigger] text[i + 1] == s[i]
                },
                FieldDataView::Boolean(b) => (b ==> text == "true"@) && (!b ==> text == "false"@),
                FieldDataView::UInteger32(n) => text == signed_decimal(n as int),
                FieldDataView::Integer32(n) => text == signed_decimal(n as int),
                FieldDataView::UInteger64(n) => text == signed_decimal(n as int),
                FieldDataView::Integer64(n) => text == signed_decimal(n as int),
                FieldDataView::Float(_) => text == float_text,
                FieldDataView::Double(_) => text == float_text,
                FieldDataView::Bytes(b) => is_bytes_text(text, b),
                FieldDataView::Enum(n, descriptor) => text == enum_value_name(n, descriptor),
                FieldDataView::Message(_, descriptor) => match descriptor.name {
                    Some(name) => text == name,
                    None => text == "unknown"@,
                },
                FieldDataView::Unknown(b) => is_bytes_text(text, b),
            }
        }),
{
    match data {
        FieldDataView::Bytes(b) => lemma_bytes_text(b),
        FieldDataView::Unknown(b) => lemma_bytes_text(b),
        _ => {},
    }
}

/// Whether a text is the hexadecimal form of bytes, or that of the first sixteen and the number of
/// all where there are more.
pub open spec fn is_bytes_text(text: Seq<char>, bytes: Seq<u8>) -> bool {
    if bytes.len() <= 16 {
        text == hex(bytes)
    } else {
        text == hex(bytes.subrange(0, 16)) + ("... ("@ + (decimal(bytes.len()) + " bytes)"@))
    }
}

proof fn lemma_bytes_text(bytes: Seq<u8>)
    ensures
        is_bytes_text(bytes_text(bytes), bytes),
{
    if bytes.len() > 16 {
        assert(bytes.subrange(0, 16) =~= bytes.take(16));
        assert(bytes_text(bytes) =~= hex(bytes.subrange(0, 16)) + ("... ("@ + (
        decimal(bytes.len()) + " bytes)"@)));
    }
}

/// The text of a field gives its number, its wire type, the kind of its data and the data, in this
/// order.
pub proof fn lemma_field_texts(
    field_num: u32,
    wire_type: WireType,
    data: FieldDataView,
    float_text: Seq<char>,
)
    ensures
        field_text(FieldView { field_num, wire_type, data }, float_text) == decimal(
            field_num as nat,
        ) + (":("@ + (wire_type.spec_name() + (", "@ + (kind_name(data) + (") = "@ + data_text(
            data,
            float_text,
        )))))),
{
    assert(field_text(FieldView { field_num, wire_type, data }, float_text) =~= decimal(
        field_num as nat,
    ) + (":("@ + (wire_type.spec_name() + (", "@ + (kind_name(data) + (") = "@ + data_text(
        data,
        float_text,
    )))))));
}

/// Data of different kinds is never equal, and data of the same kind that is not floating point is
/// equal exactly where it is the same.
pub proof fn lemma_equal_kinds(a: FieldDataView, b: FieldDataView)
    ensures
        equal_data(a, b) ==> kind_name(a) == kind_name(b),
        !(a is Float) && !(a is Double) ==> (equal_data(a, b) <==> a == b),
        a is Float && !(b is Float) ==> !equal_data(a, b),
        a is Double && !(b is Double) ==> !equal_data(a, b),
{
}

/// Floating point data is equal exactly where both are numbers and either the bits are the same or
/// both are a zero of either sign. The bits of what is not a number are those above infinity.
pub proof fn lemma_equal_floats(a: u32, b: u32, c: u64, d: u64)
    ensures
        equal_data(FieldDataView::Float(a), FieldDataView::Float(b)) <==> {
            &&& a <= 0x7f80_0000 || 0x8000_0000 <= a <= 0xff80_0000
            &&& b <= 0x7f80_0000 || 0x8000_0000 <= b <= 0xff80_0000
            &&& a == b || ((a == 0 || a == 0x8000_0000) && (b == 0 || b == 0x8000_0000))
        },
        equal_data(FieldDataView::Double(c), FieldDataView::Double(d)) <==> {
            &&& c <= 0x7ff0_0000_0000_0000 || 0x8000_0000_0000_0000 <= c <= 0xfff0_0000_0000_0000
            &&& d <= 0x7ff0_0000_0000_0000 || 0x8000_0000_0000_0000 <= d <= 0xfff0_0000_0000_0000
            &&& c == d || ((c == 0 || c == 0x8000_0000_0000_0000) && (d == 0 || d
                == 0x8000_0000_0000_0000))
        },
{
}

/// Data and fields compare equal by `==` exactly where what they hold is equal.
pub proof fn lemma_compared_fields(
    data: (ProtobufFieldData, ProtobufFieldData),
    field: (ProtobufField, ProtobufField),
)
    ensures
        ProtobufFieldData::obeys_eq_spec(),
        ProtobufField::obeys_eq_spec(),
        data.0.eq_spec(&data.1) <==> equal_data(data.0@, data.1@),
        field.0.eq_spec(&field.1) <==> field.0.field_num == field.1.field_num && field.0.wire_type
            == field.1.wire_type && equal_data(field.0.data@, field.1.data@),
{
}

/// Fields are equal exactly where their numbers and wire types are the same and their data is equal.
pub proof fn lemma_equal_fields(a: FieldView, b: FieldView)
    ensures
        equal_fields(a, b) <==> a.field_num == b.field_num && a.wire_type == b.wire_type
            && equal_data(a.data, b.data),
{
}

} // verus!
