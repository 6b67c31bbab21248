//! What decoding gives for each field on the wire, in terms of what the descriptor lists.
use crate::descriptor::{enum_of, message_of, DescriptorView};
use crate::descriptor_laws::{lemma_field_found, lemma_type_numbers};
use crate::field::{FieldDataView, FieldView, ProtobufField};
use crate::message_decoder::{
    error_cause, error_text, error_type, field_payload, field_views, lemma_payload_suffix,
    number_order, stably_sorted, utf8_error_text, utf8_failure, wire_fields, with_number, ErrorView,
    MessageError, Outcome, Payload,
};
use crate::message_laws::{lemma_concatenated_messages, lemma_sorting_keeps_fields};
use crate::text::decimal;
use crate::wire::{
    decode_error_text, field_key, le_bytes, le_value, lemma_key_length, lemma_varint_length,
    varint, varint_bytes, WireType,
};
use crate::wire_laws::{lemma_le_digits, lemma_signed};
use std::cmp::Ordering;
use vstd::arithmetic::power::pow;
use vstd::prelude::*;
use vstd::utf8::{decode_utf8, valid_utf8};

verus! {

/// Whether the field at an index of a message is the first with a number.
pub open spec fn declares(message: DescriptorView, i: int, field_num: u32) -> bool {
    &&& 0 <= i < message.field.len()
    &&& field_num < 0x2000_0000
    &&& message.field[i].number == Some(field_num as i32)
    &&& forall|j: int| 0 <= j < i ==> (#[trigger] message.field[j]).number != Some(field_num as i32)
}

/// Whether no field of a message has a number.
pub open spec fn lacks(message: DescriptorView, field_num: u32) -> bool {
    field_num < 0x2000_0000 && forall|j: int|
        0 <= j < message.field.len() ==> (#[trigger] message.field[j]).number != Some(
            field_num as i32,
        )
}

/// Whether bytes are the eight digits of a number to the base 256, least significant first.
pub open spec fn are_digits(bytes: Seq<u8>, value: nat) -> bool {
    bytes.len() == 8 && forall|i: nat|
        i < 8 ==> #[trigger] bytes[i as int] == value as int / pow(0x100, i) % 0x100
}

proof fn lemma_are_digits(value: nat)
    ensures
        are_digits(le_bytes(value, 8), value),
{
    lemma_le_digits(value, 8, 0);
    assert forall|i: nat| i < 8 implies #[trigger] le_bytes(value, 8)[i as int] == value as int
        / pow(0x100, i) % 0x100 by {
        lemma_le_digits(value, 8, i);
    }
}

/// What a varint field that the descriptor lists decodes to, by the number of its type: integers
/// with the bits of the value that the type has, a boolean that is false for zero alone, an enum
/// value with the enum that the message declares, and for all other types the digits of the value.
pub proof fn lemma_listed_varint(
    bytes: Seq<u8>,
    i: int,
    field_num: u32,
    message: DescriptorView,
    files: Seq<Seq<DescriptorView>>,
    value: nat,
    size: nat,
)
    requires
        declares(message, i, field_num),
        varint(bytes) == Some((value, size)),
        value <= u64::MAX,
    ensures
        ({
            let field = message.field[i];
            let payload = field_payload(bytes, WireType::Varint, field_num, message, files);
            if field.field_type == Some(14i32) && enum_of(message, field.named_type) is None {
                payload == Payload::Failed(
                    ErrorView::EnumNotFound { named_type: field.named_type, field_num },
                )
            } else {
                &&& payload is Data
                &&& payload->Data_1 == bytes.skip(size as int)
                &&& match (field.field_type, payload->Data_0) {
                    (Some(3i32), FieldDataView::Integer64(n)) => (n - value)
                        % 0x1_0000_0000_0000_0000 == 0,
                    (Some(4i32), FieldDataView::UInteger64(n)) => n == value,
                    (Some(5i32), FieldDataView::Integer32(n)) => (n - value) % 0x1_0000_0000 == 0,
                    (Some(8i32), FieldDataView::Boolean(b)) => b == (value != 0),
                    (Some(13i32), FieldDataView::UInteger32(n)) => (n - value) % 0x1_0000_0000 == 0,
                    (Some(14i32), FieldDataView::Enum(n, descriptor)) => (n - value) % 0x1_0000_0000
                        == 0 && enum_of(message, field.named_type) == Some(descriptor),
                    (Some(17i32), FieldDataView::Integer32(n)) => value % 0x1_0000_0000 == (if n
                        >= 0 {
                        2 * n
                    } else {
                        -2 * n - 1
                    }),
                    (Some(18i32), FieldDataView::Integer64(n)) => value == (if n >= 0 {
                        2 * n
                    } else {
                        -2 * n - 1
                    }),
                    (Some(number), FieldDataView::Unknown(digits)) => number != 3 && number != 4
                        && number != 5 && number != 8 && number != 13 && number != 14 && number != 17
                        && number != 18 && are_digits(digits, value),
                    (None, FieldDataView::Unknown(digits)) => are_digits(digits, value),
                    _ => false,
                }
            }
        }),
{
    let field = message.field[i];
    lemma_field_found(message, field_num as i32);
    lemma_signed(value);
    lemma_are_digits(value);
    if let Some(number) = field.field_type {
        lemma_type_numbers(number);
    } else {
        lemma_type_numbers(0);
    }
    assert((value % 0x1_0000_0000 - value) % 0x1_0000_0000 == 0) by {
        assert(value == value / 0x1_0000_0000 * 0x1_0000_0000 + value % 0x1_0000_0000);
    }
}

/// What a field of eight bytes that the descriptor lists decodes to, by the number of its type.
/// Without eight bytes it is cut off.
pub proof fn lemma_listed_sixty_four_bit(
    bytes: Seq<u8>,
    i: int,
    field_num: u32,
    message: DescriptorView,
    files: Seq<Seq<DescriptorView>>,
)
    requires
        declares(message, i, field_num),
    ensures
        ({
            let field = message.field[i];
            let payload = field_payload(bytes, WireType::SixtyFourBit, field_num, message, files);
            let content = bytes.subrange(0, 8);
            if bytes.len() < 8 {
                payload is Truncated
            } else {
                &&& payload is Data
                &&& payload->Data_1 == bytes.skip(8)
                &&& match (field.field_type, payload->Data_0) {
                    (Some(6i32), FieldDataView::UInteger64(n)) => n == le_value(content),
                    (Some(16i32), FieldDataView::Integer64(n)) => (n - le_value(content))
                        % 0x1_0000_0000_0000_0000 == 0,
                    (None, FieldDataView::Double(bits)) => bits == le_value(content),
                    (Some(number), FieldDataView::Double(bits)) => (number <= 1 || number > 18)
                        && bits == le_value(content),
                    (Some(number), FieldDataView::Unknown(b)) => 1 < number <= 18 && number != 6
                        && number != 16 && b == content,
                    _ => false,
                }
            }
        }),
{
    let field = message.field[i];
    lemma_field_found(message, field_num as i32);
    if let Some(number) = field.field_type {
        lemma_type_numbers(number);
    } else {
        lemma_type_numbers(0);
    }
    if bytes.len() >= 8 {
        assert(bytes.subrange(0, 8) =~= bytes.take(8));
        lemma_signed(le_value(bytes.take(8)));
        lemma_value_bound(bytes.take(8));
    }
}

/// What a field of four bytes that the descriptor lists decodes to, by the number of its type.
/// Without four bytes it is cut off.
pub proof fn lemma_listed_thirty_two_bit(
    bytes: Seq<u8>,
    i: int,
    field_num: u32,
    message: DescriptorView,
    files: Seq<Seq<DescriptorView>>,
)
    requires
        declares(message, i, field_num),
    ensures
        ({
            let field = message.field[i];
            let payload = field_payload(bytes, WireType::ThirtyTwoBit, field_num, message, files);
            let content = bytes.subrange(0, 4);
            if bytes.len() < 4 {
                payload is Truncated
            } else {
                &&& payload is Data
                &&& payload->Data_1 == bytes.skip(4)
                &&& match (field.field_type, payload->Data_0) {
                    (Some(2i32), FieldDataView::Float(bits)) => bits == le_value(content),
                    (Some(7i32), FieldDataView::UInteger32(n)) => n == le_value(content),
                    (Some(15i32), FieldDataView::Integer32(n)) => (n - le_value(content))
                        % 0x1_0000_0000 == 0,
                    (None, FieldDataView::Unknown(b)) => b == content,
                    (Some(number), FieldDataView::Unknown(b)) => number != 2 && number != 7 && number
                        != 15 && b == content,
                    _ => false,
                }
            }
        }),
{
    let field = message.field[i];
    lemma_field_found(message, field_num as i32);
    if let Some(number) = field.field_type {
        lemma_type_numbers(number);
    } else {
        lemma_type_numbers(0);
    }
    if bytes.len() >= 4 {
        assert(bytes.subrange(0, 4) =~= bytes.take(4));
        lemma_signed(le_value(bytes.take(4)));
        lemma_value_bound(bytes.take(4));
    }
}

proof fn lemma_value_bound(bytes: Seq<u8>)
    ensures
        bytes.len() == 4 ==> le_value(bytes) <= u32::MAX,
        bytes.len() == 8 ==> le_value(bytes) <= u64::MAX,
{
    reveal_with_fuel(le_value, 9);
}

/// What a length delimited field that the descriptor lists decodes to, by the number of its type:
/// all of its bytes as a text, as an embedded message or as they are, and for all other types
/// behind their length. It fails where fewer bytes remain than its length.
pub proof fn lemma_listed_delimited(
    bytes: Seq<u8>,
    i: int,
    field_num: u32,
    message: DescriptorView,
    files: Seq<Seq<DescriptorView>>,
    length: nat,
    size: nat,
)
    requires
        declares(message, i, field_num),
        varint(bytes) == Some((length, size)),
        length <= usize::MAX,
        length <= u64::MAX,
    ensures
        ({
            let field = message.field[i];
            let payload = field_payload(bytes, WireType::LengthDelimited, field_num, message, files);
            let remaining = bytes.len() - size;
            let content = bytes.subrange(size as int, (size + length) as int);
            let rest = bytes.skip((size + length) as int);
            if remaining < length {
                payload == Payload::Failed(
                    ErrorView::InsufficientData {
                        remaining: remaining as nat,
                        length: length as u64,
                        field_num,
                    },
                )
            } else if field.field_type == Some(9i32) {
                if valid_utf8(content) {
                    payload == Payload::Data(FieldDataView::String(decode_utf8(content)), rest)
                } else {
                    payload == Payload::Failed(ErrorView::Utf8(utf8_failure(content)))
                }
            } else if field.field_type == Some(11i32) {
                match message_of(message, field.named_type, files) {
                    Some(descriptor) => payload == Payload::Data(
                        FieldDataView::Message(content, descriptor),
                        rest,
                    ),
                    None => payload == Payload::Failed(
                        ErrorView::MessageNotFound { named_type: field.named_type, field_num },
                    ),
                }
            } else if field.field_type == Some(12i32) {
                payload == Payload::Data(FieldDataView::Bytes(content), rest)
            } else {
                payload == Payload::Data(
                    FieldDataView::Unknown(varint_bytes(length) + content),
                    rest,
                )
            }
        }),
{
    let field = message.field[i];
    lemma_field_found(message, field_num as i32);
    lemma_varint_length(bytes, 10);
    if let Some(number) = field.field_type {
        lemma_type_numbers(number);
    } else {
        lemma_type_numbers(0);
    }
    let after = bytes.skip(size as int);
    if after.len() >= length {
        assert(after.take(length as int) =~= bytes.subrange(size as int, (size + length) as int));
        assert(after.skip(length as int) =~= bytes.skip((size + length) as int));
    }
}

/// What a field that the descriptor does not list decodes to: unknown data, with the digits of a
/// varint, the bytes of a fixed width in the reverse order, or all delimited bytes behind their
/// length. It is cut off where fewer bytes remain.
pub proof fn lemma_unlisted_field(
    bytes: Seq<u8>,
    field_num: u32,
    message: DescriptorView,
    files: Seq<Seq<DescriptorView>>,
    value: nat,
    size: nat,
)
    requires
        lacks(message, field_num),
    ensures
        varint(bytes) == Some((value, size)) ==> {
            let payload = field_payload(bytes, WireType::Varint, field_num, message, files);
            &&& payload matches Payload::Data(FieldDataView::Unknown(digits), rest)
            &&& are_digits(digits, value)
            &&& rest == bytes.skip(size as int)
        },
        bytes.len() >= 8 ==> {
            let payload = field_payload(bytes, WireType::SixtyFourBit, field_num, message, files);
            &&& payload matches Payload::Data(FieldDataView::Unknown(b), rest)
            &&& b.len() == 8 && (forall|i: int| 0 <= i < 8 ==> #[trigger] b[i] == bytes[7 - i])
            &&& rest == bytes.skip(8)
        },
        bytes.len() >= 4 ==> {
            let payload = field_payload(bytes, WireType::ThirtyTwoBit, field_num, message, files);
            &&& payload matches Payload::Data(FieldDataView::Unknown(b), rest)
            &&& b.len() == 4 && (forall|i: int| 0 <= i < 4 ==> #[trigger] b[i] == bytes[3 - i])
            &&& rest == bytes.skip(4)
        },
        bytes.len() < 8 ==> field_payload(
            bytes,
            WireType::SixtyFourBit,
            field_num,
            message,
            files,
        ) is Truncated,
        bytes.len() < 4 ==> field_payload(
            bytes,
            WireType::ThirtyTwoBit,
            field_num,
            message,
            files,
        ) is Truncated,
        varint(bytes) == Some((value, size)) && value <= usize::MAX && value <= u64::MAX
            && bytes.len() - size < value ==> field_payload(
            bytes,
            WireType::LengthDelimited,
            field_num,
            message,
            files,
        ) is Truncated,
        varint(bytes) == Some((value, size)) && value <= usize::MAX && value <= u64::MAX
            && bytes.len() - size >= value ==> field_payload(
            bytes,
            WireType::LengthDelimited,
            field_num,
            message,
            files,
        ) == Payload::Data(
            FieldDataView::Unknown(
                varint_bytes(value) + bytes.subrange(size as int, (size + value) as int),
            ),
            bytes.skip((size + value) as int),
        ),
{
    lemma_field_found(message, field_num as i32);
    lemma_varint_length(bytes, 10);
    lemma_are_digits(value);
    let after = bytes.skip(size as int);
    if varint(bytes) == Some((value, size)) && after.len() >= value {
        assert(after.take(value as int) =~= bytes.subrange(size as int, (size + value) as int));
        assert(after.skip(value as int) =~= bytes.skip((size + value) as int));
    }
}

/// Fields of all messages fail in these ways: where a varint or a length is missing, and where they
/// start or end a group.
pub proof fn lemma_failed_fields(
    bytes: Seq<u8>,
    field_num: u32,
    message: DescriptorView,
    files: Seq<Seq<DescriptorView>>,
)
    ensures
        varint(bytes) is None ==> {
            let error = ErrorView::Varint(
                "failed to decode Protobuf message: "@ + "invalid varint"@,
            );
            &&& field_payload(bytes, WireType::Varint, field_num, message, files)
                == Payload::Failed(error)
            &&& field_payload(bytes, WireType::LengthDelimited, field_num, message, files)
                == Payload::Failed(error)
        },
        field_payload(bytes, WireType::StartGroup, field_num, message, files) == Payload::Failed(
            ErrorView::UnsupportedWireType(WireType::StartGroup),
        ),
        field_payload(bytes, WireType::EndGroup, field_num, message, files) == Payload::Failed(
            ErrorView::UnsupportedWireType(WireType::EndGroup),
        ),
{
}

/// Decoding gives the first field with the number and wire type of its key, then what the rest of
/// the bytes comes to. Where the first field fails or is cut off, so does the whole.
pub proof fn lemma_first_field(
    bytes: Seq<u8>,
    message: DescriptorView,
    files: Seq<Seq<DescriptorView>>,
    field_num: u32,
    wire_type: WireType,
    size: nat,
)
    requires
        field_key(bytes) == Some((field_num, wire_type, size)),
    ensures
        match field_payload(bytes.skip(size as int), wire_type, field_num, message, files) {
            Payload::Data(data, rest) => match wire_fields(rest, message, files) {
                Outcome::Fields(fields) => wire_fields(bytes, message, files) matches Outcome::Fields(
                    all,
                ) && all.len() == fields.len() + 1 && all[0].field_num == field_num
                    && all[0].wire_type == wire_type && all[0].data == data && all.skip(1) == fields,
                Outcome::Failed(error) => wire_fields(bytes, message, files) == Outcome::Failed(
                    error,
                ),
                Outcome::Truncated => wire_fields(bytes, message, files) is Truncated,
            },
            Payload::Failed(error) => wire_fields(bytes, message, files) == Outcome::Failed(error),
            Payload::Truncated => wire_fields(bytes, message, files) is Truncated,
        },
{
    lemma_key_length(bytes);
    if let Payload::Data(data, rest) = field_payload(
        bytes.skip(size as int),
        wire_type,
        field_num,
        message,
        files,
    ) {
        lemma_payload_suffix(bytes.skip(size as int), wire_type, field_num, message, files);
        if let Outcome::Fields(fields) = wire_fields(rest, message, files) {
            let field = FieldView { field_num, wire_type, data };
            assert((seq![field] + fields).skip(1) =~= fields);
        }
    }
}

/// Bytes that are not empty and do not start with a field key fail.
pub proof fn lemma_no_key(
    bytes: Seq<u8>,
    message: DescriptorView,
    files: Seq<Seq<DescriptorView>>,
)
    requires
        bytes.len() > 0,
        field_key(bytes) is None,
    ensures
        wire_fields(bytes, message, files) matches Outcome::Failed(ErrorView::Key(_)),
{
}

/// One message after another: all the fields of the first and then all those of the second, or the
/// way in which the second fails.
pub proof fn lemma_fields_of_both(
    first: Seq<u8>,
    second: Seq<u8>,
    message: DescriptorView,
    files: Seq<Seq<DescriptorView>>,
)
    requires
        wire_fields(first, message, files) is Fields,
    ensures
        match wire_fields(second, message, files) {
            Outcome::Fields(more) => wire_fields(first + second, message, files) == Outcome::Fields(
                wire_fields(first, message, files)->Fields_0 + more,
            ),
            Outcome::Failed(error) => wire_fields(first + second, message, files)
                == Outcome::Failed(error),
            Outcome::Truncated => wire_fields(first + second, message, files) is Truncated,
        },
{
    lemma_concatenated_messages(first, second, message, files);
}

/// Fields are compared by their whole numbers: the lower one comes first, and only the same number
/// is as high.
pub proof fn lemma_number_order(a: u32, b: u32)
    ensures
        number_order(a, b) == Ordering::Less <==> a < b,
        number_order(a, b) == Ordering::Greater <==> a > b,
        number_order(a, b) == Ordering::Equal <==> a == b,
{
}

/// Sorted fields are all the fields, by ascending number, and those with the same number keep their
/// order.
pub proof fn lemma_sorted_fields(
    fields: Seq<FieldView>,
    sorted: Seq<FieldView>,
    field_num: u32,
)
    requires
        stably_sorted(fields, sorted),
    ensures
        sorted.len() == fields.len(),
        sorted.to_multiset() == fields.to_multiset(),
        forall|i: int, j: int|
            0 <= i < j < sorted.len() ==> (#[trigger] sorted[i]).field_num <= (
            #[trigger] sorted[j]).field_num,
        sorted.filter(|field: FieldView| field.field_num == field_num) == fields.filter(
            |field: FieldView| field.field_num == field_num,
        ),
{
    lemma_sorting_keeps_fields(fields, sorted);
    assert(with_number(sorted, field_num) == with_number(fields, field_num));
}

/// The views of fields show each field, in order, and the view of an error shows all that it holds,
/// with the text of an outside error.
pub proof fn lemma_decoding_views(fields: Seq<ProtobufField>, error: MessageError)
    ensures
        field_views(fields).len() == fields.len(),
        forall|i: int| 0 <= i < fields.len() ==> #[trigger] field_views(fields)[i] == fields[i]@,
        match error {
            MessageError::Key(cause) => error@ == ErrorView::Key(decode_error_text(cause)),
            MessageError::Varint(cause) => error@ == ErrorView::Varint(decode_error_text(cause)),
            MessageError::Utf8(cause) => error@ == ErrorView::Utf8(utf8_error_text(cause)),
            MessageError::EnumNotFound { named_type, field_num } => error@
                == (ErrorView::EnumNotFound { named_type: named_type.deep_view(), field_num }),
            MessageError::MessageNotFound { named_type, field_num } => error@
                == (ErrorView::MessageNotFound { named_type: named_type.deep_view(), field_num }),
            MessageError::InsufficientData { remaining, length, field_num } => error@
                == (ErrorView::InsufficientData { remaining: remaining as nat, length, field_num }),
            MessageError::UnsupportedWireType(wire_type) => error@
                == ErrorView::UnsupportedWireType(wire_type),
        },
{
}

/// The text of an error: that of the outside error where there is one, and otherwise one that holds
/// the whole name, the numbers and the wire type that the error gives.
pub proof fn lemma_error_texts(error: ErrorView, cause: Seq<char>, named_type: Seq<char>)
    ensures
        ({
            let text = error_text(error, cause, named_type);
            match error {
                ErrorView::Key(found) => text == cause && error_cause(error) == found,
                ErrorView::Varint(found) => text == cause && error_cause(error) == found,
                ErrorView::Utf8(found) => text == cause && error_cause(error) == found,
                ErrorView::EnumNotFound { named_type: name, field_num } => error_type(error) == name
                    && text == "Did not find the enum "@ + (named_type + (" for the field "@ + (
                decimal(field_num as nat) + " in the Protobuf descriptor"@))),
                ErrorView::MessageNotFound { named_type: name, field_num } => error_type(error)
                    == name && text == "Did not find the embedded message "@ + (named_type + (
                " for the field "@ + (decimal(field_num as nat) + " in the Protobuf descriptor"@))),
                ErrorView::InsufficientData { remaining, length, field_num } => text
                    == "Insufficient data remaining ("@ + (decimal(remaining) + (
                " bytes) to read "@ + (decimal(length as nat) + (" bytes for field "@ + decimal(
                    field_num as nat,
                ))))),
                ErrorView::UnsupportedWireType(wire_type) => text == "Messages with "@ + (
                wire_type.spec_name() + " wire type fields are not supported"@),
            }
        }),
{
    let text = error_text(error, cause, named_type);
    match error {
        ErrorView::EnumNotFound { field_num, .. } => {
            assert(text =~= "Did not find the enum "@ + (named_type + (" for the field "@ + (decimal(
                field_num as nat,
            ) + " in the Protobuf descriptor"@))));
        },
        ErrorView::MessageNotFound { field_num, .. } => {
            assert(text =~= "Did not find the embedded message "@ + (named_type + (
            " for the field "@ + (decimal(field_num as nat) + " in the Protobuf descriptor"@))));
        },
        ErrorView::InsufficientData { remaining, length, field_num } => {
            assert(text =~= "Insufficient data remaining ("@ + (decimal(remaining) + (
            " bytes) to read "@ + (decimal(length as nat) + (" bytes for field "@ + decimal(
                field_num as nat,
            ))))));
        },
        ErrorView::UnsupportedWireType(wire_type) => {
            assert(text =~= "Messages with "@ + (wire_type.spec_name()
                + " wire type fields are not supported"@));
        },
        _ => {},
    }
}

} // verus!
