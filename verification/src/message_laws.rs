//! What holds of decoding for all messages.
use crate::descriptor::{
    declared_type, enum_of, field_of, message_of, DescriptorView, FieldDescriptorView, Type,
};
use crate::field::{FieldDataView, FieldView};
use crate::message_decoder::{
    after_fields, byte_count, field_payload, known_payload, lemma_payload_suffix, stably_sorted,
    unknown_payload, varint_data, wire_fields, with_number, ErrorView, Outcome, Payload,
};
use crate::wire::{
    field_key, key_bytes, le_bytes, lemma_key_length, lemma_key_prefix, lemma_key_read_back,
    lemma_le_read_back_32, lemma_le_read_back_64, lemma_varint_length, lemma_varint_prefix,
    lemma_varint_read_back, varint, varint_bytes, zigzag_code, WireType,
};
use vstd::prelude::*;
use vstd::utf8::{encode_utf8, encode_utf8_decode_utf8, encode_utf8_valid_utf8};

verus! {

/// A message without bytes has no fields.
pub proof fn lemma_empty_message(message: DescriptorView, files: Seq<Seq<DescriptorView>>)
    ensures
        wire_fields(seq![], message, files) == Outcome::Fields(seq![]),
{
}

/// Every field number that is read is positive and takes at most 29 bits.
pub proof fn lemma_field_numbers(
    bytes: Seq<u8>,
    message: DescriptorView,
    files: Seq<Seq<DescriptorView>>,
)
    ensures
        wire_fields(bytes, message, files) matches Outcome::Fields(fields) ==> forall|i: int|
            0 <= i < fields.len() ==> 1 <= (#[trigger] fields[i]).field_num < 0x2000_0000,
    decreases bytes.len(),
{
    if let Some((field_num, wire_type, size)) = field_key(bytes) {
        lemma_key_length(bytes);
        let after_key = bytes.skip(size as int);
        if let Payload::Data(data, rest) = field_payload(
            after_key,
            wire_type,
            field_num,
            message,
            files,
        ) {
            lemma_payload_suffix(
                after_key,
                wire_type,
                field_num,
                message,
                files,
            );
            lemma_field_numbers(rest, message, files);
        }
    }
}

/// The data of a field that the descriptor does not know is unknown.
pub proof fn lemma_unknown_field(
    bytes: Seq<u8>,
    wire_type: WireType,
    field_num: u32,
    message: DescriptorView,
    files: Seq<Seq<DescriptorView>>,
)
    requires
        field_of(message, field_num as i32) is None,
    ensures
        field_payload(bytes, wire_type, field_num, message, files) matches Payload::Data(data, _)
            ==> data is Unknown,
{
}

/// The wire type that fields of a type are written with.
pub open spec fn wire_type_for(field_type: Type) -> WireType {
    match field_type {
        Type::Double | Type::Fixed64 | Type::Sfixed64 => WireType::SixtyFourBit,
        Type::Float | Type::Fixed32 | Type::Sfixed32 => WireType::ThirtyTwoBit,
        Type::String | Type::Bytes | Type::Message => WireType::LengthDelimited,
        Type::Group => WireType::StartGroup,
        _ => WireType::Varint,
    }
}

/// The data of a field that the descriptor knows is unknown exactly where its wire type is not
/// that of its declared type.
pub proof fn lemma_unknown_where_types_differ(
    bytes: Seq<u8>,
    wire_type: WireType,
    field: FieldDescriptorView,
    field_num: u32,
    message: DescriptorView,
    files: Seq<Seq<DescriptorView>>,
)
    ensures
        known_payload(bytes, wire_type, field, field_num, message, files) matches Payload::Data(
            data,
            _,
        ) ==> (data is Unknown <==> wire_type != wire_type_for(declared_type(field.field_type))),
{
}

/// Bytes that follow a payload have no part in it.
pub proof fn lemma_payload_prefix(
    bytes: Seq<u8>,
    more: Seq<u8>,
    wire_type: WireType,
    field_num: u32,
    message: DescriptorView,
    files: Seq<Seq<DescriptorView>>,
)
    ensures
        field_payload(bytes, wire_type, field_num, message, files) matches Payload::Data(data, rest)
            ==> field_payload(bytes + more, wire_type, field_num, message, files) == Payload::Data(
            data,
            rest + more,
        ),
{
    match wire_type {
        WireType::Varint | WireType::LengthDelimited => {
            if varint(bytes) is Some {
                lemma_varint_prefix(bytes, more, 10);
                lemma_varint_length(bytes, 10);
                let (value, size) = varint(bytes)->0;
                let rest = bytes.skip(size as int);
                assert((bytes + more).skip(size as int) =~= rest + more);
                let count = byte_count(value as u64) as int;
                if rest.len() >= count {
                    assert((rest + more).take(count) =~= rest.take(count));
                    assert((rest + more).skip(count) =~= rest.skip(count) + more);
                }
            }
        },
        WireType::SixtyFourBit => {
            if bytes.len() >= 8 {
                assert((bytes + more).take(8) =~= bytes.take(8));
                assert((bytes + more).skip(8) =~= bytes.skip(8) + more);
            }
        },
        WireType::ThirtyTwoBit => {
            if bytes.len() >= 4 {
                assert((bytes + more).take(4) =~= bytes.take(4));
                assert((bytes + more).skip(4) =~= bytes.skip(4) + more);
            }
        },
        _ => {},
    }
}

/// One message after another decodes to the fields of the first and then whatever the second
/// comes to.
pub proof fn lemma_concatenated_messages(
    first: Seq<u8>,
    second: Seq<u8>,
    message: DescriptorView,
    files: Seq<Seq<DescriptorView>>,
)
    requires
        wire_fields(first, message, files) is Fields,
    ensures
        wire_fields(first + second, message, files) == after_fields(
            wire_fields(first, message, files)->Fields_0,
            wire_fields(second, message, files),
        ),
    decreases first.len(),
{
    let outcome = wire_fields(second, message, files);
    if first.len() == 0 {
        assert(first + second =~= second);
        if outcome is Fields {
            assert(seq![] + outcome->Fields_0 =~= outcome->Fields_0);
        }
    } else {
        let (field_num, wire_type, size) = field_key(first)->0;
        lemma_key_length(first);
        lemma_key_prefix(first, second);
        let after_key = first.skip(size as int);
        assert((first + second).skip(size as int) =~= after_key + second);
        lemma_payload_prefix(after_key, second, wire_type, field_num, message, files);
        lemma_payload_suffix(
            after_key,
            wire_type,
            field_num,
            message,
            files,
        );
        let payload = field_payload(after_key, wire_type, field_num, message, files);
        let rest = payload->Data_1;
        lemma_concatenated_messages(rest, second, message, files);
        let field = FieldView { field_num, wire_type, data: payload->Data_0 };
        let fields = wire_fields(rest, message, files)->Fields_0;
        if outcome is Fields {
            assert(seq![field] + (fields + outcome->Fields_0) =~= (seq![field] + fields)
                + outcome->Fields_0);
        }
    }
}

/// Bytes behind their length.
pub open spec fn with_length(bytes: Seq<u8>) -> Seq<u8> {
    varint_bytes(bytes.len()) + bytes
}

/// The payload of field data on the wire, in a field of the type `field_type`.
pub open spec fn payload_bytes(data: FieldDataView, field_type: Type) -> Seq<u8> {
    match data {
        FieldDataView::String(s) => with_length(encode_utf8(s)),
        FieldDataView::Boolean(b) => varint_bytes(if b { 1 } else { 0 }),
        FieldDataView::UInteger32(n) => match field_type {
            Type::Fixed32 => le_bytes(n as nat, 4),
            _ => varint_bytes(n as nat),
        },
        FieldDataView::Integer32(n) => match field_type {
            Type::Sfixed32 => le_bytes((n as int % 0x1_0000_0000) as nat, 4),
            Type::Sint32 => varint_bytes(zigzag_code(n as int)),
            _ => varint_bytes((n as int % 0x1_0000_0000_0000_0000) as nat),
        },
        FieldDataView::UInteger64(n) => match field_type {
            Type::Fixed64 => le_bytes(n as nat, 8),
            _ => varint_bytes(n as nat),
        },
        FieldDataView::Integer64(n) => match field_type {
            Type::Sfixed64 => le_bytes((n as int % 0x1_0000_0000_0000_0000) as nat, 8),
            Type::Sint64 => varint_bytes(zigzag_code(n as int)),
            _ => varint_bytes((n as int % 0x1_0000_0000_0000_0000) as nat),
        },
        FieldDataView::Float(bits) => le_bytes(bits as nat, 4),
        FieldDataView::Double(bits) => le_bytes(bits as nat, 8),
        FieldDataView::Bytes(b) => with_length(b),
        FieldDataView::Enum(n, _) => varint_bytes((n as int % 0x1_0000_0000_0000_0000) as nat),
        FieldDataView::Message(b, _) => with_length(b),
        FieldDataView::Unknown(b) => b,
    }
}

/// The data is of the kind that the field declares, and no longer than memory can hold.
pub open spec fn is_declared(
    data: FieldDataView,
    field: FieldDescriptorView,
    message: DescriptorView,
    files: Seq<Seq<DescriptorView>>,
) -> bool {
    let field_type = declared_type(field.field_type);
    match data {
        FieldDataView::String(s) => field_type is String && encode_utf8(s).len() <= usize::MAX,
        FieldDataView::Boolean(_) => field_type is Bool,
        FieldDataView::UInteger32(_) => field_type is Uint32 || field_type is Fixed32,
        FieldDataView::Integer32(_) => {
            field_type is Int32 || field_type is Sint32 || field_type is Sfixed32
        },
        FieldDataView::UInteger64(_) => field_type is Uint64 || field_type is Fixed64,
        FieldDataView::Integer64(_) => {
            field_type is Int64 || field_type is Sint64 || field_type is Sfixed64
        },
        FieldDataView::Float(_) => field_type is Float,
        FieldDataView::Double(_) => field_type is Double,
        FieldDataView::Bytes(b) => field_type is Bytes && b.len() <= usize::MAX,
        FieldDataView::Enum(_, descriptor) => {
            field_type is Enum && enum_of(message, field.named_type) == Some(descriptor)
        },
        FieldDataView::Message(b, descriptor) => {
            &&& field_type is Message
            &&& message_of(message, field.named_type, files) == Some(descriptor)
            &&& b.len() <= usize::MAX
        },
        FieldDataView::Unknown(_) => false,
    }
}

proof fn lemma_length_read_back(bytes: Seq<u8>, more: Seq<u8>)
    requires
        bytes.len() <= usize::MAX,
    ensures
        ({
            let all = with_length(bytes) + more;
            let size = varint_bytes(bytes.len()).len();
            &&& varint(all) == Some((bytes.len(), size))
            &&& all.skip(size as int) == bytes + more
            &&& byte_count(bytes.len() as u64) == bytes.len()
            &&& (bytes + more).take(bytes.len() as int) == bytes
            &&& (bytes + more).skip(bytes.len() as int) == more
        }),
{
    let all = with_length(bytes) + more;
    lemma_varint_read_back(bytes.len() as u64, bytes + more);
    assert(all =~= varint_bytes(bytes.len()) + (bytes + more));
    assert(all.skip(varint_bytes(bytes.len()).len() as int) =~= bytes + more);
    assert((bytes + more).take(bytes.len() as int) =~= bytes);
    assert((bytes + more).skip(bytes.len() as int) =~= more);
}

proof fn lemma_value_read_back(value: u64, more: Seq<u8>)
    ensures
        ({
            let all = varint_bytes(value as nat) + more;
            let size = varint_bytes(value as nat).len();
            &&& varint(all) == Some((value as nat, size))
            &&& all.skip(size as int) == more
        }),
{
    lemma_varint_read_back(value, more);
    let size = varint_bytes(value as nat).len() as int;
    assert((varint_bytes(value as nat) + more).skip(size) =~= more);
}

proof fn lemma_sixty_four_bit_read_back(
    data: FieldDataView,
    field: FieldDescriptorView,
    field_num: u32,
    message: DescriptorView,
    files: Seq<Seq<DescriptorView>>,
    more: Seq<u8>,
)
    requires
        is_declared(data, field, message, files),
        wire_type_for(declared_type(field.field_type)) == WireType::SixtyFourBit,
    ensures
        known_payload(
            payload_bytes(data, declared_type(field.field_type)) + more,
            WireType::SixtyFourBit,
            field,
            field_num,
            message,
            files,
        ) == Payload::Data(data, more),
{
    let field_type = declared_type(field.field_type);
    let bytes = payload_bytes(data, field_type);
    let value = match data {
        FieldDataView::UInteger64(n) => n,
        FieldDataView::Integer64(n) => (n as int % 0x1_0000_0000_0000_0000) as u64,
        FieldDataView::Double(bits) => bits,
        _ => 0,
    };
    lemma_le_read_back_64(value);
    assert((bytes + more).take(8) =~= bytes);
    assert((bytes + more).skip(8) =~= more);
}

proof fn lemma_thirty_two_bit_read_back(
    data: FieldDataView,
    field: FieldDescriptorView,
    field_num: u32,
    message: DescriptorView,
    files: Seq<Seq<DescriptorView>>,
    more: Seq<u8>,
)
    requires
        is_declared(data, field, message, files),
        wire_type_for(declared_type(field.field_type)) == WireType::ThirtyTwoBit,
    ensures
        known_payload(
            payload_bytes(data, declared_type(field.field_type)) + more,
            WireType::ThirtyTwoBit,
            field,
            field_num,
            message,
            files,
        ) == Payload::Data(data, more),
{
    let field_type = declared_type(field.field_type);
    let bytes = payload_bytes(data, field_type);
    let value = match data {
        FieldDataView::UInteger32(n) => n,
        FieldDataView::Integer32(n) => (n as int % 0x1_0000_0000) as u32,
        FieldDataView::Float(bits) => bits,
        _ => 0,
    };
    lemma_le_read_back_32(value);
    assert((bytes + more).take(4) =~= bytes);
    assert((bytes + more).skip(4) =~= more);
}

proof fn lemma_delimited_read_back(
    data: FieldDataView,
    field: FieldDescriptorView,
    field_num: u32,
    message: DescriptorView,
    files: Seq<Seq<DescriptorView>>,
    more: Seq<u8>,
)
    requires
        is_declared(data, field, message, files),
        wire_type_for(declared_type(field.field_type)) == WireType::LengthDelimited,
    ensures
        known_payload(
            payload_bytes(data, declared_type(field.field_type)) + more,
            WireType::LengthDelimited,
            field,
            field_num,
            message,
            files,
        ) == Payload::Data(data, more),
{
    let field_type = declared_type(field.field_type);
    let bytes = payload_bytes(data, field_type);
    let content = match data {
        FieldDataView::String(s) => encode_utf8(s),
        FieldDataView::Bytes(b) => b,
        FieldDataView::Message(b, _) => b,
        _ => seq![],
    };
    assert(bytes == with_length(content));
    lemma_length_read_back(content, more);
    if let FieldDataView::String(s) = data {
        encode_utf8_valid_utf8(s);
        encode_utf8_decode_utf8(s);
    }
}

proof fn lemma_varint_field_read_back(
    data: FieldDataView,
    field: FieldDescriptorView,
    field_num: u32,
    message: DescriptorView,
    files: Seq<Seq<DescriptorView>>,
    more: Seq<u8>,
)
    requires
        is_declared(data, field, message, files),
        wire_type_for(declared_type(field.field_type)) == WireType::Varint,
    ensures
        known_payload(
            payload_bytes(data, declared_type(field.field_type)) + more,
            WireType::Varint,
            field,
            field_num,
            message,
            files,
        ) == Payload::Data(data, more),
{
    let field_type = declared_type(field.field_type);
    let bytes = payload_bytes(data, field_type);
    let value = match data {
        FieldDataView::Boolean(b) => if b { 1 } else { 0 },
        FieldDataView::UInteger32(n) => n as int,
        FieldDataView::Integer32(n) => if field_type is Sint32 {
            zigzag_code(n as int) as int
        } else {
            n as int % 0x1_0000_0000_0000_0000
        },
        FieldDataView::UInteger64(n) => n as int,
        FieldDataView::Integer64(n) => if field_type is Sint64 {
            zigzag_code(n as int) as int
        } else {
            n as int % 0x1_0000_0000_0000_0000
        },
        FieldDataView::Enum(n, _) => n as int % 0x1_0000_0000_0000_0000,
        _ => 0,
    };
    assert(bytes == varint_bytes(value as nat));
    lemma_value_read_back(value as u64, more);
    assert(varint_data(value as u64, field, field_num, message) == Ok::<FieldDataView, ErrorView>(
        data,
    ));
}

/// Field data of the declared kind is read back from its payload, whatever follows it.
pub proof fn lemma_payload_read_back(
    data: FieldDataView,
    field: FieldDescriptorView,
    field_num: u32,
    message: DescriptorView,
    files: Seq<Seq<DescriptorView>>,
    more: Seq<u8>,
)
    requires
        is_declared(data, field, message, files),
    ensures
        ({
            let field_type = declared_type(field.field_type);
            known_payload(
                payload_bytes(data, field_type) + more,
                wire_type_for(field_type),
                field,
                field_num,
                message,
                files,
            ) == Payload::Data(data, more)
        }),
{
    match wire_type_for(declared_type(field.field_type)) {
        WireType::SixtyFourBit => lemma_sixty_four_bit_read_back(
            data,
            field,
            field_num,
            message,
            files,
            more,
        ),
        WireType::ThirtyTwoBit => lemma_thirty_two_bit_read_back(
            data,
            field,
            field_num,
            message,
            files,
            more,
        ),
        WireType::LengthDelimited => lemma_delimited_read_back(
            data,
            field,
            field_num,
            message,
            files,
            more,
        ),
        WireType::Varint => lemma_varint_field_read_back(
            data,
            field,
            field_num,
            message,
            files,
            more,
        ),
        _ => {},
    }
}

/// The data of a field that the descriptor does not know keeps what was on the wire: the value of
/// a varint, and delimited bytes with their length.
pub proof fn lemma_unknown_read_back(value: u64, bytes: Seq<u8>, more: Seq<u8>)
    requires
        bytes.len() <= usize::MAX,
    ensures
        unknown_payload(varint_bytes(value as nat) + more, WireType::Varint) == Payload::Data(
            FieldDataView::Unknown(le_bytes(value as nat, 8)),
            more,
        ),
        unknown_payload(with_length(bytes) + more, WireType::LengthDelimited) == Payload::Data(
            FieldDataView::Unknown(with_length(bytes)),
            more,
        ),
{
    lemma_value_read_back(value, more);
    lemma_length_read_back(bytes, more);
}

/// A payload counts as cut off exactly where fewer bytes remain than its fixed width, or than the
/// length of a field that the descriptor does not know.
pub proof fn lemma_truncated_payload(
    bytes: Seq<u8>,
    wire_type: WireType,
    field_num: u32,
    message: DescriptorView,
    files: Seq<Seq<DescriptorView>>,
)
    ensures
        field_payload(bytes, wire_type, field_num, message, files) is Truncated <==> {
            ||| wire_type is SixtyFourBit && bytes.len() < 8
            ||| wire_type is ThirtyTwoBit && bytes.len() < 4
            ||| wire_type is LengthDelimited && field_of(message, field_num as i32) is None && (
            varint(bytes) matches Some((length, size)) && bytes.len() - size < byte_count(
                length as u64,
            ))
        },
{
    lemma_varint_length(bytes, 10);
}

/// The bytes of a message with these fields: the key and the payload of each.
pub open spec fn message_bytes(fields: Seq<FieldView>, message: DescriptorView) -> Seq<u8>
    decreases fields.len(),
{
    if fields.len() == 0 {
        seq![]
    } else {
        let field_num = fields[0].field_num;
        let field_type = match field_of(message, field_num as i32) {
            Some(field) => declared_type(field.field_type),
            None => Type::Double,
        };
        key_bytes(field_num, fields[0].wire_type) + (payload_bytes(fields[0].data, field_type)
            + message_bytes(fields.skip(1), message))
    }
}

/// The message declares the field, and the field is as it declares it.
pub open spec fn is_declared_field(
    field: FieldView,
    message: DescriptorView,
    files: Seq<Seq<DescriptorView>>,
) -> bool {
    &&& 1 <= field.field_num < 0x2000_0000
    &&& field_of(message, field.field_num as i32) matches Some(declared) && {
        &&& field.wire_type == wire_type_for(declared_type(declared.field_type))
        &&& is_declared(field.data, declared, message, files)
    }
}

/// The fields that a message was written with are read back from its bytes.
pub proof fn lemma_message_read_back(
    fields: Seq<FieldView>,
    message: DescriptorView,
    files: Seq<Seq<DescriptorView>>,
)
    requires
        forall|i: int|
            0 <= i < fields.len() ==> is_declared_field(#[trigger] fields[i], message, files),
    ensures
        wire_fields(message_bytes(fields, message), message, files) == Outcome::Fields(fields),
    decreases fields.len(),
{
    if fields.len() == 0 {
        assert(fields =~= seq![]);
    } else {
        let field = fields[0];
        assert(is_declared_field(field, message, files));
        let declared = field_of(message, field.field_num as i32)->0;
        let rest = fields.skip(1);
        let more = message_bytes(rest, message);
        let payload = payload_bytes(field.data, declared_type(declared.field_type)) + more;
        let key = key_bytes(field.field_num, field.wire_type);
        lemma_message_read_back(rest, message, files);
        lemma_payload_read_back(field.data, declared, field.field_num, message, files, more);
        lemma_key_read_back(field.field_num, field.wire_type, payload);
        lemma_key_length(key + payload);
        assert((key + payload).skip(key.len() as int) =~= payload);
        assert(fields =~= seq![field] + rest);
    }
}

/// Two rows of fields hold the same fields under each number, in the same order.
spec fn same_by_number(a: Seq<FieldView>, b: Seq<FieldView>) -> bool {
    forall|field_num: u32| #[trigger] with_number(a, field_num) == with_number(b, field_num)
}

spec fn ascending(fields: Seq<FieldView>) -> bool {
    forall|i: int, j: int|
        0 <= i <= j < fields.len() ==> fields[i].field_num <= fields[j].field_num
}

proof fn lemma_with_number_members(fields: Seq<FieldView>, field_num: u32)
    ensures
        forall|i: int|
            0 <= i < with_number(fields, field_num).len() ==> fields.contains(
                #[trigger] with_number(fields, field_num)[i],
            ),
    decreases fields.len(),
{
    reveal(Seq::filter);
    if fields.len() > 0 {
        let rest = fields.drop_last();
        lemma_with_number_members(rest, field_num);
        assert forall|i: int| 0 <= i < with_number(fields, field_num).len() implies fields.contains(
            #[trigger] with_number(fields, field_num)[i],
        ) by {
            let found = with_number(fields, field_num)[i];
            if i < with_number(rest, field_num).len() {
                assert(rest.contains(with_number(rest, field_num)[i]));
                let j = choose|j: int| 0 <= j < rest.len() && rest[j] == found;
                assert(fields[j] == found);
            } else {
                assert(fields.last() == found);
            }
        }
    }
}

/// The greatest number of one ascending row is at most that of the other.
proof fn lemma_last_number(a: Seq<FieldView>, b: Seq<FieldView>)
    requires
        ascending(b),
        same_by_number(a, b),
        a.len() > 0,
    ensures
        b.len() > 0,
        a.last().field_num <= b.last().field_num,
{
    let field_num = a.last().field_num;
    reveal(Seq::filter);
    let found = with_number(a, field_num).last();
    assert(found == a.last());
    assert(with_number(b, field_num).last() == found);
    lemma_with_number_members(b, field_num);
    assert(b.contains(found));
}

proof fn lemma_same_rows(a: Seq<FieldView>, b: Seq<FieldView>)
    requires
        ascending(a),
        ascending(b),
        same_by_number(a, b),
    ensures
        a == b,
    decreases a.len(),
{
    if a.len() > 0 {
        lemma_last_number(a, b);
    }
    if b.len() > 0 {
        lemma_last_number(b, a);
    }
    if a.len() > 0 {
        let field_num = a.last().field_num;
        let shorter_a = a.drop_last();
        let shorter_b = b.drop_last();
        reveal(Seq::filter);
        assert(with_number(a, field_num) == with_number(b, field_num));
        assert(with_number(a, field_num).last() == a.last());
        assert(with_number(b, field_num).last() == b.last());
        assert(same_by_number(shorter_a, shorter_b)) by {
            assert forall|other: u32| #[trigger]
                with_number(shorter_a, other) == with_number(shorter_b, other) by {
                assert(with_number(a, other) == with_number(b, other));
                if other == field_num {
                    assert(with_number(shorter_a, other) =~= with_number(a, other).drop_last());
                    assert(with_number(shorter_b, other) =~= with_number(b, other).drop_last());
                }
            }
        }
        lemma_same_rows(shorter_a, shorter_b);
        assert(a =~= shorter_a.push(a.last()));
        assert(b =~= shorter_b.push(b.last()));
    } else {
        assert(a =~= b);
    }
}

/// There is one way to sort fields by number that keeps the order of those with the same number.
pub proof fn lemma_sorted_fields_unique(
    fields: Seq<FieldView>,
    a: Seq<FieldView>,
    b: Seq<FieldView>,
)
    requires
        stably_sorted(fields, a),
        stably_sorted(fields, b),
    ensures
        a == b,
{
    assert forall|field_num: u32| #[trigger]
        with_number(a, field_num) == with_number(b, field_num) by {
        assert(with_number(a, field_num) == with_number(fields, field_num));
    }
    lemma_same_rows(a, b);
}

/// Fields that are in ascending order stay where they are.
pub proof fn lemma_sorted_fields_stay(fields: Seq<FieldView>, sorted: Seq<FieldView>)
    requires
        stably_sorted(fields, sorted),
        forall|i: int, j: int|
            0 <= i <= j < fields.len() ==> fields[i].field_num <= fields[j].field_num,
    ensures
        sorted == fields,
{
    lemma_sorted_fields_unique(fields, sorted, fields);
}

proof fn lemma_count_by_number(fields: Seq<FieldView>, field: FieldView)
    ensures
        fields.to_multiset().count(field) == with_number(
            fields,
            field.field_num,
        ).to_multiset().count(field),
    decreases fields.len(),
{
    broadcast use vstd::seq_lib::group_to_multiset_ensures;

    reveal(Seq::filter);
    if fields.len() > 0 {
        let rest = fields.drop_last();
        lemma_count_by_number(rest, field);
        assert(fields =~= rest.push(fields.last()));
    } else {
        assert(with_number(fields, field.field_num) =~= fields);
    }
}

/// Sorting neither adds nor loses a field.
pub proof fn lemma_sorting_keeps_fields(fields: Seq<FieldView>, sorted: Seq<FieldView>)
    requires
        stably_sorted(fields, sorted),
    ensures
        sorted.to_multiset() == fields.to_multiset(),
        sorted.len() == fields.len(),
{
    broadcast use vstd::seq_lib::group_to_multiset_ensures;

    assert forall|field: FieldView| #[trigger]
        sorted.to_multiset().count(field) == fields.to_multiset().count(field) by {
        lemma_count_by_number(sorted, field);
        lemma_count_by_number(fields, field);
        assert(with_number(sorted, field.field_num) == with_number(fields, field.field_num));
    }
    assert(sorted.to_multiset() =~= fields.to_multiset());
    assert(sorted.len() == sorted.to_multiset().len());
    assert(fields.len() == fields.to_multiset().len());
}

/// Two messages that share no field number decode to the same fields together, whichever comes
/// first.
pub proof fn lemma_message_order(
    first: Seq<u8>,
    second: Seq<u8>,
    message: DescriptorView,
    files: Seq<Seq<DescriptorView>>,
    a: Seq<FieldView>,
    b: Seq<FieldView>,
)
    requires
        wire_fields(first, message, files) is Fields,
        wire_fields(second, message, files) is Fields,
        forall|left: FieldView, right: FieldView|
            #[trigger] wire_fields(first, message, files)->Fields_0.contains(left)
                && #[trigger] wire_fields(second, message, files)->Fields_0.contains(right)
                ==> left.field_num != right.field_num,
        stably_sorted(wire_fields(first + second, message, files)->Fields_0, a),
        stably_sorted(wire_fields(second + first, message, files)->Fields_0, b),
    ensures
        a == b,
{
    lemma_concatenated_messages(first, second, message, files);
    lemma_concatenated_messages(second, first, message, files);
    let fields_a = wire_fields(first, message, files)->Fields_0;
    let fields_b = wire_fields(second, message, files)->Fields_0;
    assert forall|field_num: u32| #[trigger]
        with_number(a, field_num) == with_number(b, field_num) by {
        let has_number = |field: FieldView| field.field_num == field_num;
        assert(with_number(a, field_num) == with_number(fields_a + fields_b, field_num));
        assert(with_number(b, field_num) == with_number(fields_b + fields_a, field_num));
        Seq::filter_distributes_over_add(fields_a, fields_b, has_number);
        Seq::filter_distributes_over_add(fields_b, fields_a, has_number);
        let left = fields_a.filter(has_number);
        let right = fields_b.filter(has_number);
        if left.len() > 0 && right.len() > 0 {
            fields_a.lemma_filter_pred(has_number, 0);
            fields_b.lemma_filter_pred(has_number, 0);
            lemma_with_number_members(fields_a, field_num);
            lemma_with_number_members(fields_b, field_num);
            assert(fields_a.contains(with_number(fields_a, field_num)[0]));
            assert(fields_b.contains(with_number(fields_b, field_num)[0]));
        } else {
            assert(left + right =~= right + left);
        }
    }
    lemma_same_rows(a, b);
}

} // verus!
