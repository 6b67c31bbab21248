//! The Protobuf wire format: varints, field keys and fixed width integers.
use crate::text::decimal;
use vstd::prelude::*;

verus! {

/// How the payload of a field is laid out on the wire.
#[derive(Clone, Copy, Debug, PartialEq, Eq, Structural)]
pub enum WireType {
    /// A base 128 integer
    Varint,
    /// Eight bytes
    SixtyFourBit,
    /// A length as a varint, then that many bytes
    LengthDelimited,
    /// The start of a group
    StartGroup,
    /// The end of a group
    EndGroup,
    /// Four bytes
    ThirtyTwoBit,
}

impl WireType {
    /// The number that stands for the wire type in a field key.
    pub open spec fn number(self) -> nat {
        match self {
            WireType::Varint => 0,
            WireType::SixtyFourBit => 1,
            WireType::LengthDelimited => 2,
            WireType::StartGroup => 3,
            WireType::EndGroup => 4,
            WireType::ThirtyTwoBit => 5,
        }
    }

    /// The name of the wire type.
    pub open spec fn spec_name(self) -> Seq<char> {
        match self {
            WireType::Varint => "Varint"@,
            WireType::SixtyFourBit => "SixtyFourBit"@,
            WireType::LengthDelimited => "LengthDelimited"@,
            WireType::StartGroup => "StartGroup"@,
            WireType::EndGroup => "EndGroup"@,
            WireType::ThirtyTwoBit => "ThirtyTwoBit"@,
        }
    }

    /// The name of the wire type.
    pub fn name(&self) -> (r: &'static str)
        ensures
            r@ == self.spec_name(),
    {
        match self {
            WireType::Varint => "Varint",
            WireType::SixtyFourBit => "SixtyFourBit",
            WireType::LengthDelimited => "LengthDelimited",
            WireType::StartGroup => "StartGroup",
            WireType::EndGroup => "EndGroup",
            WireType::ThirtyTwoBit => "ThirtyTwoBit",
        }
    }
}

/// The wire type that `number` stands for, if there is one.
pub open spec fn wire_type_of(number: nat) -> Option<WireType> {
    if number == 0 {
        Some(WireType::Varint)
    } else if number == 1 {
        Some(WireType::SixtyFourBit)
    } else if number == 2 {
        Some(WireType::LengthDelimited)
    } else if number == 3 {
        Some(WireType::StartGroup)
    } else if number == 4 {
        Some(WireType::EndGroup)
    } else if number == 5 {
        Some(WireType::ThirtyTwoBit)
    } else {
        None
    }
}

/// The varint at the front of `bytes` if it ends within `limit` bytes: its value and its length.
/// The groups of seven bits come least significant first, and the last one that the limit
/// allows holds a single bit.
pub open spec fn varint_within(bytes: Seq<u8>, limit: nat) -> Option<(nat, nat)>
    decreases limit,
{
    if limit == 0 || bytes.len() == 0 {
        None
    } else if bytes[0] < 0x80 {
        if limit == 1 && bytes[0] >= 2 {
            None
        } else {
            Some((bytes[0] as nat, 1))
        }
    } else {
        match varint_within(bytes.skip(1), (limit - 1) as nat) {
            Some((high, length)) => Some(((bytes[0] - 0x80 + 0x80 * high) as nat, length + 1)),
            None => None,
        }
    }
}

/// The varint at the front of `bytes`: its value, which fits in 64 bits, and its length.
pub open spec fn varint(bytes: Seq<u8>) -> Option<(nat, nat)> {
    varint_within(bytes, 10)
}

/// The shortest varint that has the value `value`.
pub open spec fn varint_bytes(value: nat) -> Seq<u8>
    decreases value,
{
    if value < 0x80 {
        seq![value as u8]
    } else {
        seq![(value % 0x80 + 0x80) as u8] + varint_bytes(value / 0x80)
    }
}

/// The field key at the front of `bytes`: the field number, the wire type and the key's length.
/// A key is a varint of at most 32 bits, with the wire type in the low three.
pub open spec fn field_key(bytes: Seq<u8>) -> Option<(u32, WireType, nat)> {
    match varint(bytes) {
        Some((key, length)) => if key <= u32::MAX && key / 8 > 0 {
            match wire_type_of(key % 8) {
                Some(wire_type) => Some(((key / 8) as u32, wire_type, length)),
                None => None,
            }
        } else {
            None
        },
        None => None,
    }
}

/// The bytes of the field key for a field number and a wire type.
pub open spec fn key_bytes(field_num: u32, wire_type: WireType) -> Seq<u8> {
    varint_bytes((field_num * 8 + wire_type.number()) as nat)
}

/// The number whose bytes, least significant first, are `bytes`.
pub open spec fn le_value(bytes: Seq<u8>) -> nat
    decreases bytes.len(),
{
    if bytes.len() == 0 {
        0
    } else {
        (bytes[0] + 0x100 * le_value(bytes.skip(1))) as nat
    }
}

/// The low `count` bytes of `value`, least significant first.
pub open spec fn le_bytes(value: nat, count: nat) -> Seq<u8>
    decreases count,
{
    if count == 0 {
        seq![]
    } else {
        seq![(value % 0x100) as u8] + le_bytes(value / 0x100, (count - 1) as nat)
    }
}

/// The number that the low 32 bits of `value` are in two's complement.
pub open spec fn signed_32(value: nat) -> i32 {
    let low = value % 0x1_0000_0000;
    (if low < 0x8000_0000 { low as int } else { low - 0x1_0000_0000 }) as i32
}

/// The number that the low 64 bits of `value` are in two's complement.
pub open spec fn signed_64(value: nat) -> i64 {
    let low = value % 0x1_0000_0000_0000_0000;
    (if low < 0x8000_0000_0000_0000 { low as int } else { low - 0x1_0000_0000_0000_0000 }) as i64
}

/// What `value` stands for in the ZigZag encoding: 0, -1, 1, -2, 2 and so on.
pub open spec fn zigzag(value: nat) -> int {
    if value % 2 == 0 {
        (value / 2) as int
    } else {
        -1 - value / 2
    }
}

/// The value that stands for `number` in the ZigZag encoding.
pub open spec fn zigzag_code(number: int) -> nat {
    (if number >= 0 {
        2 * number
    } else {
        -2 * number - 1
    }) as nat
}

#[verifier::external_type_specification]
#[verifier::external_body]
pub struct ExDecodeError(prost::DecodeError);

/// The text that `Display` gives for a decoding error.
pub uninterp spec fn decode_error_text(error: prost::DecodeError) -> Seq<char>;

/// `prost::DecodeError` as `Display` writes it. What the text is is left to the name.
#[verifier::external_body]
pub(crate) fn describe_decode_error(error: &prost::DecodeError) -> (r: String)
    ensures
        r@ == decode_error_text(*error),
{
    error.to_string()
}

/// The text of a decoding error with this reason.
pub open spec fn decode_failure(reason: Seq<char>) -> Seq<char> {
    "failed to decode Protobuf message: "@ + reason
}

/// Why there is no field key at the front of `bytes`: no varint, more than 32 bits, no wire type
/// in the low three, or no field number in the others.
pub open spec fn key_failure(bytes: Seq<u8>) -> Seq<char> {
    match varint(bytes) {
        Some((key, _)) => if key > u32::MAX {
            "invalid key value: "@ + decimal(key)
        } else if wire_type_of(key % 8) is None {
            "invalid wire type value: "@ + decimal(key % 8)
        } else {
            "invalid tag value: 0"@
        },
        None => "invalid varint"@,
    }
}

/// `prost::encoding::decode_varint`: reads the varint at the front of the buffer and moves past
/// it. It fails where there is none, with an error that says so. Nothing is said of how far a
/// failed read moves.
#[verifier::external_body]
pub(crate) fn decode_varint(buffer: &mut &[u8]) -> (r: Result<u64, prost::DecodeError>)
    ensures
        r is Ok <==> varint(old(buffer)@) is Some,
        r matches Ok(value) ==> {
            &&& value == (varint(old(buffer)@)->0).0
            &&& final(buffer)@ == old(buffer)@.skip((varint(old(buffer)@)->0).1 as int)
        },
        r matches Err(error) ==> decode_error_text(error) == decode_failure("invalid varint"@),
        final(buffer)@.is_suffix_of(old(buffer)@),
{
    prost::encoding::decode_varint(buffer)
}

/// `prost::encoding::decode_key`: reads the field key at the front of the buffer and moves past
/// it. It fails where there is none, with an error that says why. Nothing is said of how far a
/// failed read moves.
#[verifier::external_body]
pub(crate) fn decode_key(buffer: &mut &[u8]) -> (r: Result<(u32, WireType), prost::DecodeError>)
    ensures
        r is Ok <==> field_key(old(buffer)@) is Some,
        r matches Ok((field_num, wire_type)) ==> {
            &&& field_num == (field_key(old(buffer)@)->0).0
            &&& wire_type == (field_key(old(buffer)@)->0).1
            &&& final(buffer)@ == old(buffer)@.skip((field_key(old(buffer)@)->0).2 as int)
        },
        r matches Err(error) ==> decode_error_text(error) == decode_failure(
            key_failure(old(buffer)@),
        ),
        final(buffer)@.is_suffix_of(old(buffer)@),
{
    let (field_num, wire_type) = prost::encoding::decode_key(buffer)?;
    Ok((field_num, match wire_type {
        prost::encoding::WireType::Varint => WireType::Varint,
        prost::encoding::WireType::SixtyFourBit => WireType::SixtyFourBit,
        prost::encoding::WireType::LengthDelimited => WireType::LengthDelimited,
        prost::encoding::WireType::StartGroup => WireType::StartGroup,
        prost::encoding::WireType::EndGroup => WireType::EndGroup,
        prost::encoding::WireType::ThirtyTwoBit => WireType::ThirtyTwoBit,
    }))
}

/// `prost::encoding::encode_varint`: the shortest varint with the value `value`.
#[verifier::external_body]
pub(crate) fn encode_varint(value: u64) -> (r: Vec<u8>)
    ensures
        r@ == varint_bytes(value as nat),
{
    let mut buffer = bytes::BytesMut::new();
    prost::encoding::encode_varint(value, &mut buffer);
    buffer.freeze().to_vec()
}

/// `bytes::Buf::get_u64_le`: reads eight bytes, least significant first.
#[verifier::external_body]
pub(crate) fn get_u64_le(buffer: &mut &[u8]) -> (r: u64)
    requires
        old(buffer)@.len() >= 8,
    ensures
        r == le_value(old(buffer)@.take(8)),
        final(buffer)@ == old(buffer)@.skip(8),
{
    bytes::Buf::get_u64_le(buffer)
}

/// `bytes::Buf::get_i64_le`: reads eight bytes, least significant first, in two's complement.
#[verifier::external_body]
pub(crate) fn get_i64_le(buffer: &mut &[u8]) -> (r: i64)
    requires
        old(buffer)@.len() >= 8,
    ensures
        r == signed_64(le_value(old(buffer)@.take(8))),
        final(buffer)@ == old(buffer)@.skip(8),
{
    bytes::Buf::get_i64_le(buffer)
}

/// `bytes::Buf::get_u64`: reads eight bytes, most significant first.
#[verifier::external_body]
pub(crate) fn get_u64(buffer: &mut &[u8]) -> (r: u64)
    requires
        old(buffer)@.len() >= 8,
    ensures
        r == le_value(old(buffer)@.take(8).reverse()),
        final(buffer)@ == old(buffer)@.skip(8),
{
    bytes::Buf::get_u64(buffer)
}

/// `bytes::Buf::get_u32_le`: reads four bytes, least significant first.
#[verifier::external_body]
pub(crate) fn get_u32_le(buffer: &mut &[u8]) -> (r: u32)
    requires
        old(buffer)@.len() >= 4,
    ensures
        r == le_value(old(buffer)@.take(4)),
        final(buffer)@ == old(buffer)@.skip(4),
{
    bytes::Buf::get_u32_le(buffer)
}

/// `bytes::Buf::get_i32_le`: reads four bytes, least significant first, in two's complement.
#[verifier::external_body]
pub(crate) fn get_i32_le(buffer: &mut &[u8]) -> (r: i32)
    requires
        old(buffer)@.len() >= 4,
    ensures
        r == signed_32(le_value(old(buffer)@.take(4))),
        final(buffer)@ == old(buffer)@.skip(4),
{
    bytes::Buf::get_i32_le(buffer)
}

/// `bytes::Buf::get_u32`: reads four bytes, most significant first.
#[verifier::external_body]
pub(crate) fn get_u32(buffer: &mut &[u8]) -> (r: u32)
    requires
        old(buffer)@.len() >= 4,
    ensures
        r == le_value(old(buffer)@.take(4).reverse()),
        final(buffer)@ == old(buffer)@.skip(4),
{
    bytes::Buf::get_u32(buffer)
}

/// `bytes::Buf::copy_to_bytes`: reads the next `length` bytes.
#[verifier::external_body]
pub(crate) fn copy_to_bytes(buffer: &mut &[u8], length: usize) -> (r: Vec<u8>)
    requires
        old(buffer)@.len() >= length,
    ensures
        r@ == old(buffer)@.take(length as int),
        final(buffer)@ == old(buffer)@.skip(length as int),
{
    bytes::Buf::copy_to_bytes(buffer, length).to_vec()
}

/// The low `count` bytes of `value`, least significant first.
pub(crate) fn to_le_bytes(value: u64, count: usize) -> (r: Vec<u8>)
    ensures
        r@ == le_bytes(value as nat, count as nat),
{
    let mut bytes: Vec<u8> = Vec::new();
    let mut rest: u64 = value;
    while bytes.len() < count
        invariant
            bytes@.len() <= count,
            bytes@ + le_bytes(rest as nat, (count - bytes@.len()) as nat) == le_bytes(
                value as nat,
                count as nat,
            ),
        decreases count - bytes@.len(),
    {
        let ghost before = bytes@;
        let ghost tail = le_bytes((rest / 0x100) as nat, (count - bytes@.len() - 1) as nat);
        let low: u8 = (rest % 0x100) as u8;
        bytes.push(low);
        rest = rest / 0x100;
        assert(bytes@ + tail =~= before + (seq![low] + tail));
    }
    assert(bytes@ + Seq::<u8>::empty() =~= bytes@);
    bytes
}

/// The low 32 bits of `value` in two's complement.
pub(crate) fn to_signed_32(value: u64) -> (r: i32)
    ensures
        r == signed_32(value as nat),
{
    assert(value as i32 == (if value % 0x1_0000_0000 < 0x8000_0000 {
        (value % 0x1_0000_0000) as int
    } else {
        value % 0x1_0000_0000 - 0x1_0000_0000
    })) by (bit_vector);
    value as i32
}

/// The low 32 bits of `value`.
pub(crate) fn to_unsigned_32(value: u64) -> (r: u32)
    ensures
        r == value % 0x1_0000_0000,
{
    assert(value as u32 == value % 0x1_0000_0000) by (bit_vector);
    value as u32
}

/// `value` in two's complement.
pub(crate) fn to_signed_64(value: u64) -> (r: i64)
    ensures
        r == signed_64(value as nat),
{
    assert(value as i64 == (if value < 0x8000_0000_0000_0000 {
        value as int
    } else {
        value - 0x1_0000_0000_0000_0000
    })) by (bit_vector);
    value as i64
}

/// The 32 bits of `value` in two's complement.
pub(crate) fn bits_32(value: i32) -> (r: u32)
    ensures
        r == value as int % 0x1_0000_0000,
{
    assert(value as u32 == (if value >= 0 { value as int } else { value + 0x1_0000_0000 }))
        by (bit_vector);
    value as u32
}

/// The 64 bits of `value` in two's complement.
pub(crate) fn bits_64(value: i64) -> (r: u64)
    ensures
        r == value as int % 0x1_0000_0000_0000_0000,
{
    assert(value as u64 == (if value >= 0 { value as int } else {
        value + 0x1_0000_0000_0000_0000
    })) by (bit_vector);
    value as u64
}

/// What `value` stands for in the ZigZag encoding of 32 bit integers.
pub(crate) fn zigzag_32(value: u32) -> (r: i32)
    ensures
        r == zigzag(value as nat),
{
    assert(value & 1 <= 1) by (bit_vector);
    let magnitude: i32 = (value >> 1) as i32;
    let sign: i32 = -((value & 1) as i32);
    assert(magnitude ^ sign == (if value % 2 == 0 { (value / 2) as int } else { -1 - value / 2 }))
        by (bit_vector)
        requires
            magnitude == (value >> 1) as i32,
            sign == -((value & 1) as i32),
    ;
    magnitude ^ sign
}

/// What `value` stands for in the ZigZag encoding of 64 bit integers.
pub(crate) fn zigzag_64(value: u64) -> (r: i64)
    ensures
        r == zigzag(value as nat),
{
    assert(value & 1 <= 1) by (bit_vector);
    let magnitude: i64 = (value >> 1) as i64;
    let sign: i64 = -((value & 1) as i64);
    assert(magnitude ^ sign == (if value % 2 == 0 { (value / 2) as int } else { -1 - value / 2 }))
        by (bit_vector)
        requires
            magnitude == (value >> 1) as i64,
            sign == -((value & 1) as i64),
    ;
    magnitude ^ sign
}

/// A varint takes at least one of the bytes that it is read from, and no more than there are.
pub proof fn lemma_varint_length(bytes: Seq<u8>, limit: nat)
    ensures
        varint_within(bytes, limit) matches Some((value, length)) ==> {
            &&& 1 <= length <= bytes.len()
            &&& length <= limit
        },
    decreases limit,
{
    if limit > 0 && bytes.len() > 0 && bytes[0] >= 0x80 {
        lemma_varint_length(bytes.skip(1), (limit - 1) as nat);
    }
}

/// Bytes that follow a varint have no part in it.
pub proof fn lemma_varint_prefix(bytes: Seq<u8>, more: Seq<u8>, limit: nat)
    requires
        varint_within(bytes, limit) is Some,
    ensures
        varint_within(bytes + more, limit) == varint_within(bytes, limit),
    decreases limit,
{
    if bytes[0] >= 0x80 {
        assert((bytes + more).skip(1) =~= bytes.skip(1) + more);
        lemma_varint_prefix(bytes.skip(1), more, (limit - 1) as nat);
    }
}

/// The shortest varint of a 64 bit value is read back as that value, whatever follows it.
pub proof fn lemma_varint_read_back(value: u64, more: Seq<u8>)
    ensures
        varint(varint_bytes(value as nat) + more) == Some(
            (value as nat, varint_bytes(value as nat).len()),
        ),
{
    reveal_with_fuel(varint_bound, 10);
    lemma_varint_read_back_within(value as nat, 10, more);
}

/// The values that a varint of at most `limit` bytes can have.
spec fn varint_bound(limit: nat) -> nat
    decreases limit,
{
    if limit <= 1 {
        2
    } else {
        0x80 * varint_bound((limit - 1) as nat)
    }
}

proof fn lemma_varint_read_back_within(value: nat, limit: nat, more: Seq<u8>)
    requires
        limit > 0,
        value < varint_bound(limit),
    ensures
        varint_within(varint_bytes(value) + more, limit) == Some(
            (value, varint_bytes(value).len()),
        ),
    decreases limit,
{
    let bytes = varint_bytes(value);
    if value >= 0x80 {
        lemma_varint_read_back_within(value / 0x80, (limit - 1) as nat, more);
        assert((bytes + more).skip(1) =~= varint_bytes(value / 0x80) + more);
    }
}

/// A field key takes at least one of the bytes that it is read from, and no more than there are.
pub proof fn lemma_key_length(bytes: Seq<u8>)
    ensures
        field_key(bytes) matches Some((field_num, wire_type, length)) ==> {
            &&& 1 <= length <= bytes.len()
            &&& 1 <= field_num < 0x2000_0000
        },
{
    lemma_varint_length(bytes, 10);
}

/// Bytes that follow a field key have no part in it.
pub proof fn lemma_key_prefix(bytes: Seq<u8>, more: Seq<u8>)
    requires
        field_key(bytes) is Some,
    ensures
        field_key(bytes + more) == field_key(bytes),
{
    lemma_varint_prefix(bytes, more, 10);
}

/// The key of a field number of at most 29 bits is read back as that number and wire type,
/// whatever follows it.
pub proof fn lemma_key_read_back(field_num: u32, wire_type: WireType, more: Seq<u8>)
    requires
        1 <= field_num < 0x2000_0000,
    ensures
        field_key(key_bytes(field_num, wire_type) + more) == Some(
            (field_num, wire_type, key_bytes(field_num, wire_type).len()),
        ),
{
    let key = (field_num * 8 + wire_type.number()) as u64;
    assert(key / 8 == field_num && key % 8 == wire_type.number());
    lemma_varint_read_back(key, more);
}

/// Bytes are the little endian form of the number that they are read as.
pub proof fn lemma_le_bytes_of_value(bytes: Seq<u8>)
    ensures
        le_bytes(le_value(bytes), bytes.len()) == bytes,
    decreases bytes.len(),
{
    if bytes.len() == 0 {
        assert(bytes =~= seq![]);
    } else {
        let high = le_value(bytes.skip(1));
        lemma_le_bytes_of_value(bytes.skip(1));
        assert((bytes[0] + 0x100 * high) % 0x100 == bytes[0] as int);
        assert((bytes[0] + 0x100 * high) / 0x100 == high as int);
        assert(bytes =~= seq![bytes[0]] + bytes.skip(1));
    }
}

/// The numbers that fit in `count` bytes.
spec fn bytes_bound(count: nat) -> nat
    decreases count,
{
    if count == 0 {
        1
    } else {
        0x100 * bytes_bound((count - 1) as nat)
    }
}

proof fn lemma_le_value_of_bytes(value: nat, count: nat)
    requires
        value < bytes_bound(count),
    ensures
        le_value(le_bytes(value, count)) == value,
        le_bytes(value, count).len() == count,
    decreases count,
{
    if count > 0 {
        lemma_le_value_of_bytes(value / 0x100, (count - 1) as nat);
        assert(le_bytes(value, count).skip(1) =~= le_bytes(value / 0x100, (count - 1) as nat));
    }
}

/// A 32 bit number is read back from its four little endian bytes.
pub proof fn lemma_le_read_back_32(value: u32)
    ensures
        le_value(le_bytes(value as nat, 4)) == value,
        le_bytes(value as nat, 4).len() == 4,
{
    reveal_with_fuel(bytes_bound, 5);
    lemma_le_value_of_bytes(value as nat, 4);
}

/// A 64 bit number is read back from its eight little endian bytes.
pub proof fn lemma_le_read_back_64(value: u64)
    ensures
        le_value(le_bytes(value as nat, 8)) == value,
        le_bytes(value as nat, 8).len() == 8,
{
    reveal_with_fuel(bytes_bound, 9);
    lemma_le_value_of_bytes(value as nat, 8);
}

/// The ZigZag encoding gives every integer one code and reads it back.
pub proof fn lemma_zigzag_inverse(number: int, code: nat)
    ensures
        zigzag(zigzag_code(number)) == number,
        zigzag_code(zigzag(code)) == code,
{
}

} // verus!
