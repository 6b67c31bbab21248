//! What the numbers on the wire are, digit by digit.
use crate::text::decimal;
use crate::wire::{
    decode_failure, field_key, key_bytes, key_failure, le_bytes, le_value, signed_32, signed_64, varint, varint_bytes, varint_within, wire_type_of, zigzag, WireType,
};
use vstd::arithmetic::power::{lemma_pow0, lemma_pow1, lemma_pow_adds, lemma_pow_positive, pow};
use vstd::prelude::*;

verus! {

/// The sum of the first `count` groups of seven bits, each with its place value.
pub open spec fn group_sum(bytes: Seq<u8>, count: nat) -> int
    decreases count,
{
    if count == 0 {
        0
    } else {
        group_sum(bytes, (count - 1) as nat) + (bytes[count - 1] % 0x80) * pow(
            0x80,
            (count - 1) as nat,
        )
    }
}

proof fn lemma_group_sum_shift(bytes: Seq<u8>, count: nat)
    requires
        0 < count <= bytes.len(),
    ensures
        group_sum(bytes, count) == bytes[0] % 0x80 + 0x80 * group_sum(
            bytes.skip(1),
            (count - 1) as nat,
        ),
    decreases count,
{
    let rest = bytes.skip(1);
    if count == 1 {
        lemma_pow0(0x80);
        assert(group_sum(bytes, 0) == 0);
        assert(group_sum(rest, 0) == 0);
    } else {
        lemma_group_sum_shift(bytes, (count - 1) as nat);
        let low = (count - 2) as nat;
        let digit = (bytes[count - 1] % 0x80) as int;
        lemma_pow_adds(0x80, 1, low);
        lemma_pow1(0x80);
        let power = pow(0x80, low);
        assert(rest[low as int] == bytes[count - 1]);
        assert(group_sum(rest, (count - 1) as nat) == group_sum(rest, low) + digit * power);
        assert(digit * (0x80 * power) == 0x80 * (digit * power)) by (nonlinear_arith);
    }
}

/// Whether a varint ends with the byte at `last`: it is the first without the continuation bit, one
/// of the first ten, and holds a single bit where it is the tenth.
pub open spec fn ends_at(bytes: Seq<u8>, last: int) -> bool {
    &&& 0 <= last < bytes.len()
    &&& last < 10
    &&& bytes[last] < 0x80
    &&& last == 9 ==> bytes[last] < 2
    &&& forall|i: int| 0 <= i < last ==> #[trigger] bytes[i] >= 0x80
}

/// A varint is there exactly where one ends within ten bytes, and its value is the sum of its
/// groups of seven bits, least significant first.
pub proof fn lemma_varint_value(bytes: Seq<u8>, last: int)
    ensures
        ends_at(bytes, last) ==> varint(bytes) == Some(
            (group_sum(bytes, (last + 1) as nat) as nat, (last + 1) as nat),
        ),
        (forall|k: int| !(#[trigger] ends_at(bytes, k))) ==> varint(bytes) is None,
        ends_at(bytes, last) ==> group_sum(bytes, (last + 1) as nat) >= 0,
{
    lemma_varint_value_within(bytes, last, 10);
    if forall|k: int| !(#[trigger] ends_at(bytes, k)) {
        assert forall|k: int| !(#[trigger] ends_within(bytes, k, 10)) by {
            assert(!ends_at(bytes, k));
        }
    }
    assert(ends_at(bytes, last) <==> ends_within(bytes, last, 10));
}

spec fn ends_within(bytes: Seq<u8>, last: int, limit: nat) -> bool {
    &&& 0 <= last < bytes.len()
    &&& last < limit
    &&& bytes[last] < 0x80
    &&& last == limit - 1 ==> bytes[last] < 2
    &&& forall|i: int| 0 <= i < last ==> #[trigger] bytes[i] >= 0x80
}

proof fn lemma_varint_value_within(bytes: Seq<u8>, last: int, limit: nat)
    ensures
        ends_within(bytes, last, limit) ==> {
            &&& varint_within(bytes, limit) == Some(
                (group_sum(bytes, (last + 1) as nat) as nat, (last + 1) as nat),
            )
            &&& group_sum(bytes, (last + 1) as nat) >= 0
        },
        (forall|k: int| !(#[trigger] ends_within(bytes, k, limit))) ==> varint_within(
            bytes,
            limit,
        ) is None,
    decreases limit,
{
    if limit > 0 && bytes.len() > 0 {
        let rest = bytes.skip(1);
        if bytes[0] < 0x80 {
            if ends_within(bytes, last, limit) {
                assert(last == 0) by {
                    if last > 0 {
                        assert(bytes[0] >= 0x80);
                    }
                }
                lemma_group_sum_shift(bytes, 1);
                assert(group_sum(rest, 0) == 0);
            }
            if varint_within(bytes, limit) is Some {
                assert(ends_within(bytes, 0, limit));
            }
        } else {
            lemma_varint_value_within(rest, last - 1, (limit - 1) as nat);
            if ends_within(bytes, last, limit) {
                assert(last > 0);
                assert forall|i: int| 0 <= i < last - 1 implies #[trigger] rest[i] >= 0x80 by {
                    assert(bytes[i + 1] >= 0x80);
                }
                assert(ends_within(rest, last - 1, (limit - 1) as nat));
                lemma_group_sum_shift(bytes, (last + 1) as nat);
            }
            if varint_within(rest, (limit - 1) as nat) is Some {
                let k = choose|k: int| #[trigger] ends_within(rest, k, (limit - 1) as nat);
                assert forall|i: int| 0 <= i < k + 1 implies #[trigger] bytes[i] >= 0x80 by {
                    if i > 0 {
                        assert(rest[i - 1] >= 0x80);
                    }
                }
                assert(ends_within(bytes, k + 1, limit));
            }
        }
    }
}

/// The shortest varint of a value ends with its last byte, its groups sum up to the value, and it
/// does not end in a group of zeros unless it is that group alone.
pub proof fn lemma_varint_form(value: nat)
    ensures
        varint_bytes(value).len() > 0,
        varint_bytes(value).last() < 0x80,
        forall|i: int|
            0 <= i < varint_bytes(value).len() - 1 ==> #[trigger] varint_bytes(value)[i] >= 0x80,
        group_sum(varint_bytes(value), varint_bytes(value).len()) == value,
        varint_bytes(value).len() > 1 ==> varint_bytes(value).last() > 0,
    decreases value,
{
    let bytes = varint_bytes(value);
    if value < 0x80 {
        lemma_group_sum_shift(bytes, 1);
        assert(group_sum(bytes.skip(1), 0) == 0);
    } else {
        let rest = varint_bytes(value / 0x80);
        lemma_varint_form(value / 0x80);
        assert(bytes.skip(1) =~= rest);
        lemma_group_sum_shift(bytes, bytes.len());
        assert(bytes[0] % 0x80 == value % 0x80);
        assert(bytes.last() == rest.last());
        assert forall|i: int| 0 <= i < bytes.len() - 1 implies #[trigger] bytes[i] >= 0x80 by {
            if i > 0 {
                assert(rest[i - 1] >= 0x80);
            }
        }
        if rest.len() == 1 {
            assert(rest.last() == value / 0x80);
        }
    }
}

/// A field key is a varint of at most 32 bits: eight times the field number, which is not zero, plus
/// the number of the wire type.
pub proof fn lemma_key_value(bytes: Seq<u8>, field_num: u32, wire_type: WireType, size: nat)
    ensures
        field_key(bytes) == Some((field_num, wire_type, size)) <==> {
            &&& field_num > 0
            &&& varint(bytes) == Some(
                ((field_num * 8 + wire_type_number(wire_type)) as nat, size),
            )
            &&& field_num * 8 + wire_type_number(wire_type) <= u32::MAX
        },
        key_bytes(field_num, wire_type) == varint_bytes(
            (field_num * 8 + wire_type_number(wire_type)) as nat,
        ),
{
    lemma_wire_types(wire_type);
    if let Some((key, length)) = varint(bytes) {
        if field_key(bytes) is Some {
            assert(key == key / 8 * 8 + key % 8);
        }
        if key == field_num * 8 + wire_type_number(wire_type) {
            assert(key / 8 == field_num && key % 8 == wire_type_number(wire_type));
        }
    }
}

/// The numbers of the wire types.
pub open spec fn wire_type_number(wire_type: WireType) -> int {
    if wire_type is Varint {
        0
    } else if wire_type is SixtyFourBit {
        1
    } else if wire_type is LengthDelimited {
        2
    } else if wire_type is StartGroup {
        3
    } else if wire_type is EndGroup {
        4
    } else {
        5
    }
}

/// The wire types stand for the numbers from 0 to 5, no other number stands for one, and each has
/// its own name.
pub proof fn lemma_wire_types(wire_type: WireType)
    ensures
        wire_type.number() == wire_type_number(wire_type),
        forall|number: nat|
            #[trigger] wire_type_of(number) == Some(wire_type) <==> number == wire_type_number(
                wire_type,
            ),
        forall|number: nat| number > 5 ==> #[trigger] wire_type_of(number) is None,
        wire_type.spec_name() == (match wire_type {
            WireType::Varint => "Varint"@,
            WireType::SixtyFourBit => "SixtyFourBit"@,
            WireType::LengthDelimited => "LengthDelimited"@,
            WireType::StartGroup => "StartGroup"@,
            WireType::EndGroup => "EndGroup"@,
            WireType::ThirtyTwoBit => "ThirtyTwoBit"@,
        }),
{
}

/// Why there is no field key: there is no varint, it has more than 32 bits, its low three bits are
/// no wire type, or the others are zero.
pub proof fn lemma_key_failures(bytes: Seq<u8>)
    ensures
        field_key(bytes) is None ==> match varint(bytes) {
            None => decode_failure(key_failure(bytes))
                == "failed to decode Protobuf message: "@ + "invalid varint"@,
            Some((key, _)) => {
                &&& key > u32::MAX || key % 8 > 5 || key < 8
                &&& key > u32::MAX ==> decode_failure(key_failure(bytes))
                    == "failed to decode Protobuf message: "@ + ("invalid key value: "@ + decimal(
                    key,
                ))
                &&& key <= u32::MAX && key % 8 > 5 ==> decode_failure(key_failure(bytes))
                    == "failed to decode Protobuf message: "@ + ("invalid wire type value: "@
                    + decimal(key % 8))
                &&& key % 8 <= 5 && key < 8 ==> decode_failure(key_failure(bytes))
                    == "failed to decode Protobuf message: "@ + "invalid tag value: 0"@
            },
        },
{
}

/// Each byte of the little endian form of a number is a digit to the base 256, least significant
/// first.
pub proof fn lemma_le_digits(value: nat, count: nat, i: nat)
    requires
        i < count,
    ensures
        le_bytes(value, count).len() == count,
        le_bytes(value, count)[i as int] == value as int / pow(0x100, i) % 0x100,
    decreases count,
{
    let rest = le_bytes(value / 0x100, (count - 1) as nat);
    lemma_le_length(value, count);
    lemma_le_length(value / 0x100, (count - 1) as nat);
    if i == 0 {
        lemma_pow0(0x100);
        assert(le_bytes(value, count)[0] == value % 0x100);
    } else {
        lemma_le_digits(value / 0x100, (count - 1) as nat, (i - 1) as nat);
        assert(le_bytes(value, count)[i as int] == rest[i - 1]);
        lemma_pow_adds(0x100, 1, (i - 1) as nat);
        lemma_pow1(0x100);
        lemma_pow_positive(0x100, (i - 1) as nat);
        vstd::arithmetic::div_mod::lemma_div_denominator(
            value as int,
            0x100,
            pow(0x100, (i - 1) as nat),
        );
    }
}

proof fn lemma_le_length(value: nat, count: nat)
    ensures
        le_bytes(value, count).len() == count,
    decreases count,
{
    if count > 0 {
        lemma_le_length(value / 0x100, (count - 1) as nat);
    }
}

/// The number that bytes are read as has them as its digits to the base 256, least significant
/// first, and no others.
pub proof fn lemma_le_value_digits(bytes: Seq<u8>, i: nat)
    requires
        i < bytes.len(),
    ensures
        le_value(bytes) as int / pow(0x100, i) % 0x100 == bytes[i as int],
        le_value(bytes) < pow(0x100, bytes.len()),
    decreases bytes.len(),
{
    let rest = bytes.skip(1);
    lemma_pow_adds(0x100, 1, rest.len());
    lemma_pow1(0x100);
    if rest.len() > 0 {
        lemma_le_value_digits(rest, if i > 0 { (i - 1) as nat } else { 0 });
    } else {
        lemma_pow0(0x100);
        assert(le_value(rest) == 0);
    }
    assert(le_value(rest) < pow(0x100, rest.len()));
    let value = le_value(bytes) as int;
    assert(value == bytes[0] + 0x100 * le_value(rest));
    if i == 0 {
        lemma_pow0(0x100);
        assert(value % 0x100 == bytes[0]);
    } else {
        lemma_pow_adds(0x100, 1, (i - 1) as nat);
        lemma_pow_positive(0x100, (i - 1) as nat);
        vstd::arithmetic::div_mod::lemma_div_denominator(
            value,
            0x100,
            pow(0x100, (i - 1) as nat),
        );
        assert(value / 0x100 == le_value(rest));
        assert(rest[i - 1] == bytes[i as int]);
    }
}

/// The two's complement number that the low bits of a value are differs from the value by a
/// multiple of two to the number of bits.
pub proof fn lemma_signed(value: nat)
    ensures
        (signed_32(value) - value) % 0x1_0000_0000 == 0,
        (signed_64(value) - value) % 0x1_0000_0000_0000_0000 == 0,
{
    let low = value % 0x1_0000_0000;
    assert(value == value / 0x1_0000_0000 * 0x1_0000_0000 + low);
    let low_64 = value % 0x1_0000_0000_0000_0000;
    assert(value == value / 0x1_0000_0000_0000_0000 * 0x1_0000_0000_0000_0000 + low_64);
}

/// The ZigZag encoding counts away from zero: even codes stand for 0, 1, 2 and so on, odd ones for
/// -1, -2, -3 and so on.
pub proof fn lemma_zigzag_order(magnitude: nat)
    ensures
        zigzag(2 * magnitude) == magnitude,
        zigzag(2 * magnitude + 1) == -1 - magnitude,
{
}

} // verus!
