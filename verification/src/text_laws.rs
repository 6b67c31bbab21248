//! What the texts of numbers and bytes are, digit by digit.
use crate::text::{
    decimal, digits_value, hex, is_decimal_digit, parsed_signed, parsed_unsigned, signed_decimal,
};
use vstd::arithmetic::power::{lemma_pow0, lemma_pow1, lemma_pow_adds, lemma_pow_positive, pow};
use vstd::prelude::*;

verus! {

/// The character for a digit, for digits up to fifteen.
pub open spec fn digit_char(digit: int) -> char {
    "0123456789abcdef"@[digit]
}

proof fn lemma_digit_char(digit: int)
    requires
        0 <= digit < 16,
    ensures
        digit < 10 ==> digit_char(digit) as int == '0' as int + digit,
        digit >= 10 ==> digit_char(digit) as int == 'a' as int + digit - 10,
{
    reveal_strlit("0123456789abcdef");
    let digits = "0123456789abcdef"@;
    assert(digits[0] == '0' && digits[1] == '1' && digits[2] == '2' && digits[3] == '3');
    assert(digits[4] == '4' && digits[5] == '5' && digits[6] == '6' && digits[7] == '7');
    assert(digits[8] == '8' && digits[9] == '9' && digits[10] == 'a' && digits[11] == 'b');
    assert(digits[12] == 'c' && digits[13] == 'd' && digits[14] == 'e' && digits[15] == 'f');
}

/// The decimal form of a number has its digits to the base ten, most significant first, as many as
/// the number needs and no more.
pub proof fn lemma_decimal_digit_at(value: nat, i: nat)
    ensures
        value < pow(10, decimal(value).len()),
        decimal(value).len() > 0,
        decimal(value).len() > 1 ==> value >= pow(10, (decimal(value).len() - 1) as nat),
        i < decimal(value).len() ==> decimal(value)[decimal(value).len() - 1 - i] == digit_char(
            value as int / pow(10, i) % 10,
        ),
    decreases value,
{
    let text = decimal(value);
    lemma_pow0(10);
    lemma_pow1(10);
    lemma_digit_char((value % 10) as int);
    if value >= 10 {
        let high = decimal(value / 10);
        lemma_decimal_digit_at(value / 10, if i > 0 { (i - 1) as nat } else { 0 });
        lemma_pow_adds(10, 1, high.len());
        assert(text.len() == high.len() + 1);
        assert(value == value / 10 * 10 + value % 10);
        if high.len() > 1 {
            lemma_pow_adds(10, 1, (high.len() - 1) as nat);
        }
        if i > 0 && i < text.len() {
            lemma_pow_adds(10, 1, (i - 1) as nat);
            lemma_pow_positive(10, (i - 1) as nat);
            vstd::arithmetic::div_mod::lemma_div_denominator(
                value as int,
                10,
                pow(10, (i - 1) as nat),
            );
            assert(text[text.len() - 1 - i] == high[high.len() - 1 - (i - 1)]);
        }
    }
}

/// The decimal form of an integer is that of its magnitude, behind a minus sign where it is
/// negative.
pub proof fn lemma_signed_form(magnitude: nat)
    ensures
        signed_decimal(magnitude as int) == decimal(magnitude),
        magnitude > 0 ==> signed_decimal(-(magnitude as int)).len() == decimal(magnitude).len() + 1
            && signed_decimal(-(magnitude as int))[0] == '-' && signed_decimal(
            -(magnitude as int),
        ).skip(1) == decimal(magnitude),
{
    if magnitude > 0 {
        assert(signed_decimal(-(magnitude as int)).skip(1) =~= decimal(magnitude));
    }
}

/// The hexadecimal form of bytes has two digits for each byte, in the order of the bytes, the
/// higher one first.
pub proof fn lemma_hex_digit_at(bytes: Seq<u8>, i: int)
    ensures
        hex(bytes).len() == 2 * bytes.len(),
        0 <= i < bytes.len() ==> hex(bytes)[2 * i] == digit_char((bytes[i] / 16) as int)
            && hex(bytes)[2 * i + 1] == digit_char((bytes[i] % 16) as int),
    decreases bytes.len(),
{
    if bytes.len() > 0 {
        lemma_hex_digit_at(bytes.drop_last(), i);
        lemma_digit_char((bytes.last() / 16) as int);
        lemma_digit_char((bytes.last() % 16) as int);
    }
}

/// Digits in a row stand for the number that has them in their places.
pub proof fn lemma_digit_places(digits: Seq<char>, more: Seq<char>)
    requires
        forall|i: int| 0 <= i < more.len() ==> '0' <= #[trigger] more[i] <= '9',
    ensures
        digits_value(digits + more) == digits_value(digits) * pow(10, more.len()) + digits_value(
            more,
        ),
        digits.len() == 1 && '0' <= digits[0] <= '9' ==> digits_value(digits) == digits[0] as int
            - '0' as int,
    decreases more.len(),
{
    lemma_pow0(10);
    lemma_pow1(10);
    reveal_with_fuel(digits_value, 2);
    if more.len() == 0 {
        assert(digits + more =~= digits);
        assert(digits_value(digits) * 1 == digits_value(digits));
    } else {
        let rest = more.drop_last();
        lemma_digit_places(digits, rest);
        assert((digits + more).drop_last() =~= digits + rest);
        assert((digits + more).last() == more.last());
        lemma_pow_adds(10, rest.len(), 1);
        let high = digits_value(digits) as int;
        let power = pow(10, rest.len());
        assert(high * (power * 10) == (high * power) * 10) by (nonlinear_arith);
        let digit = more.last() as int - '0' as int;
        assert(0 <= digit <= 9);
        assert(digits_value(more) == digits_value(rest) * 10 + digit);
        assert(digits_value(digits + more) == digits_value(digits + rest) * 10 + digit);
    }
}

/// Whether a text holds decimal digits and nothing else.
pub open spec fn all_digits(text: Seq<char>) -> bool {
    text.len() > 0 && forall|i: int| 0 <= i < text.len() ==> '0' <= #[trigger] text[i] <= '9'
}

/// A text stands for an unsigned number exactly where it is digits, or a plus sign and digits, and
/// the number of the digits is within the range.
pub proof fn lemma_unsigned_texts(text: Seq<char>, digits: Seq<char>, max: nat)
    ensures
        all_digits(digits) && (text == digits || text == seq!['+'] + digits) ==> parsed_unsigned(
            text,
            max,
        ) == (if digits_value(digits) <= max {
            Some(digits_value(digits))
        } else {
            None
        }),
        !all_digits(text) && !(text.len() > 0 && text[0] == '+' && all_digits(text.skip(1)))
            ==> parsed_unsigned(text, max) is None,
{
    if all_digits(digits) {
        assert forall|i: int| 0 <= i < digits.len() implies is_decimal_digit(
            #[trigger] digits[i],
        ) by {}
        assert(digits[0] != '+');
        assert((seq!['+'] + digits).skip(1) =~= digits);
    }
    if parsed_unsigned(text, max) is Some {
        let rest = if text.len() > 0 && text[0] == '+' {
            text.skip(1)
        } else {
            text
        };
        assert forall|i: int| 0 <= i < rest.len() implies '0' <= #[trigger] rest[i] <= '9' by {
            assert(is_decimal_digit(rest[i]));
        }
    }
}

/// A text stands for an integer exactly where it stands for an unsigned one, or is a minus sign and
/// digits, and the number is within the range.
pub proof fn lemma_signed_texts(text: Seq<char>, digits: Seq<char>, min: int, max: int)
    requires
        0 <= max,
    ensures
        all_digits(digits) && text == seq!['-'] + digits ==> parsed_signed(text, min, max) == (
        if -(digits_value(digits) as int) >= min {
            Some(-(digits_value(digits) as int))
        } else {
            None
        }),
        text.len() > 0 && text[0] == '-' && !all_digits(text.skip(1)) ==> parsed_signed(
            text,
            min,
            max,
        ) is None,
        text.len() == 0 || text[0] != '-' ==> parsed_signed(text, min, max) == (
        match parsed_unsigned(text, max as nat) {
            Some(value) => Some(value as int),
            None => None,
        }),
{
    if all_digits(digits) {
        assert forall|i: int| 0 <= i < digits.len() implies is_decimal_digit(
            #[trigger] digits[i],
        ) by {}
        assert((seq!['-'] + digits).skip(1) =~= digits);
    }
    if text.len() > 0 && text[0] == '-' && parsed_signed(text, min, max) is Some {
        let rest = text.skip(1);
        assert forall|i: int| 0 <= i < rest.len() implies '0' <= #[trigger] rest[i] <= '9' by {
            assert(is_decimal_digit(rest[i]));
        }
    }
}

} // verus!
