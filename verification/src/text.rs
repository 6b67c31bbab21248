//! Texts: decimal and hexadecimal forms, and the integers that texts stand for.
use vstd::prelude::*;

verus! {

/// `String::push`: appends one character.
pub assume_specification[ std::string::String::push ](string: &mut std::string::String, ch: char)
    ensures
        final(string)@ == old(string)@.push(ch),
;

/// The character for a digit of the decimal system.
pub open spec fn decimal_digit(digit: nat) -> char {
    ('0' as nat + digit) as char
}

/// The decimal form of a natural number, without leading zeros.
pub open spec fn decimal(value: nat) -> Seq<char>
    decreases value,
{
    if value < 10 {
        seq![decimal_digit(value)]
    } else {
        decimal(value / 10).push(decimal_digit(value % 10))
    }
}

/// The decimal form of an integer: a minus sign before the digits where it is negative.
pub open spec fn signed_decimal(value: int) -> Seq<char> {
    if value < 0 {
        seq!['-'] + decimal((-value) as nat)
    } else {
        decimal(value as nat)
    }
}

/// Appends the decimal form of `value`.
pub(crate) fn push_decimal(text: &mut String, value: u64)
    ensures
        final(text)@ == old(text)@ + decimal(value as nat),
    decreases value,
{
    if value >= 10 {
        push_decimal(text, value / 10);
    }
    let digit: u8 = (value % 10) as u8;
    text.push((48 + digit) as char);
    assert(text@ =~= old(text)@ + decimal(value as nat));
}

/// Appends the decimal form of `value`.
pub(crate) fn push_signed_decimal(text: &mut String, value: i64)
    ensures
        final(text)@ == old(text)@ + signed_decimal(value as int),
{
    if value < 0 {
        let magnitude: u64 = (-(value + 1)) as u64 + 1;
        text.push('-');
        push_decimal(text, magnitude);
        assert(text@ =~= old(text)@ + signed_decimal(value as int));
    } else {
        push_decimal(text, value as u64);
    }
}

/// The character for a digit of the hexadecimal system.
pub open spec fn hex_digit(digit: nat) -> char {
    if digit < 10 {
        ('0' as nat + digit) as char
    } else {
        ('a' as nat + digit - 10) as char
    }
}

/// The hexadecimal form of bytes, two digits for each byte.
pub open spec fn hex(bytes: Seq<u8>) -> Seq<char>
    decreases bytes.len(),
{
    if bytes.len() == 0 {
        seq![]
    } else {
        hex(bytes.drop_last()) + seq![
            hex_digit((bytes.last() / 16) as nat),
            hex_digit((bytes.last() % 16) as nat),
        ]
    }
}

fn hex_char(digit: u8) -> (r: char)
    requires
        digit < 16,
    ensures
        r == hex_digit(digit as nat),
{
    if digit < 10 {
        (48 + digit) as char
    } else {
        (97 + (digit - 10)) as char
    }
}

/// The hexadecimal form of bytes, two digits for each byte.
pub fn as_hex(data: &[u8]) -> (r: String)
    ensures
        r@ == hex(data@),
{
    let mut text = String::new();
    let mut i: usize = 0;
    while i < data.len()
        invariant
            i <= data@.len(),
            text@ == hex(data@.take(i as int)),
        decreases data@.len() - i,
    {
        text.push(hex_char(data[i] / 16));
        text.push(hex_char(data[i] % 16));
        assert(data@.take(i + 1).drop_last() =~= data@.take(i as int));
        assert(text@ =~= hex(data@.take(i + 1)));
        i += 1;
    }
    assert(data@.take(i as int) =~= data@);
    text
}

/// Whether two texts are equal.
pub(crate) fn same_text(a: &str, b: &str) -> (r: bool)
    ensures
        r == (a@ == b@),
{
    a.to_owned() == b.to_owned()
}

/// The text that `Debug` gives for an optional text.
pub uninterp spec fn debug_text(text: Option<Seq<char>>) -> Seq<char>;

/// The `Debug` form of an optional text, as `format!` writes it. What the form is is left to the
/// name.
#[verifier::external_body]
pub(crate) fn debug_form(text: &Option<String>) -> (r: String)
    ensures
        r@ == debug_text(text.deep_view()),
{
    format!("{:?}", text)
}

/// A digit of the decimal system.
pub open spec fn is_decimal_digit(c: char) -> bool {
    '0' <= c <= '9'
}

/// The number that a row of decimal digits stands for.
pub open spec fn digits_value(digits: Seq<char>) -> nat
    decreases digits.len(),
{
    if digits.len() == 0 {
        0
    } else {
        (digits_value(digits.drop_last()) * 10 + (digits.last() as int - '0' as int)) as nat
    }
}

/// The number that a text of decimal digits stands for, if it holds digits and nothing else.
pub open spec fn parsed_digits(text: Seq<char>) -> Option<nat> {
    if text.len() > 0 && (forall|i: int|
        0 <= i < text.len() ==> is_decimal_digit(#[trigger] text[i])) {
        Some(digits_value(text))
    } else {
        None
    }
}

/// The integer up to `max` that a text stands for: digits, with at most a plus sign in front.
pub open spec fn parsed_unsigned(text: Seq<char>, max: nat) -> Option<nat> {
    match parsed_digits(if text.len() > 0 && text[0] == '+' { text.skip(1) } else { text }) {
        Some(value) => if value <= max { Some(value) } else { None },
        None => None,
    }
}

/// The integer from `min` to `max` that a text stands for: digits, with at most a sign in front.
pub open spec fn parsed_signed(text: Seq<char>, min: int, max: int) -> Option<int> {
    if text.len() > 0 && text[0] == '-' {
        match parsed_digits(text.skip(1)) {
            Some(value) => if -value >= min { Some(-value) } else { None },
            None => None,
        }
    } else {
        match parsed_unsigned(text, max as nat) {
            Some(value) => Some(value as int),
            None => None,
        }
    }
}

/// `str::parse::<u32>`: an optional plus sign and digits, up to the largest value of the type.
#[verifier::external_body]
pub(crate) fn parse_u32(text: &str) -> (r: Option<u32>)
    ensures
        r is Some <==> parsed_unsigned(text@, u32::MAX as nat) is Some,
        r matches Some(value) ==> value == parsed_unsigned(text@, u32::MAX as nat)->0,
{
    text.parse::<u32>().ok()
}

/// `str::parse::<i32>`: an optional sign and digits, within the range of the type.
#[verifier::external_body]
pub(crate) fn parse_i32(text: &str) -> (r: Option<i32>)
    ensures
        r is Some <==> parsed_signed(text@, i32::MIN as int, i32::MAX as int) is Some,
        r matches Some(value) ==> parsed_signed(text@, i32::MIN as int, i32::MAX as int) == Some(
            value as int,
        ),
{
    text.parse::<i32>().ok()
}

/// `str::parse::<u64>`: an optional plus sign and digits, up to the largest value of the type.
#[verifier::external_body]
pub(crate) fn parse_u64(text: &str) -> (r: Option<u64>)
    ensures
        r is Some <==> parsed_unsigned(text@, u64::MAX as nat) is Some,
        r matches Some(value) ==> value == parsed_unsigned(text@, u64::MAX as nat)->0,
{
    text.parse::<u64>().ok()
}

/// `str::parse::<i64>`: an optional sign and digits, within the range of the type.
#[verifier::external_body]
pub(crate) fn parse_i64(text: &str) -> (r: Option<i64>)
    ensures
        r is Some <==> parsed_signed(text@, i64::MIN as int, i64::MAX as int) is Some,
        r matches Some(value) ==> parsed_signed(text@, i64::MIN as int, i64::MAX as int) == Some(
            value as int,
        ),
{
    text.parse::<i64>().ok()
}

/// The decimal form of a number holds digits and stands for that number.
proof fn lemma_decimal_digits(value: nat)
    ensures
        parsed_digits(decimal(value)) == Some(value),
    decreases value,
{
    let text = decimal(value);
    if value >= 10 {
        lemma_decimal_digits(value / 10);
        assert(text.drop_last() =~= decimal(value / 10));
        assert forall|i: int| 0 <= i < text.len() implies is_decimal_digit(#[trigger] text[i]) by {
            if i < text.len() - 1 {
                assert(is_decimal_digit(decimal(value / 10)[i]));
            }
        }
    } else {
        assert(text.drop_last() =~= seq![]);
        reveal_with_fuel(digits_value, 2);
    }
}

/// The decimal form of a number is read back as that number.
pub proof fn lemma_decimal_read_back(value: nat, max: nat)
    requires
        value <= max,
    ensures
        parsed_unsigned(decimal(value), max) == Some(value),
{
    lemma_decimal_digits(value);
    assert(is_decimal_digit(decimal(value)[0]));
}

/// The decimal form of an integer is read back as that integer.
pub proof fn lemma_signed_decimal_read_back(value: int, min: int, max: int)
    requires
        min <= value <= max,
        0 <= max,
    ensures
        parsed_signed(signed_decimal(value), min, max) == Some(value),
{
    if value < 0 {
        lemma_decimal_digits((-value) as nat);
        assert(signed_decimal(value).skip(1) =~= decimal((-value) as nat));
    } else {
        lemma_decimal_read_back(value as nat, max as nat);
        lemma_decimal_digits(value as nat);
        assert(is_decimal_digit(decimal(value as nat)[0]));
    }
}

/// The hexadecimal form of bytes has two digits for each byte, and different bytes have
/// different forms.
pub proof fn lemma_hex_injective(a: Seq<u8>, b: Seq<u8>)
    ensures
        hex(a).len() == 2 * a.len(),
        hex(a) == hex(b) ==> a == b,
    decreases a.len() + b.len(),
{
    if a.len() > 0 {
        lemma_hex_injective(a.drop_last(), if b.len() > 0 { b.drop_last() } else { b });
    }
    if b.len() > 0 {
        lemma_hex_injective(b.drop_last(), seq![]);
    }
    assert(hex(b).len() == 2 * b.len());
    if a.len() > 0 && b.len() > 0 && hex(a) == hex(b) {
        let n = hex(a.drop_last()).len() as int;
        assert(hex(a).take(n) =~= hex(a.drop_last()));
        assert(hex(b).take(n) =~= hex(b.drop_last()));
        assert(hex(a)[n] == hex(b)[n] && hex(a)[n + 1] == hex(b)[n + 1]);
        assert(a.last() / 16 == b.last() / 16);
        assert(a.last() % 16 == b.last() % 16);
        assert(a =~= a.drop_last().push(a.last()));
        assert(b =~= b.drop_last().push(b.last()));
    } else if a.len() == 0 && b.len() == 0 {
        assert(a =~= b);
    }
}

} // verus!
