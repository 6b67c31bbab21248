//! What each escape of a C escaped text stands for, whatever follows it.
use crate::escape::{
    digit_value, escape_at, is_hex_digit, is_octal_digit, leading, number, unescaped,
};
use crate::text_laws::digit_char;
use vstd::prelude::*;
use vstd::utf8::{encode_utf8, is_ascii_chars_encode_utf8};

verus! {

/// A character that is no backslash stands for its UTF-8 form.
pub proof fn lemma_plain_character(c: char, rest: Seq<char>)
    requires
        c != '\\',
    ensures
        unescaped(seq![c] + rest) == encode_utf8(seq![c]) + unescaped(rest),
{
    let text = seq![c] + rest;
    assert(text[0] == c);
    assert(text.skip(1) =~= rest);
}

/// A backslash with one of these letters or signs stands for one byte.
pub proof fn lemma_simple_escapes(rest: Seq<char>)
    ensures
        unescaped(seq!['\\', 'a'] + rest) == seq![7u8] + unescaped(rest),
        unescaped(seq!['\\', 'b'] + rest) == seq![8u8] + unescaped(rest),
        unescaped(seq!['\\', 't'] + rest) == seq![9u8] + unescaped(rest),
        unescaped(seq!['\\', 'n'] + rest) == seq![10u8] + unescaped(rest),
        unescaped(seq!['\\', 'v'] + rest) == seq![11u8] + unescaped(rest),
        unescaped(seq!['\\', 'f'] + rest) == seq![12u8] + unescaped(rest),
        unescaped(seq!['\\', 'r'] + rest) == seq![13u8] + unescaped(rest),
        unescaped(seq!['\\', '"'] + rest) == seq![34u8] + unescaped(rest),
        unescaped(seq!['\\', '\''] + rest) == seq![39u8] + unescaped(rest),
        unescaped(seq!['\\', '?'] + rest) == seq![63u8] + unescaped(rest),
        unescaped(seq!['\\', '\\'] + rest) == seq![92u8] + unescaped(rest),
{
    lemma_simple_escape('a', 7, rest);
    lemma_simple_escape('b', 8, rest);
    lemma_simple_escape('t', 9, rest);
    lemma_simple_escape('n', 10, rest);
    lemma_simple_escape('v', 11, rest);
    lemma_simple_escape('f', 12, rest);
    lemma_simple_escape('r', 13, rest);
    lemma_simple_escape('"', 34, rest);
    lemma_simple_escape('\'', 39, rest);
    lemma_simple_escape('?', 63, rest);
    lemma_simple_escape('\\', 92, rest);
}

proof fn lemma_simple_escape(c: char, byte: u8, rest: Seq<char>)
    requires
        escape_at(seq!['\\', c] + rest) == Some((byte, 2nat)),
    ensures
        unescaped(seq!['\\', c] + rest) == seq![byte] + unescaped(rest),
{
    let text = seq!['\\', c] + rest;
    assert(text.skip(2) =~= rest);
}

proof fn lemma_leading_count(
    text: Seq<char>,
    accepts: spec_fn(char) -> bool,
    count: nat,
    limit: nat,
)
    requires
        count <= text.len(),
        count <= limit,
        forall|i: int| 0 <= i < count ==> accepts(#[trigger] text[i]),
        count < limit && count < text.len() ==> !accepts(text[count as int]),
    ensures
        leading(text, accepts, limit) == count,
    decreases count,
{
    if count > 0 {
        let rest = text.skip(1);
        assert(accepts(text[0]));
        assert forall|i: int| 0 <= i < count - 1 implies accepts(#[trigger] rest[i]) by {
            assert(accepts(text[i + 1]));
        }
        lemma_leading_count(rest, accepts, (count - 1) as nat, (limit - 1) as nat);
    }
}

/// Whether a text goes on with an octal digit.
pub open spec fn starts_octal(text: Seq<char>) -> bool {
    text.len() > 0 && '0' <= text[0] <= '7'
}

/// The octal digit for a number.
pub open spec fn octal_char(digit: int) -> char
    recommends
        0 <= digit < 8,
{
    digit_char(digit)
}

proof fn lemma_octal_char(digit: int)
    requires
        0 <= digit < 8,
    ensures
        is_octal_digit(octal_char(digit)),
        digit_value(octal_char(digit)) == digit,
{
    reveal_strlit("0123456789abcdef");
    let digits = "0123456789abcdef"@;
    assert(digits[0] == '0' && digits[1] == '1' && digits[2] == '2' && digits[3] == '3');
    assert(digits[4] == '4' && digits[5] == '5' && digits[6] == '6' && digits[7] == '7');
}

/// A backslash with one, two or three octal digits stands for the byte with that number; fewer than
/// three end where no octal digit follows. Three digits with a number that is no byte are kept.
pub proof fn lemma_octal_escapes(a: int, b: int, c: int, rest: Seq<char>)
    requires
        0 <= a < 8,
        0 <= b < 8,
        0 <= c < 8,
    ensures
        !starts_octal(rest) ==> unescaped(seq!['\\', octal_char(c)] + rest) == seq![c as u8]
            + unescaped(rest),
        !starts_octal(rest) ==> unescaped(seq!['\\', octal_char(b), octal_char(c)] + rest) == seq![
            (8 * b + c) as u8,
        ] + unescaped(rest),
        a < 4 ==> unescaped(seq!['\\', octal_char(a), octal_char(b), octal_char(c)] + rest) == seq![
            (64 * a + 8 * b + c) as u8,
        ] + unescaped(rest),
        a >= 4 ==> unescaped(seq!['\\', octal_char(a), octal_char(b), octal_char(c)] + rest)
            == seq![92u8] + unescaped(seq![octal_char(a), octal_char(b), octal_char(c)] + rest),
{
    lemma_octal_char(a);
    lemma_octal_char(b);
    lemma_octal_char(c);
    let accepts = |x: char| is_octal_digit(x);
    reveal_with_fuel(number, 4);
    if !starts_octal(rest) {
        let text = seq!['\\', octal_char(c)] + rest;
        lemma_leading_count(text.skip(1), accepts, 1, 3);
        assert(text.subrange(1, 2) =~= seq![octal_char(c)]);
        assert(text.subrange(1, 2).drop_last() =~= seq![]);
        assert(text.skip(2) =~= rest);
        let text = seq!['\\', octal_char(b), octal_char(c)] + rest;
        lemma_leading_count(text.skip(1), accepts, 2, 3);
        let digits = text.subrange(1, 3);
        assert(digits =~= seq![octal_char(b), octal_char(c)]);
        assert(digits.drop_last() =~= seq![octal_char(b)]);
        assert(digits.drop_last().drop_last() =~= seq![]);
        assert(text.skip(3) =~= rest);
    }
    let text = seq!['\\', octal_char(a), octal_char(b), octal_char(c)] + rest;
    lemma_leading_count(text.skip(1), accepts, 3, 3);
    let digits = text.subrange(1, 4);
    assert(digits =~= seq![octal_char(a), octal_char(b), octal_char(c)]);
    assert(digits.drop_last() =~= seq![octal_char(a), octal_char(b)]);
    assert(digits.drop_last().drop_last() =~= seq![octal_char(a)]);
    assert(digits.drop_last().drop_last().drop_last() =~= seq![]);
    assert(number(digits, 8) == 64 * a + 8 * b + c);
    assert(text.skip(4) =~= rest);
    if a >= 4 {
        assert(text.skip(1) =~= seq![octal_char(a), octal_char(b), octal_char(c)] + rest);
        lemma_backslash_bytes();
        assert(seq![text[0]] =~= seq!['\\']);
    }
}

proof fn lemma_backslash_bytes()
    ensures
        encode_utf8(seq!['\\']) == seq![92u8],
{
    let text = seq!['\\'];
    is_ascii_chars_encode_utf8(text);
    assert(text[0] as u8 == 92);
    assert(encode_utf8(text) =~= seq![92u8]);
}

/// Whether a character is the hexadecimal digit for a number, in either case.
pub open spec fn is_hex_char(c: char, digit: int) -> bool {
    0 <= digit < 16 && (c == digit_char(digit) || (digit >= 10 && c as int == digit_char(
        digit,
    ) as int - 32))
}

/// Whether a text goes on with a hexadecimal digit.
pub open spec fn starts_hex(text: Seq<char>) -> bool {
    text.len() > 0 && ('0' <= text[0] <= '9' || 'a' <= text[0] <= 'f' || 'A' <= text[0] <= 'F')
}

proof fn lemma_hex_char(c: char, digit: int)
    requires
        is_hex_char(c, digit),
    ensures
        is_hex_digit(c),
        digit_value(c) == digit,
{
    reveal_strlit("0123456789abcdef");
    let digits = "0123456789abcdef"@;
    assert(digits[0] == '0' && digits[1] == '1' && digits[2] == '2' && digits[3] == '3');
    assert(digits[4] == '4' && digits[5] == '5' && digits[6] == '6' && digits[7] == '7');
    assert(digits[8] == '8' && digits[9] == '9' && digits[10] == 'a' && digits[11] == 'b');
    assert(digits[12] == 'c' && digits[13] == 'd' && digits[14] == 'e' && digits[15] == 'f');
}

proof fn lemma_zeros(zeros: Seq<char>)
    requires
        forall|i: int| 0 <= i < zeros.len() ==> #[trigger] zeros[i] == '0',
    ensures
        number(zeros, 16) == 0,
    decreases zeros.len(),
{
    if zeros.len() > 0 {
        lemma_zeros(zeros.drop_last());
        assert(zeros.last() == '0');
    }
}

/// A backslash with an `x`, any number of zeros and one or two hexadecimal digits stands for the
/// byte with that number, where no hexadecimal digit follows.
pub proof fn lemma_hex_escapes(
    zeros: Seq<char>,
    high_char: char,
    high: int,
    low_char: char,
    low: int,
    rest: Seq<char>,
)
    requires
        forall|i: int| 0 <= i < zeros.len() ==> #[trigger] zeros[i] == '0',
        is_hex_char(high_char, high),
        is_hex_char(low_char, low),
        !starts_hex(rest),
    ensures
        unescaped(seq!['\\', 'x'] + zeros + seq![high_char, low_char] + rest) == seq![
            (16 * high + low) as u8,
        ] + unescaped(rest),
        unescaped(seq!['\\', 'x', low_char] + rest) == seq![low as u8] + unescaped(rest),
{
    lemma_hex_char(high_char, high);
    lemma_hex_char(low_char, low);
    let accepts = |c: char| is_hex_digit(c);
    let text = seq!['\\', 'x'] + zeros + seq![high_char, low_char] + rest;
    let count = zeros.len() + 2;
    assert(text[0] == '\\' && text[1] == 'x');
    let tail = text.skip(2);
    assert forall|i: int| 0 <= i < count implies accepts(#[trigger] tail[i]) by {
        if i < zeros.len() {
            assert(tail[i] == zeros[i]);
        } else if i == zeros.len() {
            assert(tail[i] == high_char);
        } else {
            assert(tail[i] == low_char);
        }
    }
    if count < tail.len() {
        assert(tail[count as int] == rest[0]);
    }
    lemma_leading_count(tail, accepts, count, text.len());
    let digits = text.subrange(2, (2 + count) as int);
    assert(digits =~= zeros.push(high_char).push(low_char));
    assert(digits.drop_last() =~= zeros.push(high_char));
    assert(digits.drop_last().drop_last() =~= zeros);
    lemma_zeros(zeros);
    reveal_with_fuel(number, 3);
    assert(number(digits, 16) == 16 * high + low);
    assert(text.skip((2 + count) as int) =~= rest);

    let text = seq!['\\', 'x', low_char] + rest;
    let tail = text.skip(2);
    lemma_leading_count(tail, accepts, 1, text.len());
    let digits = text.subrange(2, 3);
    assert(digits =~= seq![low_char]);
    assert(digits.drop_last() =~= seq![]);
    assert(number(digits, 16) == low);
    assert(text.skip(3) =~= rest);
}

/// A backslash with an `x`, any number of zeros and three hexadecimal digits, of which the first is
/// not zero, is kept, where no hexadecimal digit follows: the number is no byte.
pub proof fn lemma_kept_hex(
    zeros: Seq<char>,
    chars: (char, char, char),
    digits: (int, int, int),
    rest: Seq<char>,
)
    requires
        forall|i: int| 0 <= i < zeros.len() ==> #[trigger] zeros[i] == '0',
        is_hex_char(chars.0, digits.0),
        is_hex_char(chars.1, digits.1),
        is_hex_char(chars.2, digits.2),
        digits.0 > 0,
        !starts_hex(rest),
    ensures
        unescaped(seq!['\\', 'x'] + zeros + seq![chars.0, chars.1, chars.2] + rest) == seq![92u8]
            + unescaped(seq!['x'] + zeros + seq![chars.0, chars.1, chars.2] + rest),
{
    lemma_hex_char(chars.0, digits.0);
    lemma_hex_char(chars.1, digits.1);
    lemma_hex_char(chars.2, digits.2);
    let accepts = |c: char| is_hex_digit(c);
    let text = seq!['\\', 'x'] + zeros + seq![chars.0, chars.1, chars.2] + rest;
    let count = zeros.len() + 3;
    assert(text[0] == '\\' && text[1] == 'x');
    let tail = text.skip(2);
    assert forall|i: int| 0 <= i < count implies accepts(#[trigger] tail[i]) by {
        if i < zeros.len() {
            assert(tail[i] == zeros[i]);
        } else if i == zeros.len() {
            assert(tail[i] == chars.0);
        } else if i == zeros.len() + 1 {
            assert(tail[i] == chars.1);
        } else {
            assert(tail[i] == chars.2);
        }
    }
    if count < tail.len() {
        assert(tail[count as int] == rest[0]);
    }
    lemma_leading_count(tail, accepts, count, text.len());
    let all = text.subrange(2, (2 + count) as int);
    assert(all =~= zeros.push(chars.0).push(chars.1).push(chars.2));
    assert(all.drop_last() =~= zeros.push(chars.0).push(chars.1));
    assert(all.drop_last().drop_last() =~= zeros.push(chars.0));
    assert(all.drop_last().drop_last().drop_last() =~= zeros);
    lemma_zeros(zeros);
    reveal_with_fuel(number, 4);
    assert(number(all, 16) == 256 * digits.0 + 16 * digits.1 + digits.2);
    lemma_backslash_bytes();
    assert(seq![text[0]] =~= seq!['\\']);
    assert(text.skip(1) =~= seq!['x'] + zeros + seq![chars.0, chars.1, chars.2] + rest);
}

/// A backslash at the end of a text, before an `x` without hexadecimal digits, or before any other
/// character that makes no escape with it, is kept as it is.
pub proof fn lemma_kept_backslash(rest: Seq<char>)
    requires
        rest.len() == 0 || !(starts_octal(rest) || rest[0] == 'a' || rest[0] == 'b' || rest[0] == 't'
            || rest[0] == 'n' || rest[0] == 'v' || rest[0] == 'f' || rest[0] == 'r' || rest[0] == '"'
            || rest[0] == '\'' || rest[0] == '?' || rest[0] == '\\' || (rest[0] == 'x'
            && starts_hex(rest.skip(1)))),
    ensures
        unescaped(seq!['\\'] + rest) == seq![92u8] + unescaped(rest),
{
    let text = seq!['\\'] + rest;
    lemma_backslash_bytes();
    assert(text.skip(1) =~= rest);
    assert(seq![text[0]] =~= seq!['\\']);
    if rest.len() > 0 && rest[0] == 'x' {
        assert(text.skip(2) =~= rest.skip(1));
        lemma_leading_count(text.skip(2), |c: char| is_hex_digit(c), 0, text.len());
    }
}

} // verus!
