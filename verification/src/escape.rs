//! C escaped texts, and the bytes that they stand for.
use vstd::prelude::*;
use vstd::utf8::{encode_utf8, is_ascii_chars_encode_utf8};

verus! {

/// A digit of the octal system.
pub open spec fn is_octal_digit(c: char) -> bool {
    '0' <= c <= '7'
}

/// A digit of the hexadecimal system, in either case.
pub open spec fn is_hex_digit(c: char) -> bool {
    '0' <= c <= '9' || 'a' <= c <= 'f' || 'A' <= c <= 'F'
}

/// The value of a digit.
pub open spec fn digit_value(c: char) -> nat {
    (if 'a' <= c {
        c as int - 'a' as int + 10
    } else if 'A' <= c {
        c as int - 'A' as int + 10
    } else {
        c as int - '0' as int
    }) as nat
}

/// The number that digits stand for.
pub open spec fn number(digits: Seq<char>, base: nat) -> nat
    decreases digits.len(),
{
    if digits.len() == 0 {
        0
    } else {
        number(digits.drop_last(), base) * base + digit_value(digits.last())
    }
}

/// How many characters at the front of a text are accepted, where no more than `limit` count.
pub open spec fn leading(text: Seq<char>, accepts: spec_fn(char) -> bool, limit: nat) -> nat
    decreases limit,
{
    if limit == 0 || text.len() == 0 || !accepts(text[0]) {
        0
    } else {
        1 + leading(text.skip(1), accepts, (limit - 1) as nat)
    }
}

/// The byte that a letter or sign stands for behind a backslash.
pub open spec fn simple_escape(c: char) -> Option<u8> {
    match c {
        'a' => Some(7),
        'b' => Some(8),
        't' => Some(9),
        'n' => Some(10),
        'v' => Some(11),
        'f' => Some(12),
        'r' => Some(13),
        '"' => Some(34),
        '\'' => Some(39),
        '?' => Some(63),
        '\\' => Some(92),
        _ => None,
    }
}

/// The byte of digits behind `start` characters, and the length of the escape that they end.
/// Without digits, and where their number is no byte, there is none.
pub open spec fn digits_escape(text: Seq<char>, start: nat, count: nat, base: nat) -> Option<
    (u8, nat),
> {
    let value = number(text.subrange(start as int, (start + count) as int), base);
    if count > 0 && value <= u8::MAX {
        Some((value as u8, start + count))
    } else {
        None
    }
}

/// The escape at the front of a text: the byte that it stands for, and its length. It is a
/// backslash with one to three octal digits, with an `x` and hexadecimal digits, or with one of
/// the letters and signs that stand for a byte.
pub open spec fn escape_at(text: Seq<char>) -> Option<(u8, nat)> {
    if text.len() < 2 || text[0] != '\\' {
        None
    } else if is_octal_digit(text[1]) {
        digits_escape(text, 1, leading(text.skip(1), |c: char| is_octal_digit(c), 3), 8)
    } else if text[1] == 'x' {
        digits_escape(text, 2, leading(text.skip(2), |c: char| is_hex_digit(c), text.len()), 16)
    } else {
        match simple_escape(text[1]) {
            Some(byte) => Some((byte, 2)),
            None => None,
        }
    }
}

/// An escape takes at least two of the characters that it is read from, and no more than there
/// are.
pub proof fn lemma_escape_length(text: Seq<char>)
    ensures
        escape_at(text) matches Some((_, length)) ==> 2 <= length <= text.len(),
{
    if text.len() >= 2 {
        lemma_leading(text.skip(1), |c: char| is_octal_digit(c), 3);
        lemma_leading(text.skip(2), |c: char| is_hex_digit(c), text.len());
    }
}

proof fn lemma_leading(text: Seq<char>, accepts: spec_fn(char) -> bool, limit: nat)
    ensures
        leading(text, accepts, limit) <= text.len(),
        leading(text, accepts, limit) <= limit,
    decreases limit,
{
    if limit > 0 && text.len() > 0 {
        lemma_leading(text.skip(1), accepts, (limit - 1) as nat);
    }
}

/// The bytes that a C escaped text stands for: that of each escape, and the UTF-8 form of every
/// other character. A backslash that starts no escape is a character like the others.
pub open spec fn unescaped(text: Seq<char>) -> Seq<u8>
    decreases text.len(),
{
    if text.len() == 0 {
        seq![]
    } else {
        match escape_at(text) {
            Some((byte, length)) => {
                proof {
                    lemma_escape_length(text);
                }
                seq![byte] + unescaped(text.skip(length as int))
            },
            None => encode_utf8(seq![text[0]]) + unescaped(text.skip(1)),
        }
    }
}

/// Whether a character is a digit of the system with the base.
spec fn is_digit(c: char, base: nat) -> bool {
    if base == 8 {
        is_octal_digit(c)
    } else {
        is_hex_digit(c)
    }
}

/// Reads the digits from an index on, no more than `limit` of them: their number, as far as it is
/// a byte, and their count.
fn read_digits(chars: &Vec<char>, start: usize, limit: usize, base: u32) -> (r: (Option<u8>, usize))
    requires
        start <= chars@.len(),
        base == 8 || base == 16,
    ensures
        r.1 == leading(chars@.skip(start as int), |c: char| is_digit(c, base as nat), limit as nat),
        start + r.1 <= chars@.len(),
        ({
            let value = number(chars@.subrange(start as int, start + r.1), base as nat);
            match r.0 {
                Some(byte) => value == byte,
                None => value > u8::MAX,
            }
        }),
{
    let ghost accepts = |c: char| is_digit(c, base as nat);
    let mut value: u32 = 0;
    let mut count: usize = 0;
    while count < limit && count < chars.len() - start
        invariant_except_break
            leading(chars@.skip(start as int), accepts, limit as nat) == count + leading(
                chars@.skip(start + count),
                accepts,
                (limit - count) as nat,
            ),
        invariant
            count <= limit,
            start + count <= chars@.len(),
            base == 8 || base == 16,
            accepts == (|c: char| is_digit(c, base as nat)),
            value <= 256,
            value <= 255 ==> value == number(
                chars@.subrange(start as int, start + count),
                base as nat,
            ),
            value == 256 ==> number(chars@.subrange(start as int, start + count), base as nat)
                > u8::MAX,
        ensures
            leading(chars@.skip(start as int), accepts, limit as nat) == count,
        decreases limit - count,
    {
        let c = chars[start + count];
        let ghost digits = chars@.subrange(start as int, start + count);
        assert(chars@.skip(start + count)[0] == c);
        assert(chars@.skip(start + count).skip(1) =~= chars@.skip(start + count + 1));
        assert(chars@.subrange(start as int, start + count + 1) =~= digits.push(c));
        assert(digits.push(c).drop_last() =~= digits);
        let digit: u32 = if '0' <= c && c <= '7' {
            c as u32 - 48
        } else if base == 16 && '8' <= c && c <= '9' {
            c as u32 - 48
        } else if base == 16 && 'a' <= c && c <= 'f' {
            c as u32 - 87
        } else if base == 16 && 'A' <= c && c <= 'F' {
            c as u32 - 55
        } else {
            assert(!accepts(c));
            break ;
        };
        assert(accepts(c));
        assert(digit == digit_value(c));
        let next: u32 = value * base + digit;
        assert(number(digits.push(c), base as nat) == number(digits, base as nat) * base + digit);
        assert(number(digits, base as nat) > u8::MAX ==> number(digits.push(c), base as nat)
            > u8::MAX) by (nonlinear_arith)
            requires
                number(digits.push(c), base as nat) == number(digits, base as nat) * base + digit,
                base >= 8,
        ;
        assert(value <= 255 ==> next == number(digits.push(c), base as nat));
        value = if next > 255 {
            256
        } else {
            next
        };
        count += 1;
    }
    (if value > 255 {
        None
    } else {
        Some(value as u8)
    }, count)
}

/// Reads the escape at an index: the byte that it stands for, and its length.
fn read_escape(chars: &Vec<char>, at: usize) -> (r: Option<(u8, usize)>)
    requires
        at < chars@.len(),
    ensures
        match escape_at(chars@.skip(at as int)) {
            Some((byte, length)) => r matches Some((found, taken)) && found == byte && taken
                == length,
            None => r is None,
        },
{
    let ghost text = chars@.skip(at as int);
    if chars.len() - at < 2 || chars[at] != '\\' {
        return None;
    }
    let c = chars[at + 1];
    let (base, prefix): (u32, usize) = if '0' <= c && c <= '7' {
        (8, 1)
    } else if c == 'x' {
        (16, 2)
    } else {
        let byte: u8 = match c {
            'a' => 7,
            'b' => 8,
            't' => 9,
            'n' => 10,
            'v' => 11,
            'f' => 12,
            'r' => 13,
            '"' => 34,
            '\'' => 39,
            '?' => 63,
            '\\' => 92,
            _ => {
                return None;
            },
        };
        return Some((byte, 2));
    };
    let limit: usize = if base == 8 {
        3
    } else {
        chars.len() - at
    };
    let (value, count) = read_digits(chars, at + prefix, limit, base);
    proof {
        let rest = text.skip(prefix as int);
        assert(rest =~= chars@.skip(at + prefix));
        assert((|c: char| is_digit(c, 8)) =~= (|c: char| is_octal_digit(c)));
        assert((|c: char| is_digit(c, 16)) =~= (|c: char| is_hex_digit(c)));
        assert(text.subrange(prefix as int, prefix + count) =~= chars@.subrange(
            at + prefix,
            at + prefix + count,
        ));
    }
    match value {
        Some(byte) if count > 0 => Some((byte, prefix + count)),
        _ => None,
    }
}

/// The UTF-8 form of a character.
fn char_bytes(c: char) -> (r: Vec<u8>)
    ensures
        r@ == encode_utf8(seq![c]),
{
    let mut text = String::new();
    text.push(c);
    assert(text@ =~= seq![c]);
    text.as_str().as_bytes_vec()
}

/// The characters of a text.
fn chars_of(text: &str) -> (r: Vec<char>)
    ensures
        r@ == text@,
{
    let mut chars: Vec<char> = Vec::new();
    for c in it: text.chars()
        invariant
            it.seq() == text@,
            chars@ == text@.take(it.index()),
    {
        chars.push(c);
        assert(chars@ =~= text@.take(it.index() + 1));
    }
    assert(text@.take(text@.len() as int) =~= text@);
    chars
}

/// The bytes that a C escaped text stands for.
pub fn unescape(text: &str) -> (r: Vec<u8>)
    ensures
        r@ == unescaped(text@),
{
    let chars = chars_of(text);
    let mut bytes: Vec<u8> = Vec::new();
    let mut at: usize = 0;
    assert(chars@.skip(0) =~= chars@);
    assert(bytes@ + unescaped(chars@) =~= unescaped(chars@));
    while at < chars.len()
        invariant
            at <= chars@.len(),
            bytes@ + unescaped(chars@.skip(at as int)) == unescaped(chars@),
        decreases chars@.len() - at,
    {
        let ghost before = bytes@;
        let ghost rest = chars@.skip(at as int);
        proof {
            lemma_escape_length(rest);
        }
        match read_escape(&chars, at) {
            Some((byte, length)) => {
                bytes.push(byte);
                at += length;
                assert(rest.skip(length as int) =~= chars@.skip(at as int));
                assert(bytes@ =~= before + seq![byte]);
            },
            None => {
                let encoded = char_bytes(chars[at]);
                bytes.extend_from_slice(encoded.as_slice());
                at += 1;
                assert(rest.skip(1) =~= chars@.skip(at as int));
                assert(bytes@ =~= before + encoded@);
            },
        }
        assert(bytes@ + unescaped(chars@.skip(at as int)) =~= before + unescaped(rest));
    }
    assert(bytes@ + seq![] =~= bytes@);
    bytes
}

/// A text without backslashes stands for its UTF-8 form.
pub proof fn lemma_plain_text(text: Seq<char>)
    requires
        !text.contains('\\'),
    ensures
        unescaped(text) == encode_utf8(text),
    decreases text.len(),
{
    reveal_with_fuel(encode_utf8, 2);
    if text.len() > 0 {
        let rest = text.skip(1);
        assert(text.contains(text[0]));
        assert forall|c: char| rest.contains(c) implies text.contains(c) by {
            let i = choose|i: int| 0 <= i < rest.len() && rest[i] == c;
            assert(text[i + 1] == c);
        }
        lemma_plain_text(rest);
        assert(seq![text[0]].drop_first() =~= seq![]);
        assert(text.drop_first() =~= rest);
        assert(encode_utf8(seq![text[0]]) + encode_utf8(rest) =~= encode_utf8(text));
    }
}

/// The escape with three octal digits that stands for a byte.
pub open spec fn octal_escape(byte: u8) -> Seq<char> {
    seq![
        '\\',
        ('0' as u32 + byte / 64) as char,
        ('0' as u32 + byte / 8 % 8) as char,
        ('0' as u32 + byte % 8) as char,
    ]
}

/// Bytes as a C escaped text: the printable ASCII characters but for the backslash as they are,
/// and all other bytes as octal escapes.
pub open spec fn escaped(bytes: Seq<u8>) -> Seq<char>
    decreases bytes.len(),
{
    if bytes.len() == 0 {
        seq![]
    } else {
        (if 32 <= bytes[0] < 127 && bytes[0] != 92 {
            seq![bytes[0] as char]
        } else {
            octal_escape(bytes[0])
        }) + escaped(bytes.skip(1))
    }
}

proof fn lemma_octal_escape(byte: u8, more: Seq<char>)
    ensures
        escape_at(octal_escape(byte) + more) == Some((byte, 4nat)),
{
    let text = octal_escape(byte) + more;
    let accepts = |c: char| is_octal_digit(c);
    reveal_with_fuel(leading, 4);
    reveal_with_fuel(number, 4);
    assert(is_octal_digit(text[1]) && is_octal_digit(text[2]) && is_octal_digit(text[3]));
    assert(text.skip(1)[0] == text[1]);
    assert(text.skip(1).skip(1)[0] == text[2]);
    assert(text.skip(1).skip(1).skip(1)[0] == text[3]);
    assert(leading(text.skip(1), accepts, 3) == 3);
    let digits = text.subrange(1, 4);
    assert(digits.drop_last() =~= text.subrange(1, 3));
    assert(digits.drop_last().drop_last() =~= text.subrange(1, 2));
    assert(digits.drop_last().drop_last().drop_last() =~= seq![]);
    assert(number(digits, 8) == byte);
}

/// Bytes are read back from their C escaped text.
pub proof fn lemma_escaped_read_back(bytes: Seq<u8>)
    ensures
        unescaped(escaped(bytes)) == bytes,
    decreases bytes.len(),
{
    let text = escaped(bytes);
    if bytes.len() == 0 {
        assert(bytes =~= seq![]);
    } else {
        let rest = escaped(bytes.skip(1));
        lemma_escaped_read_back(bytes.skip(1));
        if 32 <= bytes[0] < 127 && bytes[0] != 92 {
            let first = seq![text[0]];
            is_ascii_chars_encode_utf8(first);
            assert(first[0] as u8 == bytes[0]);
            assert(text.skip(1) =~= rest);
            assert(encode_utf8(first) =~= seq![bytes[0]]);
        } else {
            lemma_octal_escape(bytes[0], rest);
            assert(text.skip(4) =~= rest);
        }
        assert(bytes =~= seq![bytes[0]] + bytes.skip(1));
    }
}

} // verus!
