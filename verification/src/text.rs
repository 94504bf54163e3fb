//! Numbers, addresses and log lines as text.

use vstd::prelude::*;
use vstd::utf8::{decode_utf8, valid_utf8};

verus! {

/// `String::push` appends one character.
pub assume_specification[ String::push ](s: &mut String, ch: char)
    ensures
        final(s)@ == old(s)@.push(ch),
;

/// `std::str::Utf8Error`: why bytes are no text. It is only handed through.
#[verifier::external_type_specification]
#[verifier::external_body]
pub struct ExUtf8Error(std::str::Utf8Error);

/// `std::str::from_utf8` accepts exactly the valid UTF-8 encodings, and its result
/// holds the characters that they encode.
pub assume_specification[ std::str::from_utf8 ](v: &[u8]) -> (result: Result<
    &str,
    std::str::Utf8Error,
>)
    ensures
        result is Ok <==> valid_utf8(v@),
        result matches Ok(s) ==> s@ == decode_utf8(v@),
;

/// `std::string::FromUtf8Error`: why bytes are no text. It is only handed through.
#[verifier::external_type_specification]
#[verifier::external_body]
pub struct ExFromUtf8Error(std::string::FromUtf8Error);

/// `String::from_utf8` accepts exactly the valid UTF-8 encodings, and its result
/// holds the characters that they encode.
pub assume_specification[ String::from_utf8 ](vec: Vec<u8>) -> (result: Result<
    String,
    std::string::FromUtf8Error,
>)
    ensures
        result is Ok <==> valid_utf8(vec@),
        result matches Ok(s) ==> s@ == decode_utf8(vec@),
;

/// The character of a digit, also of one above nine.
pub open spec fn digit(d: int) -> char {
    seq!['0', '1', '2', '3', '4', '5', '6', '7', '8', '9', 'a', 'b', 'c', 'd', 'e', 'f'][d]
}

/// A number in decimal, without leading zeros.
pub open spec fn decimal(n: nat) -> Seq<char>
    decreases n,
{
    if n < 10 {
        seq![digit(n as int)]
    } else {
        decimal(n / 10).push(digit(n as int % 10))
    }
}

/// A byte in hexadecimal, as `0x` and two digits.
pub open spec fn hex_byte(b: u8) -> Seq<char> {
    seq!['0', 'x', digit(b as int / 16), digit(b as int % 16)]
}

/// The character of a digit below sixteen.
fn digit_char(d: u8) -> (c: char)
    requires
        d < 16,
    ensures
        c == digit(d as int),
{
    match d {
        0 => '0',
        1 => '1',
        2 => '2',
        3 => '3',
        4 => '4',
        5 => '5',
        6 => '6',
        7 => '7',
        8 => '8',
        9 => '9',
        10 => 'a',
        11 => 'b',
        12 => 'c',
        13 => 'd',
        14 => 'e',
        _ => 'f',
    }
}

/// Appends a number in decimal.
pub(crate) fn push_decimal(s: &mut String, n: u32)
    ensures
        final(s)@ == old(s)@ + decimal(n as nat),
    decreases n,
{
    if n >= 10 {
        push_decimal(s, n / 10);
    }
    s.push(digit_char((n % 10) as u8));
    proof {
        assert(s@ =~= old(s)@ + decimal(n as nat));
    }
}

/// Appends a byte in hexadecimal.
pub(crate) fn push_hex_byte(s: &mut String, b: u8)
    ensures
        final(s)@ == old(s)@ + hex_byte(b),
{
    s.push('0');
    s.push('x');
    s.push(digit_char(b / 16));
    s.push(digit_char(b % 16));
    proof {
        assert(s@ =~= old(s)@ + hex_byte(b));
    }
}

proof fn lemma_digit_injective(a: int, b: int)
    requires
        0 <= a < 16,
        0 <= b < 16,
        digit(a) == digit(b),
    ensures
        a == b,
{
    let digits = seq!['0', '1', '2', '3', '4', '5', '6', '7', '8', '9', 'a', 'b', 'c', 'd', 'e', 'f'];
    assert forall|i: int, j: int| 0 <= i < j < 16 implies digits[i] != digits[j] by {}
}

/// A decimal number consists of at least one character, all of them digits.
pub proof fn law_decimal_is_digits(n: nat)
    ensures
        decimal(n).len() > 0,
        forall|i: int| 0 <= i < decimal(n).len() ==> '0' <= #[trigger] decimal(n)[i] <= '9',
    decreases n,
{
    if n >= 10 {
        law_decimal_is_digits(n / 10);
    }
}

/// Different numbers have different decimal texts.
pub proof fn law_decimal_injective(a: nat, b: nat)
    requires
        decimal(a) == decimal(b),
    ensures
        a == b,
    decreases a,
{
    law_decimal_is_digits(a / 10);
    law_decimal_is_digits(b / 10);
    assert(decimal(a).last() == digit(a as int % 10));
    assert(decimal(b).last() == digit(b as int % 10));
    lemma_digit_injective(a as int % 10, b as int % 10);
    if a >= 10 && b >= 10 {
        assert(decimal(a).drop_last() =~= decimal(a / 10));
        assert(decimal(b).drop_last() =~= decimal(b / 10));
        law_decimal_injective(a / 10, b / 10);
    }
}

/// A text filled up with spaces on its right to at least `width` characters.
pub open spec fn padded(s: Seq<char>, width: nat) -> Seq<char> {
    if s.len() < width {
        s + Seq::new((width - s.len()) as nat, |i: int| ' ')
    } else {
        s
    }
}

/// A line of the log: `[time level file:line] message`, with the level filled up to
/// five characters.
pub open spec fn log_line_text(
    time: Seq<char>,
    level: Seq<char>,
    file: Seq<char>,
    line: nat,
    message: Seq<char>,
) -> Seq<char> {
    seq!['['] + time + seq![' '] + padded(level, 5) + seq![' '] + file + seq![':'] + decimal(line)
        + seq![']', ' '] + message
}

/// Formats a line of the log.
pub fn log_line(time: &str, level: &str, file: &str, line: u32, message: &str) -> (text: String)
    ensures
        text@ == log_line_text(time@, level@, file@, line as nat, message@),
{
    let mut field = String::from_str(level);
    let mut width: usize = level.unicode_len();
    while width < 5
        invariant
            width == field@.len(),
            padded(field@, 5) =~= padded(level@, 5),
        decreases 5 - width,
    {
        field.push(' ');
        width = width + 1;
    }
    let mut text = String::new();
    text.push('[');
    text.append(time);
    text.push(' ');
    text.append(field.as_str());
    text.push(' ');
    text.append(file);
    text.push(':');
    push_decimal(&mut text, line);
    text.push(']');
    text.push(' ');
    text.append(message);
    assert(text@ =~= log_line_text(time@, level@, file@, line as nat, message@));
    text
}

/// The number that digits stand for in base ten: each counts ten times as much as
/// the one after it.
pub open spec fn base_ten(digits: Seq<char>) -> int
    decreases digits.len(),
{
    if digits.len() == 0 {
        0
    } else {
        base_ten(digits.drop_last()) * 10 + (digits.last() as int - 48)
    }
}

/// `text` is how `n` is written in base ten: at least one digit, nothing but digits,
/// no zero in front, and the value `n`.
pub open spec fn writes(text: Seq<char>, n: int) -> bool {
    &&& text.len() > 0
    &&& forall|i: int| 0 <= i < text.len() ==> '0' <= #[trigger] text[i] <= '9'
    &&& text.len() > 1 ==> text[0] != '0'
    &&& base_ten(text) == n
}

/// A decimal number has the value that it was made from.
pub proof fn law_decimal_has_its_value(n: nat)
    ensures
        writes(decimal(n), n as int),
    decreases n,
{
    law_decimal_is_digits(n);
    let text = decimal(n);
    if n < 10 {
        assert(text.drop_last() =~= Seq::empty());
        assert(base_ten(text.drop_last()) == 0);
    } else {
        law_decimal_has_its_value(n / 10);
        assert(text.drop_last() =~= decimal(n / 10));
        assert(text[0] == decimal(n / 10)[0]);
        if decimal(n / 10).len() == 1 {
            let d = decimal(n / 10);
            assert(d.drop_last() =~= Seq::empty());
            assert(base_ten(d.drop_last()) == 0);
        }
    }
}

/// The value of a digit in base sixteen, in lower case.
pub open spec fn base_sixteen(c: char) -> int {
    if '0' <= c <= '9' {
        c as int - 48
    } else {
        c as int - 87
    }
}

/// `text` is how `b` is written in base sixteen: `0x` and two digits, each one of the
/// ten digits or a letter from `a` to `f`, the first counting sixteen times as much.
pub open spec fn writes_hex(text: Seq<char>, b: u8) -> bool {
    &&& text.len() == 4
    &&& text[0] == '0' && text[1] == 'x'
    &&& '0' <= text[2] <= '9' || 'a' <= text[2] <= 'f'
    &&& '0' <= text[3] <= '9' || 'a' <= text[3] <= 'f'
    &&& base_sixteen(text[2]) * 16 + base_sixteen(text[3]) == b
}

/// A hexadecimal byte has the value that it was made from.
pub proof fn law_hex_byte_has_its_value(b: u8)
    ensures
        writes_hex(hex_byte(b), b),
{
}

/// Every line of the log is made of its parts in their places: the time behind a
/// bracket, the level with only spaces behind it up to five characters, the file, a
/// colon, the line in base ten, a bracket and the message.
pub proof fn law_log_line_holds_its_parts(
    time: &str,
    level: &str,
    file: &str,
    line: u32,
    message: &str,
    text: String,
)
    requires
        call_ensures(log_line, (time, level, file, line, message), text),
    ensures
        exists|field: Seq<char>, number: Seq<char>|
            {
                &&& #[trigger] writes(number, line as int)
                &&& field.len() == if level@.len() < 5 {
                    5
                } else {
                    level@.len()
                }
                &&& #[trigger] level@.is_prefix_of(field)
                &&& forall|i: int| level@.len() <= i < field.len() ==> #[trigger] field[i] == ' '
                &&& text@ == seq!['['] + time@ + seq![' '] + field + seq![' '] + file@ + seq![':']
                    + number + seq![']', ' '] + message@
            },
{
    let field = padded(level@, 5);
    let number = decimal(line as nat);
    law_decimal_has_its_value(line as nat);
    assert(level@.is_prefix_of(field)) by {
        assert(level@ =~= field.subrange(0, level@.len() as int));
    }
    assert(writes(number, line as int));
    assert(text@ =~= seq!['['] + time@ + seq![' '] + field + seq![' '] + file@ + seq![':'] + number
        + seq![']', ' '] + message@);
}

} // verus!
