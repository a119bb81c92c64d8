//! Text for listings and dumps: hexadecimal digits, and what is appended
//! to a `String`.
use vstd::prelude::*;

verus! {

/// The hexadecimal digit for a number below 16, in upper case.
pub open spec fn hex_char(digit: int) -> char {
    if digit == 0 {
        '0'
    } else if digit == 1 {
        '1'
    } else if digit == 2 {
        '2'
    } else if digit == 3 {
        '3'
    } else if digit == 4 {
        '4'
    } else if digit == 5 {
        '5'
    } else if digit == 6 {
        '6'
    } else if digit == 7 {
        '7'
    } else if digit == 8 {
        '8'
    } else if digit == 9 {
        '9'
    } else if digit == 10 {
        'A'
    } else if digit == 11 {
        'B'
    } else if digit == 12 {
        'C'
    } else if digit == 13 {
        'D'
    } else if digit == 14 {
        'E'
    } else {
        'F'
    }
}

/// A register as text: `V` and the register's hexadecimal digit.
pub open spec fn register_text(x: u8) -> Seq<char> {
    seq!['V', hex_char(x as int)]
}

/// A number as text: `0x` and its lowest `digits` hexadecimal digits, the
/// most significant first.
pub open spec fn hex_text(value: int, digits: nat) -> Seq<char>
    decreases digits,
{
    if digits == 0 {
        seq!['0', 'x']
    } else {
        hex_text(value / 16, (digits - 1) as nat).push(hex_char(value % 16))
    }
}

/// What separates two operands: a comma and a space.
pub open spec fn separator() -> Seq<char> {
    seq![',', ' ']
}

/// A byte as text, for a dump: its hexadecimal digits without a leading
/// zero, and a space.
pub open spec fn byte_text(byte: u8) -> Seq<char> {
    if byte < 16 {
        seq![hex_char(byte as int), ' ']
    } else {
        seq![hex_char(byte as int / 16), hex_char(byte as int % 16), ' ']
    }
}

/// Bytes as text, for a dump: the text of each byte, in order.
pub open spec fn bytes_text(bytes: Seq<u8>) -> Seq<char>
    decreases bytes.len(),
{
    if bytes.len() == 0 {
        Seq::empty()
    } else {
        bytes_text(bytes.drop_last()) + byte_text(bytes.last())
    }
}

/// `String::push` of std: the character is appended to the text.
pub assume_specification[ String::push ](text: &mut String, ch: char)
    ensures
        final(text)@ == old(text)@.push(ch),
;

/// `String::push_str` of std: the given text is appended to the text.
pub assume_specification[ String::push_str ](text: &mut String, tail: &str)
    ensures
        final(text)@ == old(text)@ + tail@,
;

/// The hexadecimal digit for a number below 16, in upper case.
fn hex_digit_char(digit: u8) -> (ch: char)
    requires
        digit < 16,
    ensures
        ch == hex_char(digit as int),
{
    match digit {
        0 => '0',
        1 => '1',
        2 => '2',
        3 => '3',
        4 => '4',
        5 => '5',
        6 => '6',
        7 => '7',
        8 => '8',
        9 => '9',
        10 => 'A',
        11 => 'B',
        12 => 'C',
        13 => 'D',
        14 => 'E',
        _ => 'F',
    }
}

/// Appends a register: `V` and its digit.
pub(crate) fn push_register(text: &mut String, x: u8)
    requires
        x < 16,
    ensures
        final(text)@ == old(text)@ + register_text(x),
{
    text.push('V');
    text.push(hex_digit_char(x));
    assert(text@ =~= old(text)@ + register_text(x));
}

/// Appends a comma and a space.
pub(crate) fn push_separator(text: &mut String)
    ensures
        final(text)@ == old(text)@ + separator(),
{
    text.push(',');
    text.push(' ');
    assert(text@ =~= old(text)@ + separator());
}

/// Appends `0x` and the lowest `digits` hexadecimal digits of `value`.
pub(crate) fn push_hex(text: &mut String, value: u16, digits: u8)
    ensures
        final(text)@ == old(text)@ + hex_text(value as int, digits as nat),
    decreases digits,
{
    if digits == 0 {
        text.push('0');
        text.push('x');
        assert(text@ =~= old(text)@ + hex_text(value as int, 0));
    } else {
        push_hex(text, value / 16, digits - 1);
        text.push(hex_digit_char((value % 16) as u8));
        assert(text@ =~= old(text)@ + hex_text(value as int, digits as nat));
    }
}

/// Appends the text of each of `bytes`: its hexadecimal digits without a
/// leading zero, and a space.
pub(crate) fn push_bytes(text: &mut String, bytes: &[u8])
    ensures
        final(text)@ == old(text)@ + bytes_text(bytes@),
{
    let mut k: usize = 0;
    assert(bytes@.take(0) =~= Seq::<u8>::empty());
    assert(text@ =~= old(text)@ + bytes_text(bytes@.take(0)));
    while k < bytes.len()
        invariant
            k <= bytes@.len(),
            text@ == old(text)@ + bytes_text(bytes@.take(k as int)),
        decreases bytes@.len() - k,
    {
        let byte = bytes[k];
        let ghost written = text@;
        if byte >= 16 {
            text.push(hex_digit_char(byte / 16));
        }
        text.push(hex_digit_char(byte % 16));
        text.push(' ');
        proof {
            assert(text@ =~= written + byte_text(byte));
            assert(bytes@.take(k + 1).drop_last() =~= bytes@.take(k as int));
            assert(bytes@.take(k + 1).last() == byte);
            assert(text@ =~= old(text)@ + bytes_text(bytes@.take(k + 1)));
        }
        k += 1;
    }
    assert(bytes@.take(k as int) =~= bytes@);
}

} // verus!
