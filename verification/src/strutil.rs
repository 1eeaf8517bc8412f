//! Small string-building helpers shared by the lockfile codec and the
//! registry query builders.

use vstd::prelude::*;

verus! {

/// Relies on `String::push`: appends exactly the one character `c` to the end
/// of the string.
#[verifier::external_body]
pub fn push_char(s: &mut String, c: char)
    ensures
        final(s)@ == old(s)@.push(c),
{
    s.push(c);
}

/// True for the ten ASCII decimal digit characters.
pub open spec fn is_ascii_digit(c: char) -> bool {
    48 <= c as u32 <= 57
}

/// The numeric value of a decimal digit character.
pub open spec fn digit_value(c: char) -> int {
    c as u32 - 48
}

/// Whether `c` is an ASCII decimal digit.
pub fn check_ascii_digit(c: char) -> (b: bool)
    ensures
        b == is_ascii_digit(c),
{
    let u = c as u32;
    48 <= u && u <= 57
}

/// The decimal digit character for a value below ten.
pub open spec fn spec_digit_char(v: int) -> char {
    if v == 0 {
        '0'
    } else if v == 1 {
        '1'
    } else if v == 2 {
        '2'
    } else if v == 3 {
        '3'
    } else if v == 4 {
        '4'
    } else if v == 5 {
        '5'
    } else if v == 6 {
        '6'
    } else if v == 7 {
        '7'
    } else if v == 8 {
        '8'
    } else {
        '9'
    }
}

/// The lower-case hexadecimal digit character for a value below sixteen.
pub open spec fn spec_hex_char(v: int) -> char {
    if v < 10 {
        spec_digit_char(v)
    } else if v == 10 {
        'a'
    } else if v == 11 {
        'b'
    } else if v == 12 {
        'c'
    } else if v == 13 {
        'd'
    } else if v == 14 {
        'e'
    } else {
        'f'
    }
}

/// The decimal digit character for `v`.
pub fn digit_char(v: u8) -> (c: char)
    requires
        v < 10,
    ensures
        c == spec_digit_char(v as int),
{
    match v {
        0 => '0',
        1 => '1',
        2 => '2',
        3 => '3',
        4 => '4',
        5 => '5',
        6 => '6',
        7 => '7',
        8 => '8',
        _ => '9',
    }
}

/// The lower-case hexadecimal digit character for `v`.
pub fn hex_char(v: u8) -> (c: char)
    requires
        v < 16,
    ensures
        c == spec_hex_char(v as int),
{
    if v < 10 {
        digit_char(v)
    } else {
        match v {
            10 => 'a',
            11 => 'b',
            12 => 'c',
            13 => 'd',
            14 => 'e',
            _ => 'f',
        }
    }
}

/// The upper-case hexadecimal digit character for a value below sixteen.
pub open spec fn spec_hex_char_upper(v: int) -> char {
    if v < 10 {
        spec_digit_char(v)
    } else if v == 10 {
        'A'
    } else if v == 11 {
        'B'
    } else if v == 12 {
        'C'
    } else if v == 13 {
        'D'
    } else if v == 14 {
        'E'
    } else {
        'F'
    }
}

/// The upper-case hexadecimal digit character for `v`.
pub fn hex_char_upper(v: u8) -> (c: char)
    requires
        v < 16,
    ensures
        c == spec_hex_char_upper(v as int),
{
    if v < 10 {
        digit_char(v)
    } else {
        match v {
            10 => 'A',
            11 => 'B',
            12 => 'C',
            13 => 'D',
            14 => 'E',
            _ => 'F',
        }
    }
}

/// The decimal digit characters of a non-negative number, most significant
/// first.
pub open spec fn spec_decimal(n: int) -> Seq<char>
    decreases n,
{
    if n < 10 {
        seq![spec_digit_char(n)]
    } else {
        spec_decimal(n / 10) + seq![spec_digit_char(n % 10)]
    }
}

/// Writes `n` in decimal.
pub fn u16_to_string(n: u16) -> (r: String)
    ensures
        r@ == spec_decimal(n as int),
    decreases n,
{
    if n < 10 {
        let mut s = String::new();
        push_char(&mut s, digit_char(n as u8));
        assert(s@ =~= spec_decimal(n as int));
        s
    } else {
        let mut s = u16_to_string(n / 10);
        push_char(&mut s, digit_char((n % 10) as u8));
        assert(s@ =~= spec_decimal(n as int));
        s
    }
}

} // verus!
