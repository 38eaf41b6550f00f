//! Channel codec: a color channel (an integer in `[0, 255]`) to and from a
//! two-digit hexadecimal string.
//!
//! Decoding accepts both letter cases; encoding always produces two uppercase
//! digits, so a channel round-trips exactly through strings of uppercase
//! digits.

use vstd::prelude::*;
use crate::ConvError;

verus! {

/// True of the sixteen hexadecimal digit characters, either case.
pub open spec fn is_hex_digit(c: char) -> bool {
    48 <= c as int <= 57 || 65 <= c as int <= 70 || 97 <= c as int <= 102
}

/// True of the digits `0`-`9` and `A`-`F` only: what the encoder emits.
pub open spec fn is_upper_hex_digit(c: char) -> bool {
    48 <= c as int <= 57 || 65 <= c as int <= 70
}

/// The numeric value of one hexadecimal digit character.
pub open spec fn hex_val(c: char) -> int {
    if 48 <= c as int <= 57 {
        c as int - 48
    } else if 65 <= c as int <= 70 {
        c as int - 55
    } else {
        c as int - 87
    }
}

/// The uppercase digit character for a value in `[0, 15]`.
pub open spec fn hex_digit_char(v: int) -> char {
    if v == 0 { '0' } else if v == 1 { '1' } else if v == 2 { '2' }
    else if v == 3 { '3' } else if v == 4 { '4' } else if v == 5 { '5' }
    else if v == 6 { '6' } else if v == 7 { '7' } else if v == 8 { '8' }
    else if v == 9 { '9' } else if v == 10 { 'A' } else if v == 11 { 'B' }
    else if v == 12 { 'C' } else if v == 13 { 'D' } else if v == 14 { 'E' }
    else { 'F' }
}

/// The two-digit uppercase rendering of a channel value in `[0, 255]`.
pub open spec fn hex_pair(v: int) -> Seq<char> {
    seq![hex_digit_char(v / 16), hex_digit_char(v % 16)]
}

/// The value of a two-character hexadecimal string.
pub open spec fn hex_pair_val(s: Seq<char>) -> int {
    16 * hex_val(s[0]) + hex_val(s[1])
}

/// The value of one hexadecimal digit character, or `None` if `c` is no such
/// digit.
fn hex_char_val(c: char) -> (r: Option<u8>)
    ensures
        match r {
            Some(v) => is_hex_digit(c) && v == hex_val(c),
            None => !is_hex_digit(c),
        },
{
    let u = c as u32;
    if 48 <= u && u <= 57 {
        Some((u - 48) as u8)
    } else if 65 <= u && u <= 70 {
        Some((u - 55) as u8)
    } else if 97 <= u && u <= 102 {
        Some((u - 87) as u8)
    } else {
        None
    }
}

/// Decodes a two-character hexadecimal string into a channel value.
///
/// Succeeds exactly when both characters are hexadecimal digits (either
/// case); otherwise reports `InvalidHexDigit`. The caller is responsible for
/// handing over exactly two characters, as when a six-digit color is split
/// into channel pairs.
pub fn to_dec(value: &str) -> (r: Result<u8, ConvError>)
    requires
        value@.len() == 2,
    ensures
        match r {
            Ok(v) => is_hex_digit(value@[0]) && is_hex_digit(value@[1])
                && v == hex_pair_val(value@),
            Err(e) => e == ConvError::InvalidHexDigit
                && !(is_hex_digit(value@[0]) && is_hex_digit(value@[1])),
        },
{
    let c0 = value.get_char(0);
    let c1 = value.get_char(1);
    match (hex_char_val(c0), hex_char_val(c1)) {
        (Some(h), Some(l)) => Ok(16 * h + l),
        _ => Err(ConvError::InvalidHexDigit),
    }
}

/// The one-character string for a value in `[0, 15]`, uppercase.
fn hex_digit_str(v: u8) -> (r: &'static str)
    requires
        v < 16,
    ensures
        r@ == seq![hex_digit_char(v as int)],
{
    proof {
        reveal_strlit("0"); reveal_strlit("1"); reveal_strlit("2");
        reveal_strlit("3"); reveal_strlit("4"); reveal_strlit("5");
        reveal_strlit("6"); reveal_strlit("7"); reveal_strlit("8");
        reveal_strlit("9"); reveal_strlit("A"); reveal_strlit("B");
        reveal_strlit("C"); reveal_strlit("D"); reveal_strlit("E");
        reveal_strlit("F");
    }
    let r: &'static str = match v {
        0 => "0", 1 => "1", 2 => "2", 3 => "3", 4 => "4", 5 => "5",
        6 => "6", 7 => "7", 8 => "8", 9 => "9", 10 => "A", 11 => "B",
        12 => "C", 13 => "D", 14 => "E", _ => "F",
    };
    proof {
        assert(r@ =~= seq![hex_digit_char(v as int)]);
    }
    r
}

/// Encodes a channel value as exactly two uppercase hexadecimal digits.
///
/// Values below sixteen are padded with a leading `0`, so that every channel
/// occupies the same width inside a six-digit color.
pub fn to_hex(value: u8) -> (r: String)
    ensures
        r@ == hex_pair(value as int),
{
    let hi = hex_digit_str(value / 16);
    let lo = hex_digit_str(value % 16);
    let r = String::from_str(hi).concat(lo);
    proof {
        assert(r@ =~= hex_pair(value as int));
    }
    r
}

/// Law: decoding the two-digit rendering of a channel value gives the value
/// back, for every channel value.
pub proof fn lemma_hex_value_round_trip(v: int)
    requires
        0 <= v < 256,
    ensures
        hex_pair_val(hex_pair(v)) == v,
{
    assert(hex_val(hex_digit_char(v / 16)) == v / 16);
    assert(hex_val(hex_digit_char(v % 16)) == v % 16);
    assert(16 * (v / 16) + v % 16 == v) by {
        vstd::arithmetic::div_mod::lemma_fundamental_div_mod(v, 16);
    }
}

/// Law: re-encoding the value of a two-digit string of uppercase hexadecimal
/// digits gives the string back. (A lowercase digit is decoded all the same
/// but re-encoded uppercase, so the round trip is exact only for uppercase
/// input.)
pub proof fn lemma_hex_channel_round_trip(s: Seq<char>)
    requires
        s.len() == 2,
        is_upper_hex_digit(s[0]),
        is_upper_hex_digit(s[1]),
    ensures
        hex_pair(hex_pair_val(s)) == s,
{
    let v = hex_pair_val(s);
    assert(0 <= hex_val(s[0]) <= 15);
    assert(0 <= hex_val(s[1]) <= 15);
    assert(v / 16 == hex_val(s[0]) && v % 16 == hex_val(s[1])) by {
        vstd::arithmetic::div_mod::lemma_fundamental_div_mod_converse(
            v, 16, hex_val(s[0]), hex_val(s[1]));
    }
    assert(hex_digit_char(hex_val(s[0])) == s[0]);
    assert(hex_digit_char(hex_val(s[1])) == s[1]);
    assert(hex_pair(v) =~= s);
}

/// Law: a six-digit color of uppercase hexadecimal digits round-trips
/// exactly — decoding its three channel pairs and re-encoding each gives the
/// original string back.
pub proof fn lemma_hex_color_round_trip(h: Seq<char>)
    requires
        h.len() == 6,
        forall|i: int| 0 <= i < 6 ==> is_upper_hex_digit(h[i]),
    ensures
        hex_pair(hex_pair_val(h.subrange(0, 2)))
            + hex_pair(hex_pair_val(h.subrange(2, 4)))
            + hex_pair(hex_pair_val(h.subrange(4, 6))) == h,
{
    lemma_hex_channel_round_trip(h.subrange(0, 2));
    lemma_hex_channel_round_trip(h.subrange(2, 4));
    lemma_hex_channel_round_trip(h.subrange(4, 6));
    assert(h.subrange(0, 2) + h.subrange(2, 4) + h.subrange(4, 6) =~= h);
}

} // verus!
