//! Decimal numerals: rendering integers to strings and parsing the numeric
//! fields of the command line.
//!
//! Two input grammars exist, mirroring the two kinds of numeric field. A
//! channel field is a plain unsigned integer (digits only). An HSL field may
//! also carry a fractional part, `digits '.' digits*`; the fractional digits
//! are accepted and then discarded, so the value used is the integer part,
//! truncated toward zero.

use vstd::prelude::*;

verus! {

/// True of the characters `0`-`9`.
pub open spec fn is_dec_digit(c: char) -> bool {
    48 <= c as int <= 57
}

/// The numeric value of one decimal digit character.
pub open spec fn dec_val(c: char) -> int {
    c as int - 48
}

/// The digit character for a value in `[0, 9]`.
pub open spec fn dec_digit_char(v: int) -> char {
    if v == 0 { '0' } else if v == 1 { '1' } else if v == 2 { '2' }
    else if v == 3 { '3' } else if v == 4 { '4' } else if v == 5 { '5' }
    else if v == 6 { '6' } else if v == 7 { '7' } else if v == 8 { '8' }
    else { '9' }
}

/// The usual decimal rendering of a non-negative integer, no leading zeros
/// (except the single digit of zero itself).
pub open spec fn dec_digits(n: nat) -> Seq<char>
    decreases n,
{
    if n < 10 {
        seq![dec_digit_char(n as int)]
    } else {
        dec_digits(n / 10) + seq![dec_digit_char((n % 10) as int)]
    }
}

/// The decimal rendering of an integer, with a leading minus sign when
/// negative.
pub open spec fn int_digits(i: int) -> Seq<char> {
    if i < 0 {
        seq!['-'] + dec_digits((-i) as nat)
    } else {
        dec_digits(i as nat)
    }
}

/// The value of a string of decimal digit characters, most significant
/// first; zero for the empty string.
pub open spec fn digits_val(s: Seq<char>) -> int
    decreases s.len(),
{
    if s.len() == 0 {
        0
    } else {
        digits_val(s.drop_last()) * 10 + dec_val(s.last())
    }
}

/// The index of the first character at or after `i` that is not a decimal
/// digit; the length of `s` if every one is.
pub open spec fn first_non_digit(s: Seq<char>, i: int) -> int
    decreases s.len() - i,
{
    if i < 0 || i >= s.len() {
        s.len() as int
    } else if !is_dec_digit(s[i]) {
        i
    } else {
        first_non_digit(s, i + 1)
    }
}

/// What `first_non_digit` promises: it points past a run of digits, and at a
/// non-digit unless the string ended first.
pub proof fn lemma_first_non_digit(s: Seq<char>, i: int)
    requires
        0 <= i <= s.len(),
    ensures
        i <= first_non_digit(s, i) <= s.len(),
        forall|j: int| i <= j < first_non_digit(s, i) ==> is_dec_digit(s[j]),
        first_non_digit(s, i) < s.len() ==> !is_dec_digit(s[first_non_digit(s, i)]),
    decreases s.len() - i,
{
    if i < s.len() && is_dec_digit(s[i]) {
        lemma_first_non_digit(s, i + 1);
    }
}

/// `first_non_digit` is determined by any witness of the same shape: a run
/// of digits from `i` to `k`, ended by the string or by a non-digit.
pub proof fn lemma_first_non_digit_is(s: Seq<char>, i: int, k: int)
    requires
        0 <= i <= k <= s.len(),
        forall|j: int| i <= j < k ==> is_dec_digit(s[j]),
        k == s.len() || !is_dec_digit(s[k]),
    ensures
        first_non_digit(s, i) == k,
    decreases k - i,
{
    if i < k {
        lemma_first_non_digit_is(s, i + 1, k);
    }
}

/// Where the run of leading digits of a numeral ends: at the first `.`, or
/// at the end of the string.
pub open spec fn int_part_end(s: Seq<char>) -> int {
    first_non_digit(s, 0)
}

/// A plain unsigned integer: one or more digits and nothing else.
pub open spec fn is_valid_integer(s: Seq<char>) -> bool {
    s.len() >= 1 && int_part_end(s) == s.len()
}

/// An unsigned fixed-point numeral: one or more digits, optionally followed
/// by `.` and any number of digits.
pub open spec fn is_valid_numeral(s: Seq<char>) -> bool {
    let k = int_part_end(s);
    k >= 1 && (k == s.len()
        || (s[k] == '.' && first_non_digit(s, k + 1) == s.len()))
}

/// The integer part of a numeral, truncated toward zero.
pub open spec fn numeral_value(s: Seq<char>) -> int {
    digits_val(s.take(int_part_end(s)))
}

/// A digit string has a non-negative value.
pub proof fn lemma_digits_val_nonneg(s: Seq<char>)
    requires
        forall|j: int| 0 <= j < s.len() ==> is_dec_digit(s[j]),
    ensures
        digits_val(s) >= 0,
    decreases s.len(),
{
    if s.len() > 0 {
        lemma_digits_val_nonneg(s.drop_last());
    }
}

/// The one-character string for a digit value in `[0, 9]`.
fn dec_digit_str(v: u32) -> (r: &'static str)
    requires
        v < 10,
    ensures
        r@ == seq![dec_digit_char(v as int)],
{
    proof {
        reveal_strlit("0"); reveal_strlit("1"); reveal_strlit("2");
        reveal_strlit("3"); reveal_strlit("4"); reveal_strlit("5");
        reveal_strlit("6"); reveal_strlit("7"); reveal_strlit("8");
        reveal_strlit("9");
    }
    let r: &'static str = match v {
        0 => "0", 1 => "1", 2 => "2", 3 => "3", 4 => "4", 5 => "5",
        6 => "6", 7 => "7", 8 => "8", _ => "9",
    };
    proof {
        assert(r@ =~= seq![dec_digit_char(v as int)]);
    }
    r
}

/// Renders a non-negative integer in decimal.
pub fn render_u32(n: u32) -> (r: String)
    ensures
        r@ == dec_digits(n as nat),
    decreases n,
{
    if n < 10 {
        String::from_str(dec_digit_str(n))
    } else {
        let r = render_u32(n / 10).concat(dec_digit_str(n % 10));
        proof {
            assert(r@ =~= dec_digits(n as nat));
        }
        r
    }
}

/// Renders an integer in decimal, with a minus sign when negative.
pub fn render_i32(i: i32) -> (r: String)
    ensures
        r@ == int_digits(i as int),
{
    if i < 0 {
        let m = -(i as i64);
        let r = String::from_str("-").concat(render_u32(m as u32).as_str());
        proof {
            reveal_strlit("-");
            assert("-"@ =~= seq!['-']);
            assert(r@ =~= int_digits(i as int));
        }
        r
    } else {
        render_u32(i as u32)
    }
}

/// Scans the run of decimal digits at the front of `s`.
///
/// Returns where the run ends, together with its value, saturated: the value
/// itself when it is at most 1000, and 1001 for anything larger. Every range
/// a numeric field is checked against lies below the cap, so a capped result
/// is exact wherever it is in range.
fn scan_digits(s: &str) -> (r: (usize, u32))
    ensures
        r.0 == first_non_digit(s@, 0),
        ({
            let v = digits_val(s@.take(r.0 as int));
            if v <= 1000 { r.1 == v } else { r.1 == 1001 }
        }),
{
    let n = s.unicode_len();
    let mut i: usize = 0;
    let mut acc: u32 = 0;
    proof {
        assert(s@.take(0) =~= Seq::<char>::empty());
    }
    loop
        invariant
            0 <= i <= n,
            n == s@.len(),
            forall|j: int| 0 <= j < i ==> is_dec_digit(s@[j]),
            ({
                let v = digits_val(s@.take(i as int));
                if v <= 1000 { acc == v } else { acc == 1001 }
            }),
        ensures
            0 <= i <= n,
            forall|j: int| 0 <= j < i ==> is_dec_digit(s@[j]),
            i == n || !is_dec_digit(s@[i as int]),
            ({
                let v = digits_val(s@.take(i as int));
                if v <= 1000 { acc == v } else { acc == 1001 }
            }),
        decreases n - i,
    {
        if i == n {
            break;
        }
        let c = s.get_char(i);
        let u = c as u32;
        if !(48 <= u && u <= 57) {
            break;
        }
        let d = u - 48;
        proof {
            assert(s@.take(i + 1).drop_last() =~= s@.take(i as int));
            assert(s@.take(i + 1).last() == s@[i as int]);
            lemma_digits_val_nonneg(s@.take(i as int));
        }
        acc = if acc > 1000 {
            1001
        } else {
            let t = acc * 10 + d;
            if t > 1000 { 1001 } else { t }
        };
        i = i + 1;
    }
    proof {
        lemma_first_non_digit_is(s@, 0, i as int);
    }
    (i, acc)
}

/// True exactly when every character of `s` from index `from` on is a
/// decimal digit.
fn all_digits_from(s: &str, from: usize) -> (r: bool)
    requires
        from <= s@.len(),
    ensures
        r == (first_non_digit(s@, from as int) == s@.len()),
{
    let n = s.unicode_len();
    let mut i: usize = from;
    loop
        invariant
            from <= i <= n,
            n == s@.len(),
            forall|j: int| from <= j < i ==> is_dec_digit(s@[j]),
        decreases n - i,
    {
        if i == n {
            proof {
                lemma_first_non_digit_is(s@, from as int, i as int);
            }
            return true;
        }
        let c = s.get_char(i);
        let u = c as u32;
        if !(48 <= u && u <= 57) {
            proof {
                lemma_first_non_digit_is(s@, from as int, i as int);
            }
            return false;
        }
        i = i + 1;
    }
}

/// Parses a plain unsigned integer (digits only).
///
/// Returns `None` exactly when `s` is not such a numeral; otherwise the
/// value, saturated to 1001 as in `scan_digits`.
pub fn parse_integer(s: &str) -> (r: Option<u32>)
    ensures
        match r {
            Some(v) => is_valid_integer(s@) && ({
                let t = numeral_value(s@);
                if t <= 1000 { v == t } else { v == 1001 }
            }),
            None => !is_valid_integer(s@),
        },
{
    let n = s.unicode_len();
    let (k, acc) = scan_digits(s);
    proof {
        lemma_first_non_digit(s@, 0);
    }
    if k == n && n >= 1 {
        proof {
            assert(s@.take(k as int) =~= s@);
        }
        Some(acc)
    } else {
        None
    }
}

/// Parses an unsigned fixed-point numeral, discarding any fractional part.
///
/// Returns `None` exactly when `s` is not such a numeral; otherwise the
/// integer part, saturated to 1001 as in `scan_digits`.
pub fn parse_numeral(s: &str) -> (r: Option<u32>)
    ensures
        match r {
            Some(v) => is_valid_numeral(s@) && ({
                let t = numeral_value(s@);
                if t <= 1000 { v == t } else { v == 1001 }
            }),
            None => !is_valid_numeral(s@),
        },
{
    let n = s.unicode_len();
    let (k, acc) = scan_digits(s);
    proof {
        lemma_first_non_digit(s@, 0);
    }
    if k == 0 {
        None
    } else if k == n {
        Some(acc)
    } else if s.get_char(k) == '.' {
        if all_digits_from(s, k + 1) {
            Some(acc)
        } else {
            None
        }
    } else {
        None
    }
}

} // verus!
