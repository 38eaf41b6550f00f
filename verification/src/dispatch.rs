//! The conversion dispatcher: from whichever input fields are present,
//! determine the source representation, derive the canonical RGB triple, and
//! render it in the requested representation.
//!
//! Field policy, where the classic tool left behavior to accident:
//! - a hex field must be exactly six characters, all hexadecimal digits;
//!   anything else is `InvalidHexDigit`;
//! - a channel field must be an unsigned decimal integer in `[0, 255]`;
//! - a hue field must be an unsigned numeral below 360, and a saturation or
//!   luminance field one up to 100; a fractional part is accepted and
//!   truncated toward zero;
//! - any numeric field outside its grammar or range is `InvalidNumber`,
//!   naming the field;
//! - an input with none of the three groups complete is the fatal
//!   `UnreachableInputState`, which upstream argument validation prevents.

use vstd::prelude::*;
use crate::ConvError;
use crate::Field;
use crate::OutputType;
use crate::codec::is_hex_digit;
use crate::codec::is_upper_hex_digit;
use crate::codec::hex_pair;
use crate::codec::hex_pair_val;
use crate::codec::lemma_hex_color_round_trip;
use crate::codec::to_dec;
use crate::numerals::is_valid_integer;
use crate::numerals::is_valid_numeral;
use crate::numerals::numeral_value;
use crate::numerals::parse_integer;
use crate::numerals::parse_numeral;
use crate::output::create_output;
use crate::output::create_output_spec;
use crate::transform::hsl_to_rgb;
use crate::transform::rgb_of_hsl;

verus! {

/// The raw input fields of one conversion request, exactly as supplied.
/// At most one of the three groups — `hex`; `red`, `green`, `blue`; `hue`,
/// `saturation`, `luminance` — is expected to be present.
pub struct ColorArgs {
    pub hex: Option<String>,
    pub red: Option<String>,
    pub green: Option<String>,
    pub blue: Option<String>,
    pub hue: Option<String>,
    pub saturation: Option<String>,
    pub luminance: Option<String>,
}

/// How a channel field is read: an unsigned decimal integer up to 255, or
/// `InvalidNumber` naming the field.
pub open spec fn channel_field_spec(s: Seq<char>, f: Field) -> Result<int, ConvError> {
    if is_valid_integer(s) && numeral_value(s) <= 255 {
        Ok(numeral_value(s))
    } else {
        Err(ConvError::InvalidNumber(f))
    }
}

/// How a hue field is read: an unsigned numeral below 360 degrees.
pub open spec fn hue_field_spec(s: Seq<char>) -> Result<int, ConvError> {
    if is_valid_numeral(s) && numeral_value(s) <= 359 {
        Ok(numeral_value(s))
    } else {
        Err(ConvError::InvalidNumber(Field::Hue))
    }
}

/// How a saturation or luminance field is read: an unsigned numeral up to
/// 100 percent.
pub open spec fn pct_field_spec(s: Seq<char>, f: Field) -> Result<int, ConvError> {
    if is_valid_numeral(s) && numeral_value(s) <= 100 {
        Ok(numeral_value(s))
    } else {
        Err(ConvError::InvalidNumber(f))
    }
}

/// The outcome of a conversion from a hex field.
pub open spec fn hex_conversion_spec(h: Seq<char>, out: OutputType) -> Result<Seq<char>, ConvError> {
    if h.len() == 6 && (forall|i: int| 0 <= i < 6 ==> is_hex_digit(h[i])) {
        Ok(create_output_spec(
            hex_pair_val(h.subrange(0, 2)),
            hex_pair_val(h.subrange(2, 4)),
            hex_pair_val(h.subrange(4, 6)),
            out,
        ))
    } else {
        Err(ConvError::InvalidHexDigit)
    }
}

/// The outcome of a conversion from three channel fields, read in the order
/// red, green, blue; the first invalid field decides the error.
pub open spec fn rgb_conversion_spec(
    r: Seq<char>,
    g: Seq<char>,
    b: Seq<char>,
    out: OutputType,
) -> Result<Seq<char>, ConvError> {
    match channel_field_spec(r, Field::Red) {
        Err(e) => Err(e),
        Ok(rv) => match channel_field_spec(g, Field::Green) {
            Err(e) => Err(e),
            Ok(gv) => match channel_field_spec(b, Field::Blue) {
                Err(e) => Err(e),
                Ok(bv) => Ok(create_output_spec(rv, gv, bv, out)),
            },
        },
    }
}

/// The outcome of a conversion from three HSL fields, read in the order hue,
/// luminance, saturation; the first invalid field decides the error.
pub open spec fn hsl_conversion_spec(
    h: Seq<char>,
    s: Seq<char>,
    l: Seq<char>,
    out: OutputType,
) -> Result<Seq<char>, ConvError> {
    match hue_field_spec(h) {
        Err(e) => Err(e),
        Ok(hv) => match pct_field_spec(l, Field::Luminance) {
            Err(e) => Err(e),
            Ok(lv) => match pct_field_spec(s, Field::Saturation) {
                Err(e) => Err(e),
                Ok(sv) => {
                    let rgb = rgb_of_hsl(hv, sv, lv);
                    Ok(create_output_spec(rgb.0, rgb.1, rgb.2, out))
                },
            },
        },
    }
}

/// The outcome of a whole conversion request: the first complete input group
/// — hex, then RGB, then HSL — decides the source representation; a request
/// with no complete group is the fatal invariant violation.
pub open spec fn conversion_spec(args: ColorArgs, out: OutputType) -> Result<Seq<char>, ConvError> {
    match args.hex {
        Some(h) => hex_conversion_spec(h@, out),
        None => match (args.red, args.green, args.blue) {
            (Some(r), Some(g), Some(b)) => rgb_conversion_spec(r@, g@, b@, out),
            _ => match (args.hue, args.saturation, args.luminance) {
                (Some(h), Some(s), Some(l)) => hsl_conversion_spec(h@, s@, l@, out),
                _ => Err(ConvError::UnreachableInputState),
            },
        },
    }
}

/// Law: a six-digit color of uppercase hexadecimal digits, converted back to
/// hex output, comes out exactly as it went in, behind the output marker.
pub proof fn lemma_hex_color_identity(h: Seq<char>)
    requires
        h.len() == 6,
        forall|i: int| 0 <= i < 6 ==> is_upper_hex_digit(h[i]),
    ensures
        hex_conversion_spec(h, OutputType::HEX) == Ok::<Seq<char>, ConvError>("==>  #"@ + h),
{
    reveal_strlit("==>  ");
    reveal_strlit("#");
    reveal_strlit("==>  #");
    lemma_hex_color_round_trip(h);
    assert("==>  "@ + ("#"@
        + hex_pair(hex_pair_val(h.subrange(0, 2)))
        + hex_pair(hex_pair_val(h.subrange(2, 4)))
        + hex_pair(hex_pair_val(h.subrange(4, 6)))) =~= "==>  #"@ + h);
}

/// Reads a channel field.
pub fn parse_channel(s: &str, f: Field) -> (r: Result<u8, ConvError>)
    ensures
        match r {
            Ok(v) => channel_field_spec(s@, f) == Ok::<int, ConvError>(v as int),
            Err(e) => channel_field_spec(s@, f) == Err::<int, ConvError>(e),
        },
{
    match parse_integer(s) {
        Some(v) => {
            if v <= 255 {
                Ok(v as u8)
            } else {
                Err(ConvError::InvalidNumber(f))
            }
        }
        None => Err(ConvError::InvalidNumber(f)),
    }
}

/// Reads a hue field.
pub fn parse_hue(s: &str) -> (r: Result<u16, ConvError>)
    ensures
        match r {
            Ok(v) => hue_field_spec(s@) == Ok::<int, ConvError>(v as int),
            Err(e) => hue_field_spec(s@) == Err::<int, ConvError>(e),
        },
{
    match parse_numeral(s) {
        Some(v) => {
            if v <= 359 {
                Ok(v as u16)
            } else {
                Err(ConvError::InvalidNumber(Field::Hue))
            }
        }
        None => Err(ConvError::InvalidNumber(Field::Hue)),
    }
}

/// Reads a saturation or luminance field.
pub fn parse_pct(s: &str, f: Field) -> (r: Result<u8, ConvError>)
    ensures
        match r {
            Ok(v) => pct_field_spec(s@, f) == Ok::<int, ConvError>(v as int),
            Err(e) => pct_field_spec(s@, f) == Err::<int, ConvError>(e),
        },
{
    match parse_numeral(s) {
        Some(v) => {
            if v <= 100 {
                Ok(v as u8)
            } else {
                Err(ConvError::InvalidNumber(f))
            }
        }
        None => Err(ConvError::InvalidNumber(f)),
    }
}

/// True exactly when `s` is the three given characters.
fn matches3(s: &str, c0: char, c1: char, c2: char) -> (r: bool)
    ensures
        r == (s@ == seq![c0, c1, c2]),
{
    if s.unicode_len() != 3 {
        proof {
            assert(s@ != seq![c0, c1, c2]);
        }
        return false;
    }
    let r = s.get_char(0) == c0 && s.get_char(1) == c1 && s.get_char(2) == c2;
    proof {
        if r {
            assert(s@ =~= seq![c0, c1, c2]);
        } else {
            assert(s@ != seq![c0, c1, c2]);
        }
    }
    r
}

/// Reads the output selector: exactly one of the literal tokens `HEX`,
/// `RGB`, `HSL`, case-sensitively; anything else is rejected before any
/// conversion is attempted.
pub fn parse_output_type(s: &str) -> (r: Option<OutputType>)
    ensures
        match r {
            Some(t) => (t == OutputType::HEX && s@ == "HEX"@)
                || (t == OutputType::RGB && s@ == "RGB"@)
                || (t == OutputType::HSL && s@ == "HSL"@),
            None => s@ != "HEX"@ && s@ != "RGB"@ && s@ != "HSL"@,
        },
{
    proof {
        reveal_strlit("HEX");
        reveal_strlit("RGB");
        reveal_strlit("HSL");
        assert("HEX"@ =~= seq!['H', 'E', 'X']);
        assert("RGB"@ =~= seq!['R', 'G', 'B']);
        assert("HSL"@ =~= seq!['H', 'S', 'L']);
    }
    if matches3(s, 'H', 'E', 'X') {
        Some(OutputType::HEX)
    } else if matches3(s, 'R', 'G', 'B') {
        Some(OutputType::RGB)
    } else if matches3(s, 'H', 'S', 'L') {
        Some(OutputType::HSL)
    } else {
        None
    }
}

/// Runs one whole conversion: picks the source representation from the
/// fields present, derives the canonical RGB triple, and renders it in the
/// requested representation.
pub fn convert(args: &ColorArgs, output: OutputType) -> (r: Result<String, ConvError>)
    ensures
        match r {
            Ok(s) => conversion_spec(*args, output) == Ok::<Seq<char>, ConvError>(s@),
            Err(e) => conversion_spec(*args, output) == Err::<Seq<char>, ConvError>(e),
        },
{
    match &args.hex {
        Some(h) => {
            let hs: &str = h.as_str();
            if hs.unicode_len() != 6 {
                return Err(ConvError::InvalidHexDigit);
            }
            let p0 = hs.substring_char(0, 2);
            let p1 = hs.substring_char(2, 4);
            let p2 = hs.substring_char(4, 6);
            let rv = match to_dec(p0) {
                Ok(v) => v,
                Err(e) => {
                    return Err(e);
                }
            };
            let gv = match to_dec(p1) {
                Ok(v) => v,
                Err(e) => {
                    return Err(e);
                }
            };
            let bv = match to_dec(p2) {
                Ok(v) => v,
                Err(e) => {
                    return Err(e);
                }
            };
            proof {
                assert forall|i: int| 0 <= i < 6 implies is_hex_digit(h@[i]) by {
                    assert(p0@[0] == h@[0] && p0@[1] == h@[1]);
                    assert(p1@[0] == h@[2] && p1@[1] == h@[3]);
                    assert(p2@[0] == h@[4] && p2@[1] == h@[5]);
                }
            }
            Ok(create_output(rv, gv, bv, output))
        }
        None => match (&args.red, &args.green, &args.blue) {
            (Some(r), Some(g), Some(b)) => {
                let rv = match parse_channel(r.as_str(), Field::Red) {
                    Ok(v) => v,
                    Err(e) => {
                        return Err(e);
                    }
                };
                let gv = match parse_channel(g.as_str(), Field::Green) {
                    Ok(v) => v,
                    Err(e) => {
                        return Err(e);
                    }
                };
                let bv = match parse_channel(b.as_str(), Field::Blue) {
                    Ok(v) => v,
                    Err(e) => {
                        return Err(e);
                    }
                };
                Ok(create_output(rv, gv, bv, output))
            }
            _ => match (&args.hue, &args.saturation, &args.luminance) {
                (Some(h), Some(s), Some(l)) => {
                    let hv = match parse_hue(h.as_str()) {
                        Ok(v) => v,
                        Err(e) => {
                            return Err(e);
                        }
                    };
                    let lv = match parse_pct(l.as_str(), Field::Luminance) {
                        Ok(v) => v,
                        Err(e) => {
                            return Err(e);
                        }
                    };
                    let sv = match parse_pct(s.as_str(), Field::Saturation) {
                        Ok(v) => v,
                        Err(e) => {
                            return Err(e);
                        }
                    };
                    let (rv, gv, bv) = hsl_to_rgb(hv, sv, lv);
                    Ok(create_output(rv, gv, bv, output))
                }
                _ => Err(ConvError::UnreachableInputState),
            },
        },
    }
}

} // verus!
