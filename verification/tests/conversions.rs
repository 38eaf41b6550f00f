use colorconverter::dispatch::{convert, parse_output_type, ColorArgs};
use colorconverter::{ConvError, Field, OutputType};

fn empty_args() -> ColorArgs {
    ColorArgs {
        hex: None,
        red: None,
        green: None,
        blue: None,
        hue: None,
        saturation: None,
        luminance: None,
    }
}

fn hex_args(h: &str) -> ColorArgs {
    let mut a = empty_args();
    a.hex = Some(String::from(h));
    a
}

fn rgb_args(r: &str, g: &str, b: &str) -> ColorArgs {
    let mut a = empty_args();
    a.red = Some(String::from(r));
    a.green = Some(String::from(g));
    a.blue = Some(String::from(b));
    a
}

fn hsl_args(h: &str, s: &str, l: &str) -> ColorArgs {
    let mut a = empty_args();
    a.hue = Some(String::from(h));
    a.saturation = Some(String::from(s));
    a.luminance = Some(String::from(l));
    a
}

#[test]
fn hex_to_rgb_red() {
    let r = convert(&hex_args("FF0000"), OutputType::RGB);
    assert_eq!(r.unwrap(), "==>  rgb(255,0,0)");
}

#[test]
fn rgb_to_hex_green() {
    let r = convert(&rgb_args("0", "255", "0"), OutputType::HEX);
    assert_eq!(r.unwrap(), "==>  #00FF00");
}

#[test]
fn gray_hsl_to_rgb() {
    let r = convert(&hsl_args("0", "0", "50"), OutputType::RGB);
    assert_eq!(r.unwrap(), "==>  rgb(128,128,128)");
}

#[test]
fn black_hex_to_hsl() {
    let r = convert(&hex_args("000000"), OutputType::HSL);
    assert_eq!(r.unwrap(), "==>  hsl(0,0%,0%)");
}

#[test]
fn lowercase_selector_rejected() {
    assert!(parse_output_type("rgb").is_none());
    assert!(parse_output_type("hex").is_none());
    assert!(parse_output_type("HS").is_none());
    assert!(parse_output_type("HSLX").is_none());
    assert!(parse_output_type("").is_none());
}

#[test]
fn valid_selectors() {
    assert_eq!(parse_output_type("HEX"), Some(OutputType::HEX));
    assert_eq!(parse_output_type("RGB"), Some(OutputType::RGB));
    assert_eq!(parse_output_type("HSL"), Some(OutputType::HSL));
}

#[test]
fn hex_round_trip_through_conversion() {
    let r = convert(&hex_args("1A2B3C"), OutputType::HEX);
    assert_eq!(r.unwrap(), "==>  #1A2B3C");
}

#[test]
fn lowercase_hex_is_decoded_but_reencoded_uppercase() {
    let r = convert(&hex_args("ff00aa"), OutputType::HEX);
    assert_eq!(r.unwrap(), "==>  #FF00AA");
}

#[test]
fn hex_wrong_length_rejected() {
    assert_eq!(
        convert(&hex_args("FFF"), OutputType::RGB),
        Err(ConvError::InvalidHexDigit)
    );
    assert_eq!(
        convert(&hex_args("FF00000"), OutputType::RGB),
        Err(ConvError::InvalidHexDigit)
    );
    assert_eq!(
        convert(&hex_args(""), OutputType::RGB),
        Err(ConvError::InvalidHexDigit)
    );
}

#[test]
fn hex_bad_digit_rejected() {
    assert_eq!(
        convert(&hex_args("GG0000"), OutputType::RGB),
        Err(ConvError::InvalidHexDigit)
    );
    assert_eq!(
        convert(&hex_args("FF00Z0"), OutputType::RGB),
        Err(ConvError::InvalidHexDigit)
    );
}

#[test]
fn bad_channel_fields_named() {
    assert_eq!(
        convert(&rgb_args("abc", "0", "0"), OutputType::HEX),
        Err(ConvError::InvalidNumber(Field::Red))
    );
    assert_eq!(
        convert(&rgb_args("0", "2x", "0"), OutputType::HEX),
        Err(ConvError::InvalidNumber(Field::Green))
    );
    assert_eq!(
        convert(&rgb_args("0", "0", ""), OutputType::HEX),
        Err(ConvError::InvalidNumber(Field::Blue))
    );
}

#[test]
fn out_of_range_channel_rejected() {
    assert_eq!(
        convert(&rgb_args("256", "0", "0"), OutputType::HEX),
        Err(ConvError::InvalidNumber(Field::Red))
    );
    assert_eq!(
        convert(&rgb_args("0", "999999999999", "0"), OutputType::HEX),
        Err(ConvError::InvalidNumber(Field::Green))
    );
    assert_eq!(
        convert(&rgb_args("0", "0", "-1"), OutputType::HEX),
        Err(ConvError::InvalidNumber(Field::Blue))
    );
}

#[test]
fn bad_hsl_fields_named() {
    assert_eq!(
        convert(&hsl_args("x", "0", "50"), OutputType::RGB),
        Err(ConvError::InvalidNumber(Field::Hue))
    );
    assert_eq!(
        convert(&hsl_args("0", "5!", "50"), OutputType::RGB),
        Err(ConvError::InvalidNumber(Field::Saturation))
    );
    assert_eq!(
        convert(&hsl_args("0", "0", "fifty"), OutputType::RGB),
        Err(ConvError::InvalidNumber(Field::Luminance))
    );
}

#[test]
fn hsl_error_order_is_hue_luminance_saturation() {
    // both saturation and luminance invalid: luminance is read first
    assert_eq!(
        convert(&hsl_args("0", "bad", "worse"), OutputType::RGB),
        Err(ConvError::InvalidNumber(Field::Luminance))
    );
    // both hue and luminance invalid: hue is read first
    assert_eq!(
        convert(&hsl_args("bad", "0", "worse"), OutputType::RGB),
        Err(ConvError::InvalidNumber(Field::Hue))
    );
}

#[test]
fn hsl_range_limits() {
    assert!(convert(&hsl_args("359", "100", "100"), OutputType::RGB).is_ok());
    assert_eq!(
        convert(&hsl_args("360", "0", "50"), OutputType::RGB),
        Err(ConvError::InvalidNumber(Field::Hue))
    );
    assert_eq!(
        convert(&hsl_args("0", "101", "50"), OutputType::RGB),
        Err(ConvError::InvalidNumber(Field::Saturation))
    );
    assert_eq!(
        convert(&hsl_args("0", "0", "101"), OutputType::RGB),
        Err(ConvError::InvalidNumber(Field::Luminance))
    );
}

#[test]
fn fractional_hsl_fields_truncate() {
    // 50.9 percent luminance is truncated to 50
    let r = convert(&hsl_args("0", "0", "50.9"), OutputType::RGB);
    assert_eq!(r.unwrap(), "==>  rgb(128,128,128)");
    let r = convert(&hsl_args("0.5", "0.", "50"), OutputType::RGB);
    assert_eq!(r.unwrap(), "==>  rgb(128,128,128)");
}

#[test]
fn no_input_group_is_fatal() {
    assert_eq!(
        convert(&empty_args(), OutputType::RGB),
        Err(ConvError::UnreachableInputState)
    );
    // a partial group does not count
    let mut a = empty_args();
    a.red = Some(String::from("1"));
    assert_eq!(convert(&a, OutputType::RGB), Err(ConvError::UnreachableInputState));
    let mut a = empty_args();
    a.hue = Some(String::from("1"));
    a.saturation = Some(String::from("1"));
    assert_eq!(convert(&a, OutputType::RGB), Err(ConvError::UnreachableInputState));
}

#[test]
fn hex_group_takes_precedence() {
    let mut a = rgb_args("0", "255", "0");
    a.hex = Some(String::from("FF0000"));
    let r = convert(&a, OutputType::RGB);
    assert_eq!(r.unwrap(), "==>  rgb(255,0,0)");
}

#[test]
fn primary_colors_to_hsl() {
    assert_eq!(
        convert(&hex_args("FF0000"), OutputType::HSL).unwrap(),
        "==>  hsl(0,100%,50%)"
    );
    assert_eq!(
        convert(&hex_args("00FF00"), OutputType::HSL).unwrap(),
        "==>  hsl(120,100%,50%)"
    );
    assert_eq!(
        convert(&hex_args("0000FF"), OutputType::HSL).unwrap(),
        "==>  hsl(240,100%,50%)"
    );
}

#[test]
fn negative_hue_is_rendered_with_sign() {
    // red maximal with more blue than green: hue is left negative, as the
    // classic formula computes it
    assert_eq!(
        convert(&hex_args("FF0080"), OutputType::HSL).unwrap(),
        "==>  hsl(-30,100%,50%)"
    );
}

#[test]
fn output_descriptions() {
    assert_eq!(OutputType::HEX.describe(), "hex value");
    assert_eq!(OutputType::RGB.describe(), "RGB notation");
    assert_eq!(OutputType::HSL.describe(), "HSL notation");
}

#[test]
fn error_messages() {
    assert_eq!(ConvError::InvalidHexDigit.message(), "Not a valid hex value");
    assert_eq!(
        ConvError::InvalidNumber(Field::Red).message(),
        "Red value not a valid number"
    );
    assert_eq!(
        ConvError::InvalidNumber(Field::Green).message(),
        "Green value not a valid number"
    );
    assert_eq!(
        ConvError::InvalidNumber(Field::Blue).message(),
        "Blue value not a valid number"
    );
    assert_eq!(
        ConvError::InvalidNumber(Field::Hue).message(),
        "Hue value not a valid number"
    );
    assert_eq!(
        ConvError::InvalidNumber(Field::Saturation).message(),
        "Saturation value not a valid number"
    );
    assert_eq!(
        ConvError::InvalidNumber(Field::Luminance).message(),
        "Luminance value not a valid number"
    );
    assert_eq!(
        ConvError::DegenerateHueComputation.message(),
        "Error evaluating a number"
    );
    assert_eq!(
        ConvError::UnreachableInputState.message(),
        "This should never happen"
    );
}
