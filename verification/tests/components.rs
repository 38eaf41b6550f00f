use colorconverter::codec::{to_dec, to_hex};
use colorconverter::output::{create_output, format_color, get_hsl};
use colorconverter::transform::{get_max, get_min, hsl_components, hsl_to_rgb};
use colorconverter::{ConvError, OutputType};

#[test]
fn hex_channel_decoding() {
    assert_eq!(to_dec("00"), Ok(0));
    assert_eq!(to_dec("0A"), Ok(10));
    assert_eq!(to_dec("ff"), Ok(255));
    assert_eq!(to_dec("FF"), Ok(255));
    assert_eq!(to_dec("3f"), Ok(63));
    assert_eq!(to_dec("80"), Ok(128));
    assert_eq!(to_dec("G0"), Err(ConvError::InvalidHexDigit));
    assert_eq!(to_dec("0-"), Err(ConvError::InvalidHexDigit));
}

#[test]
fn hex_channel_encoding_pads_to_two_digits() {
    assert_eq!(to_hex(0), "00");
    assert_eq!(to_hex(5), "05");
    assert_eq!(to_hex(16), "10");
    assert_eq!(to_hex(63), "3F");
    assert_eq!(to_hex(255), "FF");
}

#[test]
fn hex_channel_round_trip_uppercase() {
    // every uppercase two-digit pair comes back unchanged
    let digits = [
        '0', '1', '2', '3', '4', '5', '6', '7', '8', '9', 'A', 'B', 'C', 'D', 'E', 'F',
    ];
    for hi in digits.iter() {
        for lo in digits.iter() {
            let mut s = String::new();
            s.push(*hi);
            s.push(*lo);
            let v = to_dec(&s).unwrap();
            assert_eq!(to_hex(v), s);
        }
    }
}

#[test]
fn max_and_min_of_channels() {
    assert_eq!(get_max(1, 2, 3), 3);
    assert_eq!(get_max(3, 2, 1), 3);
    assert_eq!(get_max(2, 3, 1), 3);
    assert_eq!(get_max(7, 7, 7), 7);
    assert_eq!(get_min(1, 2, 3), 1);
    assert_eq!(get_min(3, 2, 1), 1);
    assert_eq!(get_min(2, 1, 3), 1);
    assert_eq!(get_min(7, 7, 7), 7);
}

#[test]
fn hsl_components_of_primaries() {
    assert_eq!(hsl_components(255, 0, 0), (0, 100, 50));
    assert_eq!(hsl_components(0, 255, 0), (120, 100, 50));
    assert_eq!(hsl_components(0, 0, 255), (240, 100, 50));
}

#[test]
fn gray_triples_have_zero_saturation() {
    // scenario form of the general law on achromatic triples
    for v in [0u8, 1, 50, 77, 128, 200, 254, 255] {
        let (h, s, _) = hsl_components(v, v, v);
        assert_eq!(s, 0);
        assert_eq!(h, 0);
    }
}

#[test]
fn zero_saturation_yields_rounded_gray_regardless_of_hue() {
    // scenario form of the general law on zero-saturation conversions:
    // round(255 * 37 / 100) = round(94.35) = 94, whatever the hue
    for h in [0u16, 90, 200, 359] {
        assert_eq!(hsl_to_rgb(h, 0, 37), (94, 94, 94));
    }
    // round(255 * 0.5) rounds the exact half up to 128
    assert_eq!(hsl_to_rgb(0, 0, 50), (128, 128, 128));
    assert_eq!(hsl_to_rgb(0, 0, 0), (0, 0, 0));
    assert_eq!(hsl_to_rgb(0, 0, 100), (255, 255, 255));
}

#[test]
fn hsl_to_rgb_of_primaries() {
    assert_eq!(hsl_to_rgb(0, 100, 50), (255, 0, 0));
    assert_eq!(hsl_to_rgb(120, 100, 50), (0, 255, 0));
    assert_eq!(hsl_to_rgb(240, 100, 50), (0, 0, 255));
}

#[test]
fn rgb_hsl_round_trip_within_one() {
    // truncation in the transform loses at most one unit per channel on
    // these samples (their hues are non-negative, so they can be fed back)
    let samples: [(u8, u8, u8); 8] = [
        (255, 0, 0),
        (0, 255, 0),
        (0, 0, 255),
        (200, 100, 50),
        (100, 150, 200),
        (128, 128, 128),
        (10, 10, 10),
        (255, 255, 255),
    ];
    for (r, g, b) in samples.iter().copied() {
        let (h, s, l) = hsl_components(r, g, b);
        assert!(h >= 0 && h < 360);
        let (r2, g2, b2) = hsl_to_rgb(h as u16, s, l);
        assert!((r as i32 - r2 as i32).abs() <= 1, "red {} vs {}", r, r2);
        assert!((g as i32 - g2 as i32).abs() <= 1, "green {} vs {}", g, g2);
        assert!((b as i32 - b2 as i32).abs() <= 1, "blue {} vs {}", b, b2);
    }
}

#[test]
fn hsl_rendering() {
    assert_eq!(get_hsl(255, 0, 0), "0,100%,50%");
    assert_eq!(get_hsl(0, 0, 0), "0,0%,0%");
    assert_eq!(get_hsl(255, 255, 255), "0,0%,100%");
    assert_eq!(get_hsl(255, 0, 128), "-30,100%,50%");
}

#[test]
fn formatting_each_output_kind() {
    assert_eq!(format_color(255, 0, 0, OutputType::HEX), "#FF0000");
    assert_eq!(format_color(255, 0, 0, OutputType::RGB), "rgb(255,0,0)");
    assert_eq!(format_color(255, 0, 0, OutputType::HSL), "hsl(0,100%,50%)");
    assert_eq!(create_output(1, 2, 3, OutputType::HEX), "==>  #010203");
    assert_eq!(create_output(1, 2, 3, OutputType::RGB), "==>  rgb(1,2,3)");
}
