//! Output formatting: rendering a canonical RGB triple in the requested
//! representation.

use vstd::prelude::*;
use crate::OutputType;
use crate::codec::hex_pair;
use crate::codec::to_hex;
use crate::numerals::dec_digits;
use crate::numerals::int_digits;
use crate::numerals::render_i32;
use crate::numerals::render_u32;
use crate::transform::hsl_components;
use crate::transform::hue_deg;
use crate::transform::lum_pct;
use crate::transform::sat_pct;

verus! {

/// The comma-separated HSL rendering of an RGB triple:
/// `<hue>,<saturation>%,<luminance>%`.
pub open spec fn hsl_string(r: int, g: int, b: int) -> Seq<char> {
    int_digits(hue_deg(r, g, b))
        + ","@
        + dec_digits(sat_pct(r, g, b) as nat)
        + "%,"@
        + dec_digits(lum_pct(r, g, b) as nat)
        + "%"@
}

/// What `format_color` produces for each output kind.
pub open spec fn format_color_spec(r: int, g: int, b: int, out: OutputType) -> Seq<char> {
    match out {
        OutputType::HEX => "#"@ + hex_pair(r) + hex_pair(g) + hex_pair(b),
        OutputType::RGB => "rgb("@ + dec_digits(r as nat) + ","@ + dec_digits(g as nat)
            + ","@ + dec_digits(b as nat) + ")"@,
        OutputType::HSL => "hsl("@ + hsl_string(r, g, b) + ")"@,
    }
}

/// What `create_output` produces: the formatted color behind the marker the
/// final output line carries.
pub open spec fn create_output_spec(r: int, g: int, b: int, out: OutputType) -> Seq<char> {
    "==>  "@ + format_color_spec(r, g, b, out)
}

/// Renders an RGB triple as `<hue>,<saturation>%,<luminance>%`, converting
/// through the RGB-to-HSL transform.
pub fn get_hsl(red: u8, green: u8, blue: u8) -> (r: String)
    ensures
        r@ == hsl_string(red as int, green as int, blue as int),
{
    let (h, s, l) = hsl_components(red, green, blue);
    let r = render_i32(h)
        .concat(",")
        .concat(render_u32(s as u32).as_str())
        .concat("%,")
        .concat(render_u32(l as u32).as_str())
        .concat("%");
    proof {
        assert(r@ =~= hsl_string(red as int, green as int, blue as int));
    }
    r
}

/// Renders an RGB triple in the requested representation: `#RRGGBB`,
/// `rgb(R,G,B)`, or `hsl(H,S%,L%)`.
pub fn format_color(red: u8, green: u8, blue: u8, output: OutputType) -> (r: String)
    ensures
        r@ == format_color_spec(red as int, green as int, blue as int, output),
{
    match output {
        OutputType::HEX => {
            let r = String::from_str("#")
                .concat(to_hex(red).as_str())
                .concat(to_hex(green).as_str())
                .concat(to_hex(blue).as_str());
            proof {
                assert(r@ =~= format_color_spec(red as int, green as int, blue as int, output));
            }
            r
        }
        OutputType::RGB => {
            let r = String::from_str("rgb(")
                .concat(render_u32(red as u32).as_str())
                .concat(",")
                .concat(render_u32(green as u32).as_str())
                .concat(",")
                .concat(render_u32(blue as u32).as_str())
                .concat(")");
            proof {
                assert(r@ =~= format_color_spec(red as int, green as int, blue as int, output));
            }
            r
        }
        OutputType::HSL => {
            let r = String::from_str("hsl(")
                .concat(get_hsl(red, green, blue).as_str())
                .concat(")");
            proof {
                assert(r@ =~= format_color_spec(red as int, green as int, blue as int, output));
            }
            r
        }
    }
}

/// Renders an RGB triple in the requested representation, behind the
/// `==>  ` marker of the final output line.
pub fn create_output(red: u8, green: u8, blue: u8, output: OutputType) -> (r: String)
    ensures
        r@ == create_output_spec(red as int, green as int, blue as int, output),
{
    let r = String::from_str("==>  ")
        .concat(format_color(red, green, blue, output).as_str());
    proof {
        assert(r@ =~= create_output_spec(red as int, green as int, blue as int, output));
    }
    r
}

} // verus!
