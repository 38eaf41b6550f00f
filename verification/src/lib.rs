//! Color conversion between hexadecimal, RGB and HSL representations.
//!
//! All conversions funnel through a canonical RGB triple of 8-bit channels.
//! The HSL arithmetic is carried out exactly, over integers: saturation and
//! luminance are fractions with denominator 100, a hue is a whole number of
//! degrees, and the classic HSL formulas are evaluated as rational numbers
//! with fixed denominators. This removes the floating-point equality and
//! wrap-around hazards of the usual formulation while computing the same
//! quantities.

use vstd::prelude::*;

pub mod codec;
pub mod dispatch;
pub mod numerals;
pub mod output;
pub mod transform;

verus! {

/// The representation a conversion should render its result in.
#[derive(Copy, Clone, PartialEq, Eq, Structural, Debug)]
pub enum OutputType {
    HEX,
    RGB,
    HSL,
}

/// The numeric input field an `InvalidNumber` error refers to.
#[derive(Copy, Clone, PartialEq, Eq, Structural, Debug)]
pub enum Field {
    Red,
    Green,
    Blue,
    Hue,
    Saturation,
    Luminance,
}

/// Everything that can go wrong while converting a color.
///
/// `DegenerateHueComputation` is kept for API completeness: the exact
/// integer arithmetic used here picks the maximal channel directly, so no
/// code path constructs it.
#[derive(Copy, Clone, PartialEq, Eq, Structural, Debug)]
pub enum ConvError {
    InvalidHexDigit,
    InvalidNumber(Field),
    DegenerateHueComputation,
    UnreachableInputState,
}

impl ConvError {
    /// The diagnostic line a failed conversion aborts with.
    pub fn message(&self) -> (r: String)
        ensures
            *self == ConvError::InvalidHexDigit ==> r@ == "Not a valid hex value"@,
            *self == ConvError::InvalidNumber(Field::Red) ==> r@ == "Red value not a valid number"@,
            *self == ConvError::InvalidNumber(Field::Green) ==> r@ == "Green value not a valid number"@,
            *self == ConvError::InvalidNumber(Field::Blue) ==> r@ == "Blue value not a valid number"@,
            *self == ConvError::InvalidNumber(Field::Hue) ==> r@ == "Hue value not a valid number"@,
            *self == ConvError::InvalidNumber(Field::Saturation) ==> r@ == "Saturation value not a valid number"@,
            *self == ConvError::InvalidNumber(Field::Luminance) ==> r@ == "Luminance value not a valid number"@,
            *self == ConvError::DegenerateHueComputation ==> r@ == "Error evaluating a number"@,
            *self == ConvError::UnreachableInputState ==> r@ == "This should never happen"@,
    {
        match self {
            ConvError::InvalidHexDigit => String::from_str("Not a valid hex value"),
            ConvError::InvalidNumber(Field::Red) => String::from_str("Red value not a valid number"),
            ConvError::InvalidNumber(Field::Green) => String::from_str("Green value not a valid number"),
            ConvError::InvalidNumber(Field::Blue) => String::from_str("Blue value not a valid number"),
            ConvError::InvalidNumber(Field::Hue) => String::from_str("Hue value not a valid number"),
            ConvError::InvalidNumber(Field::Saturation) => String::from_str("Saturation value not a valid number"),
            ConvError::InvalidNumber(Field::Luminance) => String::from_str("Luminance value not a valid number"),
            ConvError::DegenerateHueComputation => String::from_str("Error evaluating a number"),
            ConvError::UnreachableInputState => String::from_str("This should never happen"),
        }
    }
}

impl OutputType {
    /// The human-readable description used in the final output line.
    pub fn describe(&self) -> (r: String)
        ensures
            *self == OutputType::HEX ==> r@ == "hex value"@,
            *self == OutputType::RGB ==> r@ == "RGB notation"@,
            *self == OutputType::HSL ==> r@ == "HSL notation"@,
    {
        match self {
            OutputType::HEX => String::from_str("hex value"),
            OutputType::RGB => String::from_str("RGB notation"),
            OutputType::HSL => String::from_str("HSL notation"),
        }
    }
}

} // verus!
