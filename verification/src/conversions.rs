//! Bounds-checked unit conversions and overflow-behavior demonstrations.
//!
//! Each conversion states exactly on which inputs it succeeds and which error
//! each rejected input produces.

use vstd::prelude::*;

use crate::constants::ABSOLUTE_ZERO_CELSIUS;
use crate::constants::CELSIUS_TO_KELVIN_OFFSET;

verus! {

/// Why a conversion was rejected.
#[derive(Clone, Copy, Debug, PartialEq, Eq, Structural)]
pub enum ConversionError {
    /// A temperature below absolute zero is not physical.
    BelowAbsoluteZero,
    /// The result does not fit in the target integer type.
    OutOfRange,
    /// A negative value cannot become unsigned.
    Negative,
}

/// Celsius to Kelvin. Rejects temperatures below absolute zero; everything
/// else fits in a u16 because Celsius arrives as an i16.
pub fn celsius_to_kelvin(celsius: i16) -> (r: Result<u16, ConversionError>)
    ensures
        celsius < ABSOLUTE_ZERO_CELSIUS ==> r == Err::<u16, ConversionError>(
            ConversionError::BelowAbsoluteZero,
        ),
        celsius >= ABSOLUTE_ZERO_CELSIUS ==> r == Ok::<u16, ConversionError>(
            (celsius + CELSIUS_TO_KELVIN_OFFSET) as u16,
        ),
{
    if celsius < ABSOLUTE_ZERO_CELSIUS {
        Err(ConversionError::BelowAbsoluteZero)
    } else {
        Ok((celsius as i32 + CELSIUS_TO_KELVIN_OFFSET as i32) as u16)
    }
}

/// Kelvin to Celsius. Rejects temperatures below absolute zero and results
/// that do not fit in an i16 (Kelvin above 33040).
pub fn kelvin_to_celsius(kelvin: u16) -> (r: Result<i16, ConversionError>)
    ensures
        kelvin < CELSIUS_TO_KELVIN_OFFSET ==> r == Err::<i16, ConversionError>(
            ConversionError::BelowAbsoluteZero,
        ),
        kelvin - CELSIUS_TO_KELVIN_OFFSET > i16::MAX ==> r == Err::<i16, ConversionError>(
            ConversionError::OutOfRange,
        ),
        CELSIUS_TO_KELVIN_OFFSET <= kelvin && kelvin - CELSIUS_TO_KELVIN_OFFSET <= i16::MAX ==> r
            == Ok::<i16, ConversionError>((kelvin - CELSIUS_TO_KELVIN_OFFSET) as i16),
{
    if kelvin < CELSIUS_TO_KELVIN_OFFSET {
        return Err(ConversionError::BelowAbsoluteZero);
    }
    let celsius: i32 = kelvin as i32 - CELSIUS_TO_KELVIN_OFFSET as i32;
    if celsius > i16::MAX as i32 {
        return Err(ConversionError::OutOfRange);
    }
    Ok(celsius as i16)
}

/// Checked arithmetic: multiplication that reports overflow as None.
pub fn checked_multiplication_demo(a: i16, b: i16) -> (r: Option<i16>)
    ensures
        i16::MIN <= a * b <= i16::MAX ==> r == Some((a * b) as i16),
        (a * b < i16::MIN || a * b > i16::MAX) ==> r is None,
{
    a.checked_mul(b)
}

/// Saturating arithmetic: addition that clamps to the type limits.
pub fn saturating_addition_demo(a: i8, b: i8) -> (r: i8)
    ensures
        i8::MIN <= a + b <= i8::MAX ==> r == a + b,
        a + b > i8::MAX ==> r == i8::MAX,
        a + b < i8::MIN ==> r == i8::MIN,
{
    let sum: i16 = a as i16 + b as i16;
    if sum > i8::MAX as i16 {
        i8::MAX
    } else if sum < i8::MIN as i16 {
        i8::MIN
    } else {
        sum as i8
    }
}

/// Wrapping arithmetic: subtraction that wraps around modulo 256.
pub fn wrapping_subtraction_demo(a: u8, b: u8) -> (r: u8)
    ensures
        b <= a ==> r == a - b,
        b > a ==> r == a - b + 256,
{
    a.wrapping_sub(b)
}

/// Safe narrowing from i32 to i16: rejects values outside the i16 range.
pub fn safe_i32_to_i16(value: i32) -> (r: Result<i16, ConversionError>)
    ensures
        i16::MIN <= value <= i16::MAX ==> r == Ok::<i16, ConversionError>(value as i16),
        (value < i16::MIN || value > i16::MAX) ==> r == Err::<i16, ConversionError>(
            ConversionError::OutOfRange,
        ),
{
    if value > i16::MAX as i32 || value < i16::MIN as i32 {
        Err(ConversionError::OutOfRange)
    } else {
        Ok(value as i16)
    }
}

/// Safe sign removal from i32 to u32: rejects negative values.
pub fn safe_i32_to_u32(value: i32) -> (r: Result<u32, ConversionError>)
    ensures
        value >= 0 ==> r == Ok::<u32, ConversionError>(value as u32),
        value < 0 ==> r == Err::<u32, ConversionError>(ConversionError::Negative),
{
    if value < 0 {
        Err(ConversionError::Negative)
    } else {
        Ok(value as u32)
    }
}

} // verus!
