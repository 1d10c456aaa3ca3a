use entropy_lab::conversions::celsius_to_kelvin;
use entropy_lab::conversions::checked_multiplication_demo;
use entropy_lab::conversions::kelvin_to_celsius;
use entropy_lab::conversions::safe_i32_to_i16;
use entropy_lab::conversions::safe_i32_to_u32;
use entropy_lab::conversions::saturating_addition_demo;
use entropy_lab::conversions::wrapping_subtraction_demo;
use entropy_lab::conversions::ConversionError;

#[test]
fn test_temperature_conversions() {
    // Test Kelvin conversions
    assert_eq!(celsius_to_kelvin(0).unwrap(), 273);
    assert_eq!(kelvin_to_celsius(273).unwrap(), 0);
}

#[test]
fn test_overflow_behavior() {
    // Test checked arithmetic
    assert_eq!(checked_multiplication_demo(100, 100), Some(10000));
    assert_eq!(checked_multiplication_demo(i16::MAX, 2), None);

    // Test saturating arithmetic
    assert_eq!(saturating_addition_demo(127, 1), 127); // i8::MAX
    assert_eq!(saturating_addition_demo(-128, -1), -128); // i8::MIN

    // Test wrapping arithmetic
    assert_eq!(wrapping_subtraction_demo(0, 1), 255); // Wraps around
}

#[test]
fn test_bounds_checking() {
    // Test temperature bounds
    assert!(celsius_to_kelvin(-300).is_err()); // Below absolute zero

    // Test safe conversions
    assert!(safe_i32_to_i16(100000).is_err()); // Too large for i16
    assert!(safe_i32_to_u32(-1).is_err()); // Negative value
}

#[test]
fn test_conversion_error_variants() {
    assert_eq!(
        celsius_to_kelvin(-274),
        Err(ConversionError::BelowAbsoluteZero)
    );
    assert_eq!(
        kelvin_to_celsius(100),
        Err(ConversionError::BelowAbsoluteZero)
    );
    assert_eq!(kelvin_to_celsius(60000), Err(ConversionError::OutOfRange));
    assert_eq!(kelvin_to_celsius(33040), Ok(32767));
    assert_eq!(kelvin_to_celsius(33041), Err(ConversionError::OutOfRange));
    assert_eq!(safe_i32_to_i16(-40000), Err(ConversionError::OutOfRange));
    assert_eq!(safe_i32_to_i16(-32768), Ok(-32768));
    assert_eq!(safe_i32_to_u32(-1), Err(ConversionError::Negative));
    assert_eq!(safe_i32_to_u32(7), Ok(7));
}

#[test]
fn test_celsius_to_kelvin_boundary() {
    assert_eq!(celsius_to_kelvin(-273), Ok(0));
    assert_eq!(celsius_to_kelvin(i16::MAX), Ok(33040));
}
