use entropy_lab::display::demonstrate_numeric_literals;
use entropy_lab::display::display_i16_range;
use entropy_lab::display::display_i32_range;
use entropy_lab::display::display_i8_range;
use entropy_lab::display::display_u8_range;
use entropy_lab::display::format_charge;
use entropy_lab::display::format_electric_field;
use entropy_lab::display::format_em_field;
use entropy_lab::display::format_quantum_state;
use entropy_lab::display::format_temperature_all_scales;
use entropy_lab::display::format_temperature_celsius;
use entropy_lab::display::format_vector_3d;
use entropy_lab::display::i64_to_decimal;
use entropy_lab::display::u64_to_decimal;

#[test]
fn test_temperature_formatting() {
    assert_eq!(format_temperature_celsius(25), "25°C");
    assert_eq!(format_temperature_celsius(-10), "-10°C");
    assert_eq!(format_temperature_celsius(0), "0°C");
}

#[test]
fn test_charge_formatting() {
    assert_eq!(format_charge(0), "neutral");
    assert_eq!(format_charge(1), "+1e");
    assert_eq!(format_charge(-1), "-1e");
    assert_eq!(format_charge(2), "+2e");
    assert_eq!(format_charge(-3), "-3e");
}

#[test]
fn test_range_display() {
    let i8_range = display_i8_range();
    assert!(i8_range.contains("-128"));
    assert!(i8_range.contains("127"));
}

#[test]
fn test_vector_formatting() {
    let vector = format_vector_3d(100, -50, 0);
    assert_eq!(vector, "(100, -50, 0) V/m");
}

#[test]
fn test_decimal_rendering() {
    assert_eq!(u64_to_decimal(0), "0");
    assert_eq!(u64_to_decimal(10), "10");
    assert_eq!(u64_to_decimal(18446744073709551615), "18446744073709551615");
    assert_eq!(i64_to_decimal(-1), "-1");
    assert_eq!(i64_to_decimal(i64::MIN), "-9223372036854775808");
    assert_eq!(i64_to_decimal(i64::MAX), "9223372036854775807");
}

#[test]
fn test_all_range_displays() {
    assert_eq!(display_i8_range(), "[-128 to 127]");
    assert_eq!(display_i16_range(), "[-32768 to 32767]");
    assert_eq!(display_i32_range(), "[-2147483648 to 2147483647]");
    assert_eq!(display_u8_range(), "[0 to 255]");
}

#[test]
fn test_electric_field_formatting() {
    assert_eq!(format_electric_field(500), "500 V/m");
    assert_eq!(format_electric_field(-42), "-42 V/m");
    assert_eq!(format_electric_field(1_500), "1.50 kV/m");
    assert_eq!(format_electric_field(-1_500), "-1.50 kV/m");
    assert_eq!(format_electric_field(1_234_567), "1.23 MV/m");
    assert_eq!(format_electric_field(1_239_999), "1.24 MV/m");
    assert_eq!(format_electric_field(2_995_000), "3.00 MV/m");
    // A tie rounds to the even hundredth.
    assert_eq!(format_electric_field(3_125_000), "3.12 MV/m");
}

#[test]
fn test_temperature_all_scales_formatting() {
    assert_eq!(format_temperature_all_scales(0), "0°C / 32.0°F / 273 K");
    assert_eq!(format_temperature_all_scales(100), "100°C / 212.0°F / 373 K");
    assert_eq!(format_temperature_all_scales(-40), "-40°C / -40.0°F / 233 K");
    // Below absolute zero the Kelvin column falls back to zero.
    assert_eq!(format_temperature_all_scales(-300), "-300°C / -508.0°F / 0 K");
}

#[test]
fn test_quantum_state_formatting() {
    assert_eq!(format_quantum_state(1, 0, 0), "n=1, l=0, m=0");
    assert_eq!(format_quantum_state(3, 2, -1), "n=3, l=2, m=-1");
}

#[test]
fn test_em_field_formatting() {
    let formatted = format_em_field((100, -50, 0), (1, 2, 3));
    assert_eq!(
        formatted,
        "E = (100, -50, 0) V/m V/m\nB = (1, 2, 3) V/m μT"
    );
}

#[test]
fn test_numeric_literals_text() {
    let text = demonstrate_numeric_literals();
    assert!(text.contains("u8: 255"));
    assert!(text.contains("i64: 9223372036854775807"));
    assert!(text.contains("Hexadecimal: 0xFFFFFFFF = 4294967295"));
    assert!(text.contains("Octal: 0o777777777 = 134217727"));
    assert!(text.contains("Binary: 0b1111111111111111 = 65535"));
    assert!(text.contains("6.626e-34"));
}
