//! Decimal string rendering for the physics exercises.
//!
//! The core is an exact decimal printer for integers, with fixed-point variants
//! for values carried in tenths or hundredths. Every formatter's output is
//! pinned down, character for character, by a spec-level rendering function.

use vstd::prelude::*;

use crate::conversions::celsius_to_kelvin;

verus! {

/// The character for one decimal digit.
pub open spec fn digit_char(d: nat) -> char {
    if d == 0 {
        '0'
    } else if d == 1 {
        '1'
    } else if d == 2 {
        '2'
    } else if d == 3 {
        '3'
    } else if d == 4 {
        '4'
    } else if d == 5 {
        '5'
    } else if d == 6 {
        '6'
    } else if d == 7 {
        '7'
    } else if d == 8 {
        '8'
    } else {
        '9'
    }
}

/// The decimal rendering of a nonnegative integer, most significant digit first,
/// with no leading zeros (zero itself renders as "0").
pub open spec fn dec_rep(n: nat) -> Seq<char>
    decreases n,
{
    if n < 10 {
        seq![digit_char(n)]
    } else {
        dec_rep(n / 10) + seq![digit_char(n % 10)]
    }
}

/// The decimal rendering of a signed integer: a leading '-' for negatives.
pub open spec fn int_rep(v: int) -> Seq<char> {
    if v < 0 {
        seq!['-'] + dec_rep((-v) as nat)
    } else {
        dec_rep(v as nat)
    }
}

/// One decimal digit as a string slice.
fn digit_str(d: u64) -> (s: &'static str)
    requires
        d < 10,
    ensures
        s@ == seq![digit_char(d as nat)],
{
    proof {
        reveal_strlit("0");
        reveal_strlit("1");
        reveal_strlit("2");
        reveal_strlit("3");
        reveal_strlit("4");
        reveal_strlit("5");
        reveal_strlit("6");
        reveal_strlit("7");
        reveal_strlit("8");
        reveal_strlit("9");
    }
    if d == 0 {
        "0"
    } else if d == 1 {
        "1"
    } else if d == 2 {
        "2"
    } else if d == 3 {
        "3"
    } else if d == 4 {
        "4"
    } else if d == 5 {
        "5"
    } else if d == 6 {
        "6"
    } else if d == 7 {
        "7"
    } else if d == 8 {
        "8"
    } else {
        "9"
    }
}

/// Render a u64 in decimal.
pub fn u64_to_decimal(n: u64) -> (s: String)
    ensures
        s@ == dec_rep(n as nat),
    decreases n,
{
    if n < 10 {
        String::from_str(digit_str(n))
    } else {
        let mut s = u64_to_decimal(n / 10);
        s.append(digit_str(n % 10));
        s
    }
}

/// Render an i64 in decimal, with a leading '-' for negatives.
pub fn i64_to_decimal(v: i64) -> (s: String)
    ensures
        s@ == int_rep(v as int),
{
    proof {
        reveal_strlit("-");
    }
    if v >= 0 {
        u64_to_decimal(v as u64)
    } else {
        let magnitude: u64 = if v == i64::MIN {
            9223372036854775808u64
        } else {
            (-v) as u64
        };
        let mut s = String::from_str("-");
        let digits = u64_to_decimal(magnitude);
        s.append(digits.as_str());
        s
    }
}

// === Fixed-point renderings ===

/// A nonnegative value held in tenths, rendered with one digit after the point.
pub open spec fn tenths_mag_rep(t: nat) -> Seq<char> {
    dec_rep(t / 10) + "."@ + seq![digit_char(t % 10)]
}

/// A value held in tenths, rendered with one digit after the point.
pub open spec fn tenths_rep(t: int) -> Seq<char> {
    if t < 0 {
        "-"@ + tenths_mag_rep((-t) as nat)
    } else {
        tenths_mag_rep(t as nat)
    }
}

/// A nonnegative value held in hundredths, rendered with two digits after the point.
pub open spec fn hundredths_mag_rep(h: nat) -> Seq<char> {
    dec_rep(h / 100) + "."@ + seq![digit_char((h / 10) % 10), digit_char(h % 10)]
}

/// Render a nonnegative value held in tenths ("15.0" for 150).
fn tenths_to_decimal(t: u64) -> (s: String)
    ensures
        s@ == tenths_mag_rep(t as nat),
{
    let mut s = u64_to_decimal(t / 10);
    s.append(".");
    s.append(digit_str(t % 10));
    s
}

/// Render a nonnegative value held in hundredths ("1.50" for 150).
fn hundredths_to_decimal(h: u64) -> (s: String)
    ensures
        s@ == hundredths_mag_rep(h as nat),
{
    let mut s = u64_to_decimal(h / 100);
    s.append(".");
    s.append(digit_str((h / 10) % 10));
    s.append(digit_str(h % 10));
    s
}

/// A magnitude divided by `unit`, rounded to the nearest whole quotient with
/// ties going to the even quotient.
pub open spec fn round_to_unit(mag: nat, unit: nat) -> nat {
    let q = mag / unit;
    let r = mag % unit;
    if 2 * r < unit || (2 * r == unit && q % 2 == 0) {
        q
    } else {
        q + 1
    }
}

/// Divide by `unit` and round to the nearest whole quotient, ties to even.
fn div_round_to_unit(mag: u64, unit: u64) -> (q: u64)
    requires
        2 <= unit <= 100_000,
    ensures
        q == round_to_unit(mag as nat, unit as nat),
{
    let q = mag / unit;
    let r = mag % unit;
    proof {
        assert(mag / unit < mag || mag / unit == 0) by (nonlinear_arith)
            requires
                unit >= 2,
        ;
    }
    if 2 * r < unit || (2 * r == unit && q % 2 == 0) {
        q
    } else {
        q + 1
    }
}

// === Exercise formatters ===

/// The rendering format_electric_field produces: fields of a megavolt per
/// meter and up in MV/m with two decimals, a kilovolt per meter and up in
/// kV/m with two decimals (the exact quotient rounded, ties to even), and
/// smaller fields in whole V/m.
pub open spec fn electric_field_rep(field: int) -> Seq<char> {
    let mag = if field < 0 {
        (-field) as nat
    } else {
        field as nat
    };
    let sign = if field < 0 {
        "-"@
    } else {
        Seq::<char>::empty()
    };
    if mag >= 1_000_000 {
        sign + hundredths_mag_rep(round_to_unit(mag, 10_000)) + " MV/m"@
    } else if mag >= 1_000 {
        sign + hundredths_mag_rep(round_to_unit(mag, 10)) + " kV/m"@
    } else {
        int_rep(field) + " V/m"@
    }
}

/// Format an electric field with a unit chosen by its magnitude.
pub fn format_electric_field(field_v_per_m: i32) -> (s: String)
    requires
        field_v_per_m != i32::MIN,
    ensures
        s@ == electric_field_rep(field_v_per_m as int),
{
    let mag: u64 = if field_v_per_m < 0 {
        (-field_v_per_m) as u64
    } else {
        field_v_per_m as u64
    };
    let mut s = if field_v_per_m < 0 {
        String::from_str("-")
    } else {
        String::new()
    };
    if mag >= 1_000_000 {
        let rendered = hundredths_to_decimal(div_round_to_unit(mag, 10_000));
        s.append(rendered.as_str());
        s.append(" MV/m");
        s
    } else if mag >= 1_000 {
        let rendered = hundredths_to_decimal(div_round_to_unit(mag, 10));
        s.append(rendered.as_str());
        s.append(" kV/m");
        s
    } else {
        let mut t = i64_to_decimal(field_v_per_m as i64);
        t.append(" V/m");
        t
    }
}

/// Format a Celsius temperature with its scale mark.
pub fn format_temperature_celsius(temp_c: i16) -> (s: String)
    ensures
        s@ == int_rep(temp_c as int) + "°C"@,
{
    let mut s = i64_to_decimal(temp_c as i64);
    s.append("°C");
    s
}

/// The rendering format_temperature_all_scales produces: Celsius whole,
/// Fahrenheit in exact tenths (celsius * 18/10 + 32), and Kelvin whole, with
/// zero standing in for a Kelvin value below absolute zero.
pub open spec fn temperature_all_scales_rep(c: int) -> Seq<char> {
    let kelvin: nat = if c >= -273 {
        (c + 273) as nat
    } else {
        0
    };
    int_rep(c) + "°C / "@ + tenths_rep(c * 18 + 320) + "°F / "@ + dec_rep(kelvin) + " K"@
}

/// Format a temperature in Celsius, Fahrenheit and Kelvin at once.
pub fn format_temperature_all_scales(temp_c: i16) -> (s: String)
    ensures
        s@ == temperature_all_scales_rep(temp_c as int),
{
    proof {
        reveal_strlit("-");
    }
    let tenths_f: i32 = temp_c as i32 * 18 + 320;
    let kelvin: u16 = match celsius_to_kelvin(temp_c) {
        Ok(k) => k,
        Err(_) => 0,
    };
    let mut s = i64_to_decimal(temp_c as i64);
    s.append("°C / ");
    if tenths_f < 0 {
        s.append("-");
        let f = tenths_to_decimal((-tenths_f) as u64);
        s.append(f.as_str());
    } else {
        let f = tenths_to_decimal(tenths_f as u64);
        s.append(f.as_str());
    }
    s.append("°F / ");
    let k = u64_to_decimal(kelvin as u64);
    s.append(k.as_str());
    s.append(" K");
    s
}

/// The rendering format_charge produces: "neutral" for zero, an explicit sign
/// otherwise, in elementary charge units.
pub open spec fn charge_rep(c: int) -> Seq<char> {
    if c == 0 {
        "neutral"@
    } else if c > 0 {
        "+"@ + dec_rep(c as nat) + "e"@
    } else {
        int_rep(c) + "e"@
    }
}

/// Format an electrical charge counted in elementary units.
pub fn format_charge(charge_elementary: i8) -> (s: String)
    ensures
        s@ == charge_rep(charge_elementary as int),
{
    if charge_elementary == 0 {
        String::from_str("neutral")
    } else if charge_elementary > 0 {
        let mut s = String::from_str("+");
        let digits = u64_to_decimal(charge_elementary as u64);
        s.append(digits.as_str());
        s.append("e");
        s
    } else {
        let mut s = i64_to_decimal(charge_elementary as i64);
        s.append("e");
        s
    }
}

/// Format a quantum state given by its principal, azimuthal and magnetic numbers.
pub fn format_quantum_state(n: u8, l: u8, m: i8) -> (s: String)
    ensures
        s@ == "n="@ + dec_rep(n as nat) + ", l="@ + dec_rep(l as nat) + ", m="@ + int_rep(m as int),
{
    let mut s = String::from_str("n=");
    let n_digits = u64_to_decimal(n as u64);
    s.append(n_digits.as_str());
    s.append(", l=");
    let l_digits = u64_to_decimal(l as u64);
    s.append(l_digits.as_str());
    s.append(", m=");
    let m_digits = i64_to_decimal(m as i64);
    s.append(m_digits.as_str());
    s
}

/// The rendering of an integer range, bracketed.
pub open spec fn range_rep(lo: int, hi: int) -> Seq<char> {
    "["@ + int_rep(lo) + " to "@ + int_rep(hi) + "]"@
}

/// Build the bracketed rendering of an integer range.
fn format_range(lo: i64, hi: i64) -> (s: String)
    ensures
        s@ == range_rep(lo as int, hi as int),
{
    let mut s = String::from_str("[");
    let lo_digits = i64_to_decimal(lo);
    s.append(lo_digits.as_str());
    s.append(" to ");
    let hi_digits = i64_to_decimal(hi);
    s.append(hi_digits.as_str());
    s.append("]");
    s
}

/// The valid range of an i8 (commonly used for quantum numbers).
pub fn display_i8_range() -> (s: String)
    ensures
        s@ == range_rep(i8::MIN as int, i8::MAX as int),
{
    format_range(i8::MIN as i64, i8::MAX as i64)
}

/// The valid range of an i16 (commonly used for temperatures).
pub fn display_i16_range() -> (s: String)
    ensures
        s@ == range_rep(i16::MIN as int, i16::MAX as int),
{
    format_range(i16::MIN as i64, i16::MAX as i64)
}

/// The valid range of an i32 (commonly used for energy in eV).
pub fn display_i32_range() -> (s: String)
    ensures
        s@ == range_rep(i32::MIN as int, i32::MAX as int),
{
    format_range(i32::MIN as i64, i32::MAX as i64)
}

/// The valid range of a u8 (commonly used for atomic numbers).
pub fn display_u8_range() -> (s: String)
    ensures
        s@ == range_rep(u8::MIN as int, u8::MAX as int),
{
    format_range(u8::MIN as i64, u8::MAX as i64)
}

/// Format a 3D vector of electric field components.
pub open spec fn vector_3d_rep(x: int, y: int, z: int) -> Seq<char> {
    "("@ + int_rep(x) + ", "@ + int_rep(y) + ", "@ + int_rep(z) + ") V/m"@
}

/// Format a 3D vector (for electromagnetic fields).
pub fn format_vector_3d(x: i16, y: i16, z: i16) -> (s: String)
    ensures
        s@ == vector_3d_rep(x as int, y as int, z as int),
{
    let mut s = String::from_str("(");
    let x_digits = i64_to_decimal(x as i64);
    s.append(x_digits.as_str());
    s.append(", ");
    let y_digits = i64_to_decimal(y as i64);
    s.append(y_digits.as_str());
    s.append(", ");
    let z_digits = i64_to_decimal(z as i64);
    s.append(z_digits.as_str());
    s.append(") V/m");
    s
}

/// Format electromagnetic field components, electric then magnetic.
pub fn format_em_field(electric: (i16, i16, i16), magnetic: (i16, i16, i16)) -> (s: String)
    ensures
        s@ == "E = "@ + vector_3d_rep(electric.0 as int, electric.1 as int, electric.2 as int)
            + " V/m\nB = "@ + vector_3d_rep(
            magnetic.0 as int,
            magnetic.1 as int,
            magnetic.2 as int,
        ) + " μT"@,
{
    let mut s = String::from_str("E = ");
    let e = format_vector_3d(electric.0, electric.1, electric.2);
    s.append(e.as_str());
    s.append(" V/m\nB = ");
    let b = format_vector_3d(magnetic.0, magnetic.1, magnetic.2);
    s.append(b.as_str());
    s.append(" μT");
    s
}

/// A tour of numeric literal notation: suffixes, scientific notation and
/// alternative bases, with each literal beside its decimal value.
pub const NUMERIC_LITERALS_TEXT: &'static str = "Integer literals with suffixes:\n  u8: 255\n  i16: -32768\n  i32: 2147483647\n  i64: 9223372036854775807\n\nFloating-point literals with suffixes:\n  f32: 3.14159\n  f64: 2.718281828459045\n\nScientific notation literals:\n  Planck constant: 6.626e-34\n  Avogadro number: 6.022e23\n\nOther number bases:\n  Hexadecimal: 0xFFFFFFFF = 4294967295\n  Octal: 0o777777777 = 134217727\n  Binary: 0b1111111111111111 = 65535\n";

/// Demonstrate the different ways to write numeric literals.
pub fn demonstrate_numeric_literals() -> (s: String)
    ensures
        s@ == NUMERIC_LITERALS_TEXT@,
{
    String::from_str(NUMERIC_LITERALS_TEXT)
}

} // verus!
