//! Physical and mathematical constants for the physics exercises.
//!
//! Every constant is exact. Values that are exact decimal fractions by the 2019
//! SI redefinition are stored as an integer mantissa together with a base-ten
//! exponent (`X_MANTISSA` times ten to the `X_EXP10`), so that no floating-point
//! value is needed to state them.

use vstd::prelude::*;

verus! {

// === Fundamental physical constants (exact decimal mantissa / exponent pairs) ===

/// Elementary charge: 1.602176634e-19 C, exact by the 2019 SI redefinition.
pub const ELEMENTARY_CHARGE_MANTISSA: u64 = 1602176634;

pub const ELEMENTARY_CHARGE_EXP10: i32 = -28;

/// Planck constant: 6.62607015e-34 J*s, exact by the 2019 SI redefinition.
pub const PLANCK_CONSTANT_MANTISSA: u64 = 662607015;

pub const PLANCK_CONSTANT_EXP10: i32 = -42;

/// Boltzmann constant: 1.380649e-23 J/K, exact by the 2019 SI redefinition.
pub const BOLTZMANN_CONSTANT_MANTISSA: u64 = 1380649;

pub const BOLTZMANN_CONSTANT_EXP10: i32 = -29;

/// Speed of light in vacuum, in m/s (exact by definition).
pub const SPEED_OF_LIGHT_M_PER_S: u64 = 299792458;

// === Atomic and quantum constants ===

/// Hydrogen ground state binding energy in whole eV (negative: a bound state).
pub const HYDROGEN_GROUND_STATE_ENERGY: i32 = -13;

/// Zero energy reference point for atomic calculations, in eV.
pub const IONIZATION_ENERGY: i32 = 0;

/// Rydberg energy for hydrogen-like atoms: 13.6057039763 eV, stored in
/// ten-billionths of an eV.
pub const RYDBERG_CONSTANT_TENTH_NANO_EV: u64 = 136057039763;

// === Temperature constants ===

/// Absolute zero in Celsius (rounded to whole degrees).
pub const ABSOLUTE_ZERO_CELSIUS: i16 = -273;

/// Water freezing point in Celsius (by definition).
pub const WATER_FREEZING_CELSIUS: i16 = 0;

/// Water boiling point in Celsius (at standard pressure).
pub const WATER_BOILING_CELSIUS: i16 = 100;

/// Room temperature (approximate).
pub const ROOM_TEMPERATURE_CELSIUS: i8 = 20;

// === Electromagnetic field constants ===

/// Maximum safe electric field in air before breakdown (approximate), in V/m.
pub const MAX_ELECTRIC_FIELD_AIR: i32 = 3_000_000;

/// Earth's magnetic field strength (approximate), in microtesla.
pub const EARTH_MAGNETIC_FIELD: i16 = 50;

// === Conversion factors ===

/// Celsius to Kelvin conversion offset, in K (whole degrees).
pub const CELSIUS_TO_KELVIN_OFFSET: u16 = 273;

// === Type selection examples ===

/// Atomic numbers fit in a u8: no element has atomic number above 255.
pub const HYDROGEN_ATOMIC_NUMBER: u8 = 1;

pub const CARBON_ATOMIC_NUMBER: u8 = 6;

pub const URANIUM_ATOMIC_NUMBER: u8 = 92;

/// Avogadro number (approximate), exact by the 2019 SI redefinition:
/// 6.02214076e23 entities per mole. Needs a u128: it exceeds u64::MAX.
pub const AVOGADRO_NUMBER: u128 = 602214076000000000000000;

/// Quantum spin labels (small signed integers).
pub const ELECTRON_SPIN_UP: i8 = 1;

pub const ELECTRON_SPIN_DOWN: i8 = -1;

} // verus!
