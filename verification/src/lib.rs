//! Teaching library for numeric types in a physics setting, together with a
//! password-entropy analyzer.
//!
//! The library has two halves:
//! - `constants`, `conversions` and `display`: exact integer constants, bounds-checked
//!   unit conversions, and decimal string rendering for physics exercises.
//! - `entropy`: analysis of a candidate password: character classification and
//!   frequency counting, alphabet-size and complexity derivation, an exact integer
//!   model of the password-space entropy threshold test, and brute-force estimates.
//!   `powcmp` carries the 256-bit arithmetic that decides the threshold test
//!   without overflow or rounding.

use vstd::prelude::*;

pub mod constants;
pub mod conversions;
pub mod display;
pub mod entropy;
pub mod powcmp;

verus! {

/// Metadata describing one exercise of the collection.
pub struct ExerciseInfo {
    pub name: &'static str,
    pub description: &'static str,
    pub concepts: Vec<&'static str>,
}

/// The exercises this collection offers, in a fixed order.
pub fn get_exercise_list() -> (r: Vec<ExerciseInfo>)
    ensures
        r@.len() == 3,
        r@[0].name@ == "quantum"@,
        r@[1].name@ == "electromagnetic"@,
        r@[2].name@ == "temperature"@,
        r@[0].concepts@.len() == 4,
        r@[1].concepts@.len() == 4,
        r@[2].concepts@.len() == 4,
{
    let mut quantum_concepts: Vec<&'static str> = Vec::new();
    quantum_concepts.push("Signed integers (i8, i16, i32)");
    quantum_concepts.push("Negative values in physics");
    quantum_concepts.push("Type selection for quantum numbers");
    quantum_concepts.push("Bounds checking for physical validity");
    let quantum = ExerciseInfo {
        name: "quantum",
        description: "Quantum energy levels and atomic physics",
        concepts: quantum_concepts,
    };

    let mut em_concepts: Vec<&'static str> = Vec::new();
    em_concepts.push("Vector quantities with signed components");
    em_concepts.push("Mixed signed/unsigned arithmetic");
    em_concepts.push("Overflow behavior in field calculations");
    em_concepts.push("Type safety in physics simulations");
    let electromagnetic = ExerciseInfo {
        name: "electromagnetic",
        description: "Electromagnetic fields and charged particles",
        concepts: em_concepts,
    };

    let mut temp_concepts: Vec<&'static str> = Vec::new();
    temp_concepts.push("Type conversions (i16 <-> u16 <-> f32)");
    temp_concepts.push("Precision handling in scientific calculations");
    temp_concepts.push("Bounds checking for physical ranges");
    temp_concepts.push("Numeric literal suffixes");
    let temperature = ExerciseInfo {
        name: "temperature",
        description: "Temperature conversions and thermodynamics",
        concepts: temp_concepts,
    };

    let mut r: Vec<ExerciseInfo> = Vec::new();
    r.push(quantum);
    r.push(electromagnetic);
    r.push(temperature);
    r
}

} // verus!
