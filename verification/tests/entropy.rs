use entropy_lab::entropy::analyze;
use entropy_lab::entropy::has_common_patterns;
use entropy_lab::entropy::classify_password;
use entropy_lab::entropy::alphabet_size;
use entropy_lab::entropy::complexity_score;
use entropy_lab::entropy::recommended_length_checked;
use entropy_lab::entropy::seconds_to_crack;
use entropy_lab::entropy::threshold_fifth_bits;
use entropy_lab::entropy::total_combinations;
use entropy_lab::entropy::EntropyError;

const ATTEMPTS_PER_SECOND: u64 = 1_000_000_000;

/// Shannon entropy in bits per character, from a frequency table and a length.
fn shannon_entropy(counts: &[(char, usize)], length: usize) -> f64 {
    let total = length as f64;
    let mut entropy = 0.0;
    for &(_, count) in counts {
        let probability = count as f64 / total;
        if probability > 0.0 {
            entropy -= probability * probability.log2();
        }
    }
    entropy
}

/// The threshold in bits that a report's fifth-bit field denotes.
fn threshold_bits(t5: u64) -> f64 {
    t5 as f64 / 5.0
}

#[test]
fn test_alphabet_size_calculation() {
    // Only lowercase
    let (_, flags) = classify_password("abcdef");
    assert_eq!(alphabet_size(&flags), 26);

    // Mixed case
    let (_, flags) = classify_password("AbCdEf");
    assert_eq!(alphabet_size(&flags), 52);

    // All character types
    let (_, flags) = classify_password("Ab3!ef");
    assert_eq!(alphabet_size(&flags), 94);
}

#[test]
fn test_character_type_detection() {
    let (_, flags) = classify_password("MyP@ssw0rd!");
    assert_eq!(alphabet_size(&flags), 94);
    assert_eq!(complexity_score(&flags), 5);
}

#[test]
fn test_entropy_calculation_weak_password() {
    let (counts, _) = classify_password("password123");
    let entropy = shannon_entropy(&counts, "password123".len());
    assert!(
        entropy < 4.0,
        "Expected low entropy for weak password, got {}",
        entropy
    );
}

#[test]
fn test_entropy_calculation_strong_password() {
    let (counts, _) = classify_password("Tr0ub4dor&3");
    let entropy = shannon_entropy(&counts, "Tr0ub4dor&3".len());
    assert!(
        entropy > 3.0,
        "Expected higher entropy for strong password, got {}",
        entropy
    );
}

#[test]
fn test_brute_force_timing() {
    let total = total_combinations(94, 8).unwrap();
    let seconds = seconds_to_crack(total, ATTEMPTS_PER_SECOND);
    assert!(
        seconds > 1_000_000,
        "Brute force should take significant time"
    );
}

// === Scenarios over the exact analyzer ===

#[test]
fn test_lowercase_only_scenario() {
    // Only lowercase letters: alphabet 26, complexity 1.
    let report = analyze("abcdef", ATTEMPTS_PER_SECOND).unwrap();
    assert_eq!(report.alphabet_size, 26);
    assert_eq!(report.complexity_score, 1);
}

#[test]
fn test_all_classes_scenario() {
    // One character of each class: alphabet 94, complexity 5.
    let report = analyze("Ab3!ef", ATTEMPTS_PER_SECOND).unwrap();
    assert_eq!(report.alphabet_size, 94);
    assert_eq!(report.complexity_score, 5);
}

#[test]
fn test_identical_characters_zero_entropy() {
    // All-identical characters: a single table entry, Shannon entropy exactly zero.
    let report = analyze("aaaaaaa", ATTEMPTS_PER_SECOND).unwrap();
    assert_eq!(report.unique_chars, 1);
    assert_eq!(report.counts, vec![('a', 7)]);
    let entropy = shannon_entropy(&report.counts, report.length);
    assert_eq!(entropy, 0.0);
}

#[test]
fn test_distinct_characters_uniform_entropy() {
    // All-distinct characters of length 4: Shannon entropy is exactly log2(4).
    let report = analyze("abcd", ATTEMPTS_PER_SECOND).unwrap();
    assert_eq!(report.unique_chars, 4);
    for &(_, count) in report.counts.iter() {
        assert_eq!(count, 1);
    }
    let entropy = shannon_entropy(&report.counts, report.length);
    assert_eq!(entropy, 2.0);

    // And for a length that is no power of two, log2(3) within rounding.
    let report = analyze("xyz", ATTEMPTS_PER_SECOND).unwrap();
    let entropy = shannon_entropy(&report.counts, report.length);
    assert!((entropy - 3f64.log2()).abs() < 1e-12);
}

#[test]
fn test_password123_scenario() {
    // password123: lowercase plus digits.
    let report = analyze("password123", ATTEMPTS_PER_SECOND).unwrap();
    assert_eq!(report.alphabet_size, 36);
    assert_eq!(report.complexity_score, 2);
    let entropy = shannon_entropy(&report.counts, report.length);
    assert!(entropy < 3.5, "Shannon entropy was {}", entropy);
    let space_entropy = report.length as f64 * (report.alphabet_size as f64).log2();
    assert!((space_entropy - 56.9).abs() < 0.1, "space entropy was {}", space_entropy);
    // 56.9 bits pass even the simple-password bar of 38.4 bits.
    assert!((threshold_bits(report.threshold_fifth_bits) - 38.4).abs() < 1e-9);
    assert!(report.secure);
    assert_eq!(report.recommended_length, None);
}

#[test]
fn test_empty_input_rejected() {
    // Empty string: an explicit error, no crash, and nothing NaN-like to return.
    let result = analyze("", ATTEMPTS_PER_SECOND);
    assert_eq!(result.unwrap_err(), EntropyError::InvalidInput);
}

#[test]
fn test_unrecognized_characters_rejected() {
    // Whitespace is in no recognized class, so the alphabet would be empty.
    let result = analyze("   ", ATTEMPTS_PER_SECOND);
    assert_eq!(result.unwrap_err(), EntropyError::InvalidInput);
}

#[test]
fn test_brute_force_estimate_exact() {
    // Alphabet 94, length 8, a billion attempts per second.
    assert_eq!(total_combinations(94, 8), Ok(6_095_689_385_410_816u128));
    assert_eq!(
        seconds_to_crack(6_095_689_385_410_816u128, ATTEMPTS_PER_SECOND),
        3_047_844
    );
}

#[test]
fn test_combination_overflow_reported() {
    // 94^20 exceeds 128 bits: reported, never wrapped.
    assert_eq!(total_combinations(94, 20), Err(EntropyError::NumericOverflow));
    // And the analyzer then reports the space as effectively uncrackable.
    let report = analyze(
        "AAAAAAAAAAaaaaaaaaaa00000!!!!!",
        ATTEMPTS_PER_SECOND,
    )
    .unwrap();
    assert_eq!(report.total_combinations, None);
    assert_eq!(report.seconds_to_crack, None);
}

#[test]
fn test_recommended_length_round_trip() {
    // Eight lowercase letters miss the 38.4-bit bar; the recommendation is
    // nine, and nine lowercase letters meet the bar.
    let short = analyze("abcdefgh", ATTEMPTS_PER_SECOND).unwrap();
    assert!(!short.secure);
    assert_eq!(short.recommended_length, Some(9));
    let rebuilt = analyze("abcdefghi", ATTEMPTS_PER_SECOND).unwrap();
    assert!(rebuilt.secure);
    assert_eq!(rebuilt.recommended_length, None);
}

#[test]
fn test_monotonicity_scenario() {
    // Space entropy never falls with length: once secure, longer stays secure.
    let l9 = analyze("abcdefghi", ATTEMPTS_PER_SECOND).unwrap();
    let l12 = analyze("abcdefghijkl", ATTEMPTS_PER_SECOND).unwrap();
    assert!(l9.secure);
    assert!(l12.secure);
    // Nor with alphabet size at fixed length: digits alone need more length
    // than the full four classes.
    let digits = analyze("01234567", ATTEMPTS_PER_SECOND).unwrap();
    let mixed = analyze("Ab3!efgh", ATTEMPTS_PER_SECOND).unwrap();
    assert!(!digits.secure);
    assert!(mixed.secure);
}

#[test]
fn test_threshold_selection() {
    // Complexity of three or more earns the lower bar.
    assert_eq!(threshold_fifth_bits(3), 128);
    assert_eq!(threshold_fifth_bits(5), 128);
    assert_eq!(threshold_fifth_bits(2), 192);
    assert_eq!(threshold_fifth_bits(0), 192);
}

#[test]
fn test_recommended_length_checked_policy() {
    // No recommendation is possible for an alphabet of zero or one.
    assert_eq!(
        recommended_length_checked(0, 2),
        Err(EntropyError::PolicyUndefined)
    );
    assert_eq!(
        recommended_length_checked(1, 2),
        Err(EntropyError::PolicyUndefined)
    );
    // At alphabet 94 and the complex-password bar of 25.6 bits, four
    // characters are enough and three are not.
    assert_eq!(recommended_length_checked(94, 5), Ok(4));
    // At alphabet 26 and the simple bar of 38.4 bits, nine are needed.
    assert_eq!(recommended_length_checked(26, 1), Ok(9));
}

#[test]
fn test_frequency_counts() {
    let (counts, _) = classify_password("password123");
    assert_eq!(counts.len(), 10);
    let total: usize = counts.iter().map(|&(_, k)| k).sum();
    assert_eq!(total, 11);
    let s_count = counts.iter().find(|&&(c, _)| c == 's').unwrap().1;
    assert_eq!(s_count, 2);
}

#[test]
fn test_common_pattern_detection() {
    assert!(has_common_patterns("password123"));
    assert!(has_common_patterns("xx123yy"));
    assert!(has_common_patterns("PASSWORD"));
    assert!(has_common_patterns("fooAbCbar"));
    assert!(!has_common_patterns("qwerty"));
    assert!(!has_common_patterns("12"));
    assert!(!has_common_patterns(""));
}
