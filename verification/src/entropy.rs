//! Password-entropy analysis.
//!
//! One pass over the candidate password yields a character-frequency table and
//! four class flags; from the flags come the alphabet size and the complexity
//! score; from those, a security threshold, a pass-or-fail assessment, a recommended minimum
//! length, and a brute-force estimate.
//!
//! The policy thresholds are 0.8 and 1.2 times a 32-bit entropy floor, that is
//! 25.6 and 38.4 bits: both are exact integers in fifths of a bit, so the
//! security test "`length * log2(alphabet) >= threshold`" is decided exactly as
//! "`alphabet^(5*length) >= 2^(5*threshold)`" with no floating point at all.

use vstd::prelude::*;

use vstd::arithmetic::power::pow;
use vstd::arithmetic::power::lemma_pow_increases;
use vstd::arithmetic::power2::pow2;
use vstd::arithmetic::power2::lemma_pow2;
use crate::powcmp::pow_ge_pow2;
use crate::powcmp::lemma_pow_base_mono;

verus! {

// === Character classes ===

/// An ASCII lowercase letter.
pub open spec fn is_lowercase_char(c: char) -> bool {
    97 <= c as u32 <= 122
}

/// An ASCII uppercase letter.
pub open spec fn is_uppercase_char(c: char) -> bool {
    65 <= c as u32 <= 90
}

/// An ASCII decimal digit.
pub open spec fn is_digit_char(c: char) -> bool {
    48 <= c as u32 <= 57
}

/// An ASCII punctuation character (the 32 printable symbols).
pub open spec fn is_symbol_char(c: char) -> bool {
    (33 <= c as u32 <= 47) || (58 <= c as u32 <= 64) || (91 <= c as u32 <= 96) || (123 <= c as u32
        <= 126)
}

/// Which of the four character classes appear in the input.
#[derive(Clone, Copy, Debug, PartialEq, Eq, Structural)]
pub struct ClassFlags {
    pub has_lowercase: bool,
    pub has_uppercase: bool,
    pub has_digits: bool,
    pub has_symbols: bool,
}

/// The class flags of a character sequence.
pub open spec fn flags_of(s: Seq<char>) -> ClassFlags {
    ClassFlags {
        has_lowercase: exists|k: int| 0 <= k < s.len() && is_lowercase_char(s[k]),
        has_uppercase: exists|k: int| 0 <= k < s.len() && is_uppercase_char(s[k]),
        has_digits: exists|k: int| 0 <= k < s.len() && is_digit_char(s[k]),
        has_symbols: exists|k: int| 0 <= k < s.len() && is_symbol_char(s[k]),
    }
}

// === Frequency table ===

/// How often a character occurs in a sequence.
pub open spec fn occurrences(s: Seq<char>, c: char) -> nat
    decreases s.len(),
{
    if s.len() == 0 {
        0
    } else {
        occurrences(s.drop_last(), c) + if s.last() == c {
            1nat
        } else {
            0nat
        }
    }
}

/// No character appears twice in the table.
pub open spec fn counts_distinct(counts: Seq<(char, usize)>) -> bool {
    forall|j1: int, j2: int|
        0 <= j1 < j2 < counts.len() ==> (#[trigger] counts[j1]).0 != (#[trigger] counts[j2]).0
}

/// The table is exactly the frequency map of the sequence: distinct keys, each
/// key's count is its number of occurrences, and every character that occurs
/// has an entry.
pub open spec fn counts_match(counts: Seq<(char, usize)>, s: Seq<char>) -> bool {
    &&& counts_distinct(counts)
    &&& forall|j: int|
        0 <= j < counts.len() ==> (#[trigger] counts[j]).1 == occurrences(s, counts[j].0)
            && counts[j].1 >= 1
    &&& forall|c: char|
        #[trigger] occurrences(s, c) > 0 ==> exists|j: int|
            0 <= j < counts.len() && (#[trigger] counts[j]).0 == c
}

/// The total of the counts in the table.
pub open spec fn sum_counts(counts: Seq<(char, usize)>) -> int
    decreases counts.len(),
{
    if counts.len() == 0 {
        0
    } else {
        sum_counts(counts.drop_last()) + counts.last().1
    }
}

/// Appending one character raises its count by one and no other.
proof fn lemma_occurrences_push(t: Seq<char>, x: char, c: char)
    ensures
        occurrences(t.push(x), c) == occurrences(t, c) + if x == c {
            1int
        } else {
            0int
        },
{
    assert(t.push(x).drop_last() =~= t);
    assert(t.push(x).last() == x);
}

/// A character occurs at most as often as the sequence is long.
proof fn lemma_occurrences_le_len(s: Seq<char>, c: char)
    ensures
        occurrences(s, c) <= s.len(),
    decreases s.len(),
{
    if s.len() > 0 {
        lemma_occurrences_le_len(s.drop_last(), c);
    }
}

/// A character that occurs at all occurs at some index.
proof fn lemma_occurrences_present(s: Seq<char>, c: char)
    requires
        occurrences(s, c) > 0,
    ensures
        exists|i: int| 0 <= i < s.len() && s[i] == c,
    decreases s.len(),
{
    if s.last() == c {
        assert(s[s.len() - 1] == c);
    } else {
        lemma_occurrences_present(s.drop_last(), c);
        let i = choose|i: int| 0 <= i < s.drop_last().len() && s.drop_last()[i] == c;
        assert(s[i] == c);
    }
}

/// A character at no index does not occur.
proof fn lemma_occurrences_absent(s: Seq<char>, c: char)
    requires
        forall|i: int| 0 <= i < s.len() ==> s[i] != c,
    ensures
        occurrences(s, c) == 0,
{
    if occurrences(s, c) > 0 {
        lemma_occurrences_present(s, c);
    }
}

/// Raising one entry's count raises the total by the same amount.
proof fn lemma_sum_counts_update(counts: Seq<(char, usize)>, j: int, v: (char, usize))
    requires
        0 <= j < counts.len(),
    ensures
        sum_counts(counts.update(j, v)) == sum_counts(counts) - counts[j].1 + v.1,
    decreases counts.len(),
{
    let updated = counts.update(j, v);
    if j == counts.len() - 1 {
        assert(updated.drop_last() =~= counts.drop_last());
        assert(updated.last() == v);
    } else {
        assert(updated.drop_last() =~= counts.drop_last().update(j, v));
        lemma_sum_counts_update(counts.drop_last(), j, v);
        assert(updated.last() == counts.last());
    }
}

/// Appending an entry adds its count to the total.
proof fn lemma_sum_counts_push(counts: Seq<(char, usize)>, v: (char, usize))
    ensures
        sum_counts(counts.push(v)) == sum_counts(counts) + v.1,
{
    assert(counts.push(v).drop_last() =~= counts);
    assert(counts.push(v).last() == v);
}

/// Classify the ASCII lowercase letters.
fn char_is_lowercase(c: char) -> (r: bool)
    ensures
        r == is_lowercase_char(c),
{
    let u = c as u32;
    97 <= u && u <= 122
}

/// Classify the ASCII uppercase letters.
fn char_is_uppercase(c: char) -> (r: bool)
    ensures
        r == is_uppercase_char(c),
{
    let u = c as u32;
    65 <= u && u <= 90
}

/// Classify the ASCII decimal digits.
fn char_is_digit(c: char) -> (r: bool)
    ensures
        r == is_digit_char(c),
{
    let u = c as u32;
    48 <= u && u <= 57
}

/// Classify the ASCII punctuation characters.
fn char_is_symbol(c: char) -> (r: bool)
    ensures
        r == is_symbol_char(c),
{
    let u = c as u32;
    (33 <= u && u <= 47) || (58 <= u && u <= 64) || (91 <= u && u <= 96) || (123 <= u && u <= 126)
}

/// One pass over the password: its frequency table and its class flags.
pub fn classify_password(password: &str) -> (r: (Vec<(char, usize)>, ClassFlags))
    ensures
        counts_match(r.0@, password@),
        sum_counts(r.0@) == password@.len(),
        r.1 == flags_of(password@),
{
    let s = password;
    let n = s.unicode_len();
    let mut counts: Vec<(char, usize)> = Vec::new();
    let mut has_lowercase = false;
    let mut has_uppercase = false;
    let mut has_digits = false;
    let mut has_symbols = false;
    let mut i: usize = 0;
    while i < n
        invariant
            i <= n == s@.len(),
            counts_match(counts@, s@.take(i as int)),
            sum_counts(counts@) == i,
            has_lowercase == exists|k: int| 0 <= k < i && is_lowercase_char(s@[k]),
            has_uppercase == exists|k: int| 0 <= k < i && is_uppercase_char(s@[k]),
            has_digits == exists|k: int| 0 <= k < i && is_digit_char(s@[k]),
            has_symbols == exists|k: int| 0 <= k < i && is_symbol_char(s@[k]),
        decreases n - i,
    {
        let ghost prefix = s@.take(i as int);
        let c = s.get_char(i);
        proof {
            assert(s@.take(i + 1) =~= prefix.push(s@[i as int]));
        }
        if char_is_lowercase(c) {
            has_lowercase = true;
        } else if char_is_uppercase(c) {
            has_uppercase = true;
        } else if char_is_digit(c) {
            has_digits = true;
        } else if char_is_symbol(c) {
            has_symbols = true;
        }
        let mut j: usize = 0;
        while j < counts.len() && counts[j].0 != c
            invariant
                j <= counts@.len(),
                forall|k: int| 0 <= k < j ==> (#[trigger] counts@[k]).0 != c,
            decreases counts@.len() - j,
        {
            j = j + 1;
        }
        proof {
            assert forall|d: char| true implies #[trigger] occurrences(s@.take(i + 1), d)
                == occurrences(prefix, d) + if s@[i as int] == d {
                1int
            } else {
                0int
            } by {
                lemma_occurrences_push(prefix, s@[i as int], d);
            }
            lemma_occurrences_le_len(prefix, c);
        }
        let ghost old_counts = counts@;
        if j < counts.len() {
            let current = counts[j].1;
            proof {
                assert(old_counts[j as int].0 == c);
                assert(current == occurrences(prefix, c));
            }
            counts[j] = (c, current + 1);
            proof {
                let updated = old_counts.update(j as int, (c, (current + 1) as usize));
                assert(counts@ =~= updated);
                lemma_sum_counts_update(old_counts, j as int, (c, (current + 1) as usize));
                assert forall|jj: int| 0 <= jj < counts@.len() implies (#[trigger] counts@[jj]).1
                    == occurrences(s@.take(i + 1), counts@[jj].0) && counts@[jj].1 >= 1 by {
                    if jj != j {
                        assert(old_counts[jj].0 != c);
                        assert(counts@[jj] == old_counts[jj]);
                    }
                }
                assert forall|d: char| #[trigger] occurrences(s@.take(i + 1), d) > 0 implies exists|
                    k: int,
                |
                    0 <= k < counts@.len() && (#[trigger] counts@[k]).0 == d by {
                    if d == c {
                        assert(counts@[j as int].0 == c);
                    } else {
                        assert(occurrences(prefix, d) > 0);
                        let k = choose|k: int|
                            0 <= k < old_counts.len() && (#[trigger] old_counts[k]).0 == d;
                        assert(counts@[k].0 == d);
                    }
                }
                assert(counts_distinct(counts@));
            }
        } else {
            proof {
                if occurrences(prefix, c) > 0 {
                    let k = choose|k: int|
                        0 <= k < old_counts.len() && (#[trigger] old_counts[k]).0 == c;
                    assert(false);
                }
            }
            counts.push((c, 1));
            proof {
                assert(counts@ =~= old_counts.push((c, 1usize)));
                lemma_sum_counts_push(old_counts, (c, 1usize));
                assert forall|jj: int| 0 <= jj < counts@.len() implies (#[trigger] counts@[jj]).1
                    == occurrences(s@.take(i + 1), counts@[jj].0) && counts@[jj].1 >= 1 by {
                    if jj < counts@.len() - 1 {
                        assert(old_counts[jj].0 != c);
                        assert(counts@[jj] == old_counts[jj]);
                    } else {
                        assert(counts@[jj] == (c, 1usize));
                        assert(occurrences(prefix, c) == 0);
                    }
                }
                assert forall|d: char| #[trigger] occurrences(s@.take(i + 1), d) > 0 implies exists|
                    k: int,
                |
                    0 <= k < counts@.len() && (#[trigger] counts@[k]).0 == d by {
                    if d == c {
                        assert(counts@[counts@.len() - 1].0 == c);
                    } else {
                        assert(occurrences(prefix, d) > 0);
                        let k = choose|k: int|
                            0 <= k < old_counts.len() && (#[trigger] old_counts[k]).0 == d;
                        assert(counts@[k].0 == d);
                    }
                }
                assert(counts_distinct(counts@));
            }
        }
        i = i + 1;
    }
    proof {
        assert(s@.take(n as int) =~= s@);
    }
    (
        counts,
        ClassFlags { has_lowercase, has_uppercase, has_digits, has_symbols },
    )
}

// === Alphabet size and complexity score ===

/// The effective alphabet size the flags allow: 26 lowercase, 26 uppercase,
/// 10 digits, 32 symbols.
pub open spec fn alphabet_size_of_flags(f: ClassFlags) -> nat {
    (if f.has_lowercase {
        26nat
    } else {
        0nat
    }) + (if f.has_uppercase {
        26nat
    } else {
        0nat
    }) + (if f.has_digits {
        10nat
    } else {
        0nat
    }) + (if f.has_symbols {
        32nat
    } else {
        0nat
    })
}

/// The complexity score the flags earn: one point per letter or digit class,
/// two for symbols.
pub open spec fn complexity_score_of_flags(f: ClassFlags) -> nat {
    (if f.has_lowercase {
        1nat
    } else {
        0nat
    }) + (if f.has_uppercase {
        1nat
    } else {
        0nat
    }) + (if f.has_digits {
        1nat
    } else {
        0nat
    }) + (if f.has_symbols {
        2nat
    } else {
        0nat
    })
}

/// Derive the alphabet size from the class flags.
pub fn alphabet_size(flags: &ClassFlags) -> (r: u64)
    ensures
        r == alphabet_size_of_flags(*flags),
        r <= 94,
{
    let mut size: u64 = 0;
    if flags.has_lowercase {
        size += 26;
    }
    if flags.has_uppercase {
        size += 26;
    }
    if flags.has_digits {
        size += 10;
    }
    if flags.has_symbols {
        size += 32;
    }
    size
}

/// Derive the complexity score from the class flags.
pub fn complexity_score(flags: &ClassFlags) -> (r: u64)
    ensures
        r == complexity_score_of_flags(*flags),
        r <= 5,
{
    let mut score: u64 = 0;
    if flags.has_lowercase {
        score += 1;
    }
    if flags.has_uppercase {
        score += 1;
    }
    if flags.has_digits {
        score += 1;
    }
    if flags.has_symbols {
        score += 2;
    }
    score
}

// === Policy ===

/// The conservative entropy floor of the policy, 32 bits, held in fifths of a
/// bit so that both derived thresholds are exact integers.
pub const MIN_SECURE_ENTROPY_FIFTH_BITS: u64 = 160;

/// Upper bound on password lengths the exercises consider.
pub const MAX_PASSWORD_LENGTH: usize = 512;

/// The threshold the security test uses, in fifths of a bit: complex passwords get
/// the lower bar of 25.6 bits (0.8 times the floor), simple ones the higher
/// bar of 38.4 bits (1.2 times the floor).
pub open spec fn threshold_fifth_bits_spec(score: nat) -> nat {
    if score >= 3 {
        128
    } else {
        192
    }
}

/// Select the security threshold from the complexity score.
pub fn threshold_fifth_bits(score: u64) -> (r: u64)
    ensures
        r == threshold_fifth_bits_spec(score as nat),
        5 * r == if score >= 3 {
            4 * MIN_SECURE_ENTROPY_FIFTH_BITS
        } else {
            6 * MIN_SECURE_ENTROPY_FIFTH_BITS
        },
{
    if score >= 3 {
        128
    } else {
        192
    }
}

// === Password-space entropy ===

/// Whether `length` symbols from an alphabet of `alphabet` characters carry at
/// least `t5` fifths of a bit of password-space entropy. The real-valued test
/// `length * log2(alphabet) >= t5 / 5` holds exactly when
/// `alphabet^(5 * length) >= 2^t5`.
pub open spec fn meets_threshold(alphabet: nat, length: nat, t5: nat) -> bool {
    pow(alphabet as int, 5 * length) >= pow2(t5)
}

/// Decide whether the password space reaches the threshold.
pub fn space_meets_threshold(alphabet: u64, length: u64, t5: u64) -> (r: bool)
    requires
        2 <= alphabet,
        t5 == 128 || t5 == 192,
    ensures
        r == meets_threshold(alphabet as nat, length as nat, t5 as nat),
{
    if length >= 52 {
        proof {
            lemma_pow_base_mono(2, alphabet as int, (5 * length) as nat);
            lemma_pow_increases(2, t5 as nat, (5 * length) as nat);
            lemma_pow2(t5 as nat);
        }
        true
    } else {
        pow_ge_pow2(alphabet, 5 * length, t5)
    }
}

/// Whether `l` is the least length that reaches the threshold.
pub open spec fn is_min_secure_length(alphabet: nat, t5: nat, l: nat) -> bool {
    &&& meets_threshold(alphabet, l, t5)
    &&& forall|k: nat| k < l ==> !#[trigger] meets_threshold(alphabet, k, t5)
}

/// Thirty-nine characters reach either threshold for any alphabet of two or more.
proof fn lemma_39_meets_threshold(alphabet: nat, t5: nat)
    requires
        2 <= alphabet,
        t5 == 128 || t5 == 192,
    ensures
        meets_threshold(alphabet, 39, t5),
{
    lemma_pow_base_mono(2, alphabet as int, 195);
    lemma_pow_increases(2, t5, 195);
    lemma_pow2(t5);
}

/// The least length that reaches the threshold at this alphabet size; this is
/// ceil(threshold / log2(alphabet)) computed exactly.
pub fn recommended_length(alphabet: u64, t5: u64) -> (r: u64)
    requires
        2 <= alphabet,
        t5 == 128 || t5 == 192,
    ensures
        is_min_secure_length(alphabet as nat, t5 as nat, r as nat),
{
    let mut l: u64 = 0;
    while l < 40
        invariant
            l <= 40,
            2 <= alphabet,
            t5 == 128 || t5 == 192,
            forall|k: nat| k < l ==> !#[trigger] meets_threshold(alphabet as nat, k, t5 as nat),
        decreases 40 - l,
    {
        if space_meets_threshold(alphabet, l, t5) {
            return l;
        }
        proof {
            if l == 39 {
                lemma_39_meets_threshold(alphabet as nat, t5 as nat);
                assert(false);
            }
        }
        l = l + 1;
    }
    proof {
        lemma_39_meets_threshold(alphabet as nat, t5 as nat);
        assert(!meets_threshold(alphabet as nat, 39, t5 as nat));
        assert(false);
    }
    0
}

// === Laws of classification and the frequency table ===

/// In a string of one repeated character, that character occurs at every position.
proof fn lemma_occurrences_all_same(s: Seq<char>)
    requires
        s.len() > 0,
        forall|i: int| 0 <= i < s.len() ==> #[trigger] s[i] == s[0],
    ensures
        occurrences(s, s[0]) == s.len(),
    decreases s.len(),
{
    if s.len() == 1 {
        assert(s.last() == s[0]);
        assert(s.drop_last().len() == 0);
        assert(occurrences(s.drop_last(), s[0]) == 0);
    } else {
        let d = s.drop_last();
        assert(d[0] == s[0]);
        assert forall|i: int| 0 <= i < d.len() implies #[trigger] d[i] == d[0] by {
            assert(d[i] == s[i]);
            assert(s[i] == s[0]);
        }
        lemma_occurrences_all_same(d);
        assert(s.last() == s[0]);
        assert(occurrences(s, s[0]) == occurrences(d, s[0]) + 1);
        assert(occurrences(d, s[0]) == occurrences(d, d[0]));
    }
}

/// In a string of pairwise distinct characters, no character occurs twice.
proof fn lemma_occurrences_distinct(s: Seq<char>, c: char)
    requires
        forall|i: int, j: int| 0 <= i < j < s.len() ==> s[i] != s[j],
    ensures
        occurrences(s, c) <= 1,
    decreases s.len(),
{
    if s.len() > 0 {
        let d = s.drop_last();
        lemma_occurrences_distinct(d, c);
        if s.last() == c {
            assert forall|i: int| 0 <= i < d.len() implies d[i] != c by {
                assert(s[i] != s[s.len() - 1]);
            }
            lemma_occurrences_absent(d, c);
        }
    }
}

/// A table of unit counts totals its own length.
proof fn lemma_sum_counts_ones(counts: Seq<(char, usize)>)
    requires
        forall|j: int| 0 <= j < counts.len() ==> (#[trigger] counts[j]).1 == 1,
    ensures
        sum_counts(counts) == counts.len(),
    decreases counts.len(),
{
    if counts.len() > 0 {
        lemma_sum_counts_ones(counts.drop_last());
    }
}

/// A non-empty input of lowercase letters alone has alphabet size 26 and
/// complexity score 1.
pub proof fn lemma_lowercase_only(s: Seq<char>)
    requires
        s.len() > 0,
        forall|i: int| 0 <= i < s.len() ==> is_lowercase_char(#[trigger] s[i]),
    ensures
        alphabet_size_of_flags(flags_of(s)) == 26,
        complexity_score_of_flags(flags_of(s)) == 1,
{
    assert(is_lowercase_char(s[0]));
    let flags = flags_of(s);
    if flags.has_uppercase {
        let k = choose|k: int| 0 <= k < s.len() && is_uppercase_char(s[k]);
        assert(is_lowercase_char(s[k]));
        assert(false);
    }
    if flags.has_digits {
        let k = choose|k: int| 0 <= k < s.len() && is_digit_char(s[k]);
        assert(is_lowercase_char(s[k]));
        assert(false);
    }
    if flags.has_symbols {
        let k = choose|k: int| 0 <= k < s.len() && is_symbol_char(s[k]);
        assert(is_lowercase_char(s[k]));
        assert(false);
    }
}

/// An input with at least one character of each class has alphabet size 94 and
/// complexity score 5.
pub proof fn lemma_all_classes(s: Seq<char>)
    requires
        exists|i: int| 0 <= i < s.len() && is_lowercase_char(#[trigger] s[i]),
        exists|i: int| 0 <= i < s.len() && is_uppercase_char(#[trigger] s[i]),
        exists|i: int| 0 <= i < s.len() && is_digit_char(#[trigger] s[i]),
        exists|i: int| 0 <= i < s.len() && is_symbol_char(#[trigger] s[i]),
    ensures
        alphabet_size_of_flags(flags_of(s)) == 94,
        complexity_score_of_flags(flags_of(s)) == 5,
{
}

/// A string of one repeated character has a one-entry frequency table holding
/// the whole length: a distribution with probability one, whose Shannon
/// entropy is zero bits.
pub proof fn lemma_single_symbol_distribution(s: Seq<char>, counts: Seq<(char, usize)>)
    requires
        s.len() > 0,
        forall|i: int| 0 <= i < s.len() ==> #[trigger] s[i] == s[0],
        counts_match(counts, s),
    ensures
        counts.len() == 1,
        counts[0].0 == s[0],
        counts[0].1 == s.len(),
{
    lemma_occurrences_all_same(s);
    assert(occurrences(s, s[0]) > 0);
    let j = choose|j: int| 0 <= j < counts.len() && (#[trigger] counts[j]).0 == s[0];
    if counts.len() > 1 {
        let j2: int = if j == 0 {
            1
        } else {
            0
        };
        let c2 = counts[j2].0;
        assert(c2 != s[0]);
        lemma_occurrences_absent(s, c2);
        assert(counts[j2].1 >= 1);
        assert(false);
    }
    assert(j == 0);
}

/// A string of pairwise distinct characters has a uniform frequency table:
/// every count is one and there are as many entries as characters. Its Shannon
/// entropy is log2 of its length.
pub proof fn lemma_distinct_symbols_uniform(s: Seq<char>, counts: Seq<(char, usize)>)
    requires
        forall|i: int, j: int| 0 <= i < j < s.len() ==> s[i] != s[j],
        counts_match(counts, s),
        sum_counts(counts) == s.len(),
    ensures
        forall|j: int| 0 <= j < counts.len() ==> (#[trigger] counts[j]).1 == 1,
        counts.len() == s.len(),
{
    assert forall|j: int| 0 <= j < counts.len() implies (#[trigger] counts[j]).1 == 1 by {
        lemma_occurrences_distinct(s, counts[j].0);
    }
    lemma_sum_counts_ones(counts);
}

// === Laws of password-space entropy ===

/// Password-space entropy never falls as the length grows at a fixed alphabet:
/// the space itself grows, and a pass at the shorter length still
/// holds at the longer one.
pub proof fn lemma_space_monotone_in_length(alphabet: nat, l1: nat, l2: nat, t5: nat)
    requires
        1 <= alphabet,
        l1 <= l2,
    ensures
        pow(alphabet as int, 5 * l1) <= pow(alphabet as int, 5 * l2),
        meets_threshold(alphabet, l1, t5) ==> meets_threshold(alphabet, l2, t5),
{
    lemma_pow_increases(alphabet, 5 * l1, 5 * l2);
}

/// Password-space entropy never falls as the alphabet grows at a fixed length.
pub proof fn lemma_space_monotone_in_alphabet(a1: nat, a2: nat, length: nat, t5: nat)
    requires
        a1 <= a2,
    ensures
        pow(a1 as int, 5 * length) <= pow(a2 as int, 5 * length),
        meets_threshold(a1, length, t5) ==> meets_threshold(a2, length, t5),
{
    lemma_pow_base_mono(a1 as int, a2 as int, 5 * length);
}

/// Round trip of the recommendation: a password rebuilt over the same alphabet
/// at the recommended length, or at any greater length, meets the threshold
/// that the original password missed; and no shorter length does.
pub proof fn lemma_recommended_length_round_trip(alphabet: nat, t5: nat, l: nat)
    requires
        1 <= alphabet,
        is_min_secure_length(alphabet, t5, l),
    ensures
        meets_threshold(alphabet, l, t5),
        forall|k: nat| k >= l ==> #[trigger] meets_threshold(alphabet, k, t5),
        forall|k: nat| k < l ==> !#[trigger] meets_threshold(alphabet, k, t5),
{
    assert forall|k: nat| k >= l implies #[trigger] meets_threshold(alphabet, k, t5) by {
        lemma_space_monotone_in_length(alphabet, l, k, t5);
    }
}

/// The least secure length for this alphabet at the threshold the score earns,
/// or the report that no length can help: a length recommendation is undefined
/// for an alphabet of fewer than two characters.
pub fn recommended_length_checked(alphabet: u64, score: u64) -> (r: Result<u64, EntropyError>)
    ensures
        alphabet <= 1 ==> r == Err::<u64, EntropyError>(EntropyError::PolicyUndefined),
        alphabet >= 2 ==> (r matches Ok(l) && is_min_secure_length(
            alphabet as nat,
            threshold_fifth_bits_spec(score as nat),
            l as nat,
        )),
{
    if alphabet <= 1 {
        Err(EntropyError::PolicyUndefined)
    } else {
        Ok(recommended_length(alphabet, threshold_fifth_bits(score)))
    }
}

// === Brute-force estimation ===

/// Why an analysis or estimate was rejected.
#[derive(Clone, Copy, Debug, PartialEq, Eq, Structural)]
pub enum EntropyError {
    /// Empty input, or input with no character of any recognized class.
    InvalidInput,
    /// The combination count exceeds the 128-bit range.
    NumericOverflow,
    /// A length recommendation needs an alphabet of at least two characters.
    PolicyUndefined,
}

/// The exact number of passwords of this length over this alphabet, or a
/// report that it exceeds the 128-bit range (an effectively uncrackable
/// password space) rather than a silently wrapped value.
pub fn total_combinations(alphabet: u64, length: u64) -> (r: Result<u128, EntropyError>)
    ensures
        r is Ok <==> pow(alphabet as int, length as nat) <= u128::MAX,
        r matches Ok(v) ==> v == pow(alphabet as int, length as nat),
        r is Err ==> r == Err::<u128, EntropyError>(EntropyError::NumericOverflow),
{
    let mut acc: u128 = 1;
    let mut i: u64 = 0;
    proof {
        reveal(pow);
    }
    while i < length
        invariant
            i <= length,
            acc == pow(alphabet as int, i as nat),
        decreases length - i,
    {
        proof {
            vstd::arithmetic::power::lemma_pow1(alphabet as int);
            vstd::arithmetic::power::lemma_pow_adds(alphabet as int, 1, i as nat);
            assert(1 + i as nat == (i + 1) as nat);
            assert(pow(alphabet as int, (i + 1) as nat) == pow(alphabet as int, 1) * pow(
                alphabet as int,
                i as nat,
            ));
        }
        let ghost prev = acc;
        let next = acc.checked_mul(alphabet as u128);
        if next.is_none() {
            proof {
                assert(acc * (alphabet as u128) > u128::MAX);
                assert((alphabet as int) >= 2) by (nonlinear_arith)
                    requires
                        (acc as int) * (alphabet as int) > u128::MAX,
                        acc as int <= u128::MAX,
                        alphabet as int >= 0,
                ;
                assert(pow(alphabet as int, (i + 1) as nat) > u128::MAX) by (nonlinear_arith)
                    requires
                        acc * (alphabet as int) > u128::MAX,
                        acc == pow(alphabet as int, i as nat),
                        pow(alphabet as int, (i + 1) as nat) == pow(alphabet as int, 1) * pow(
                            alphabet as int,
                            i as nat,
                        ),
                        pow(alphabet as int, 1) == alphabet as int,
                ;
                lemma_pow_increases(alphabet as nat, (i + 1) as nat, length as nat);
            }
            return Err(EntropyError::NumericOverflow);
        }
        acc = next.unwrap();
        proof {
            assert(acc == prev * (alphabet as u128));
            assert(acc == pow(alphabet as int, (i + 1) as nat)) by (nonlinear_arith)
                requires
                    acc == prev * (alphabet as int),
                    prev == pow(alphabet as int, i as nat),
                    pow(alphabet as int, (i + 1) as nat) == pow(alphabet as int, 1) * pow(
                        alphabet as int,
                        i as nat,
                    ),
                    pow(alphabet as int, 1) == alphabet as int,
            ;
        }
        i = i + 1;
    }
    Ok(acc)
}

/// Average-case seconds an exhaustive search needs: half the combinations at
/// the given attempt rate, in whole seconds.
pub fn seconds_to_crack(total: u128, attempts_per_second: u64) -> (r: u128)
    requires
        attempts_per_second >= 1,
    ensures
        r == total as int / (2 * attempts_per_second as int),
{
    total / (2 * (attempts_per_second as u128))
}

// === The analyzer ===

/// Everything the analysis derives from one password.
#[derive(Debug)]
pub struct Report {
    /// Character count of the input.
    pub length: usize,
    /// Which character classes appear.
    pub flags: ClassFlags,
    /// The character-frequency table, one entry per distinct character.
    pub counts: Vec<(char, usize)>,
    /// Number of distinct characters.
    pub unique_chars: usize,
    /// Effective alphabet size derived from the flags.
    pub alphabet_size: u64,
    /// Complexity score derived from the flags.
    pub complexity_score: u64,
    /// The selected threshold, in fifths of a bit.
    pub threshold_fifth_bits: u64,
    /// Whether the password-space entropy reaches the threshold.
    pub secure: bool,
    /// For an insecure password, the least length that would reach the
    /// threshold at the same alphabet.
    pub recommended_length: Option<u64>,
    /// Exact size of the password space, when it fits 128 bits.
    pub total_combinations: Option<u128>,
    /// Average-case seconds to exhaust the space, when it fits 128 bits.
    pub seconds_to_crack: Option<u128>,
}

/// What a report claims about the password it was computed from.
pub open spec fn report_matches(rep: Report, s: Seq<char>, attempts_per_second: u64) -> bool {
    let flags = flags_of(s);
    let alphabet = alphabet_size_of_flags(flags);
    let t5 = threshold_fifth_bits_spec(complexity_score_of_flags(flags));
    &&& rep.length == s.len()
    &&& rep.flags == flags
    &&& counts_match(rep.counts@, s)
    &&& sum_counts(rep.counts@) == s.len()
    &&& rep.unique_chars == rep.counts@.len()
    &&& rep.alphabet_size == alphabet
    &&& rep.complexity_score == complexity_score_of_flags(flags)
    &&& rep.threshold_fifth_bits == t5
    &&& rep.secure == meets_threshold(alphabet, s.len(), t5)
    &&& (rep.secure ==> rep.recommended_length is None)
    &&& (!rep.secure ==> (rep.recommended_length matches Some(l) && is_min_secure_length(
        alphabet,
        t5,
        l as nat,
    )))
    &&& (rep.total_combinations matches Some(v) ==> v == pow(alphabet as int, s.len()))
    &&& (rep.total_combinations is None <==> pow(alphabet as int, s.len()) > u128::MAX)
    &&& (rep.seconds_to_crack matches Some(sec) ==> (rep.total_combinations matches Some(v) && sec
        == v as int / (2 * attempts_per_second as int)))
    &&& (rep.seconds_to_crack is None <==> rep.total_combinations is None)
}

/// Analyze one candidate password at a given attack rate.
///
/// Rejects the empty string and strings with no character of any recognized
/// class (where the alphabet size would be zero and no entropy is defined);
/// every other input yields a full report.
pub fn analyze(password: &str, attempts_per_second: u64) -> (r: Result<Report, EntropyError>)
    requires
        attempts_per_second >= 1,
    ensures
        r is Err <==> (password@.len() == 0 || alphabet_size_of_flags(flags_of(password@)) == 0),
        r is Err ==> r == Err::<Report, EntropyError>(EntropyError::InvalidInput),
        r matches Ok(rep) ==> report_matches(rep, password@, attempts_per_second),
{
    let n = password.unicode_len();
    let (counts, flags) = classify_password(password);
    let alphabet = alphabet_size(&flags);
    if n == 0 || alphabet == 0 {
        return Err(EntropyError::InvalidInput);
    }
    let score = complexity_score(&flags);
    let t5 = threshold_fifth_bits(score);
    let length64: u64 = n as u64;
    let secure = space_meets_threshold(alphabet, length64, t5);
    let recommended = if secure {
        None
    } else {
        Some(recommended_length(alphabet, t5))
    };
    let combos = match total_combinations(alphabet, length64) {
        Ok(v) => Some(v),
        Err(_) => None,
    };
    let secs = match combos {
        Some(v) => Some(seconds_to_crack(v, attempts_per_second)),
        None => None,
    };
    let unique_chars = counts.len();
    Ok(
        Report {
            length: n,
            flags,
            counts,
            unique_chars,
            alphabet_size: alphabet,
            complexity_score: score,
            threshold_fifth_bits: t5,
            secure,
            recommended_length: recommended,
            total_combinations: combos,
            seconds_to_crack: secs,
        },
    )
}

// === Common-pattern scan ===

/// The character's code with an ASCII uppercase letter folded to lowercase.
pub open spec fn lower_code(c: char) -> u32 {
    if 65 <= c as u32 <= 90 {
        (c as u32 + 32) as u32
    } else {
        c as u32
    }
}

/// Whether the pattern `p` matches `s` at offset `i`, ignoring ASCII case.
pub open spec fn pattern_at(s: Seq<char>, i: int, p: Seq<char>) -> bool {
    forall|j: int| 0 <= j < p.len() ==> #[trigger] lower_code(s[i + j]) == lower_code(p[j])
}

/// Whether the pattern `p` occurs anywhere in `s`, ignoring ASCII case.
pub open spec fn contains_pattern(s: Seq<char>, p: Seq<char>) -> bool {
    exists|i: int| 0 <= i <= s.len() - p.len() && #[trigger] pattern_at(s, i, p)
}

/// The character's code with an ASCII uppercase letter folded to lowercase.
fn lower_code_of(c: char) -> (r: u32)
    ensures
        r == lower_code(c),
{
    let u = c as u32;
    if 65 <= u && u <= 90 {
        u + 32
    } else {
        u
    }
}

/// The password's characters, in order.
fn chars_of(password: &str) -> (r: Vec<char>)
    ensures
        r@ == password@,
{
    let n = password.unicode_len();
    let mut chars: Vec<char> = Vec::new();
    let mut i: usize = 0;
    while i < n
        invariant
            i <= n == password@.len(),
            chars@ =~= password@.take(i as int),
        decreases n - i,
    {
        chars.push(password.get_char(i));
        i = i + 1;
    }
    proof {
        assert(password@.take(n as int) =~= password@);
    }
    chars
}

/// Scan for one pattern, ignoring ASCII case.
fn contains_ci(chars: &Vec<char>, pattern: &str) -> (r: bool)
    ensures
        r == contains_pattern(chars@, pattern@),
{
    let n = chars.len();
    let m = pattern.unicode_len();
    if m > n {
        return false;
    }
    let mut i: usize = 0;
    while i <= n - m
        invariant
            m <= n == chars@.len(),
            m == pattern@.len(),
            i <= n - m + 1,
            forall|i2: int| 0 <= i2 < i ==> !#[trigger] pattern_at(chars@, i2, pattern@),
        decreases n - m + 1 - i,
    {
        let mut j: usize = 0;
        let mut matches = true;
        while j < m
            invariant
                m <= n == chars@.len(),
                m == pattern@.len(),
                i <= n - m,
                j <= m,
                matches ==> forall|j2: int|
                    0 <= j2 < j ==> #[trigger] lower_code(chars@[i + j2]) == lower_code(
                        pattern@[j2],
                    ),
                !matches ==> !pattern_at(chars@, i as int, pattern@),
            decreases m - j,
        {
            if lower_code_of(chars[i + j]) != lower_code_of(pattern.get_char(j)) {
                proof {
                    assert(lower_code(chars@[i + j]) != lower_code(pattern@[j as int]));
                    assert(!pattern_at(chars@, i as int, pattern@));
                }
                matches = false;
            }
            j = j + 1;
        }
        if matches {
            proof {
                assert(pattern_at(chars@, i as int, pattern@));
            }
            return true;
        }
        i = i + 1;
    }
    proof {
        assert(forall|i2: int|
            0 <= i2 <= chars@.len() - pattern@.len() ==> !#[trigger] pattern_at(
                chars@,
                i2,
                pattern@,
            ));
    }
    false
}

/// Whether the password contains one of the common sequences "123", "abc" or
/// "password", ignoring ASCII case.
pub fn has_common_patterns(password: &str) -> (r: bool)
    ensures
        r == (contains_pattern(password@, "123"@) || contains_pattern(password@, "abc"@)
            || contains_pattern(password@, "password"@)),
{
    let chars = chars_of(password);
    contains_ci(&chars, "123") || contains_ci(&chars, "abc") || contains_ci(&chars, "password")
}

} // verus!

