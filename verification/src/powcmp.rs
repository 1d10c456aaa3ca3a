//! Exact comparison of `a^e` against a power of two, with no overflow and no
//! rounding.
//!
//! The password-space entropy test "`length * log2(alphabet) >= threshold`"
//! is decided here in its equivalent integer form "`alphabet^e >= 2^p`".
//! A 256-bit accumulator is enough: the caller handles exponents of 256 and
//! above separately, and below that the accumulated power either stays exact
//! or provably passes the bound the moment it would outgrow the accumulator.

use vstd::prelude::*;

use vstd::arithmetic::power::pow;
use vstd::arithmetic::power::lemma_pow_increases;
use vstd::arithmetic::power2::pow2;
use vstd::arithmetic::power2::lemma_pow2;
use vstd::arithmetic::power2::lemma_pow2_adds;
use vstd::arithmetic::power2::lemma_pow2_strictly_increases;
use vstd::arithmetic::power2::lemma2_to64;

verus! {

/// A 256-bit accumulator held as four 64-bit limbs, least significant first.
struct Limbs {
    w0: u64,
    w1: u64,
    w2: u64,
    w3: u64,
}

/// The integer a four-limb accumulator holds.
spec fn limbs_val(x: Limbs) -> int {
    x.w0 + x.w1 * 0x10000000000000000 + x.w2 * 0x100000000000000000000000000000000 + x.w3
        * 0x1000000000000000000000000000000000000000000000000
}

/// Concrete values for the powers of two at the limb boundaries.
proof fn lemma_pow2_limb_values()
    ensures
        pow2(64) == 0x10000000000000000,
        pow2(128) == 0x100000000000000000000000000000000,
        pow2(192) == 0x1000000000000000000000000000000000000000000000000,
        pow2(256) == 0x10000000000000000000000000000000000000000000000000000000000000000,
{
    lemma2_to64();
    lemma_pow2_adds(64, 64);
    lemma_pow2_adds(128, 64);
    lemma_pow2_adds(192, 64);
}

/// One multiply-with-carry step: the digit and carry of `w * a + c`.
fn mul_limb(w: u64, a: u64, c: u64) -> (r: (u64, u64))
    ensures
        r.0 + r.1 * 0x10000000000000000 == w * a + c,
{
    proof {
        assert((w as int) * (a as int) + (c as int) < 0x10000000000000000
            * 0x10000000000000000) by (nonlinear_arith)
            requires
                w < 0x10000000000000000 && a < 0x10000000000000000 && c < 0x10000000000000000,
        ;
    }
    let t: u128 = w as u128 * a as u128 + c as u128;
    let digit: u64 = (t % 0x10000000000000000u128) as u64;
    let carry: u64 = (t / 0x10000000000000000u128) as u64;
    (digit, carry)
}

/// Multiply the accumulator by a small factor; the second component is the
/// carry out of the top limb.
fn mul_small(x: &Limbs, a: u64) -> (r: (Limbs, u64))
    ensures
        limbs_val(r.0) + r.1 * 0x10000000000000000000000000000000000000000000000000000000000000000
            == limbs_val(*x) * a,
{
    let (d0, c1) = mul_limb(x.w0, a, 0);
    let (d1, c2) = mul_limb(x.w1, a, c1);
    let (d2, c3) = mul_limb(x.w2, a, c2);
    let (d3, c4) = mul_limb(x.w3, a, c3);
    let out = Limbs { w0: d0, w1: d1, w2: d2, w3: d3 };
    proof {
        assert(d0 + d1 * 0x10000000000000000 + d2 * 0x100000000000000000000000000000000 + d3
            * 0x1000000000000000000000000000000000000000000000000 + c4
            * 0x10000000000000000000000000000000000000000000000000000000000000000 == (x.w0 + x.w1
            * 0x10000000000000000 + x.w2 * 0x100000000000000000000000000000000 + x.w3
            * 0x1000000000000000000000000000000000000000000000000) * a) by (nonlinear_arith)
            requires
                d0 + c1 * 0x10000000000000000 == x.w0 * a,
                d1 + c2 * 0x10000000000000000 == x.w1 * a + c1,
                d2 + c3 * 0x10000000000000000 == x.w2 * a + c2,
                d3 + c4 * 0x10000000000000000 == x.w3 * a + c3,
        ;
    }
    (out, c4)
}

/// Decide whether the accumulator has reached 2^p, for p at a limb boundary.
fn limbs_ge_pow2(x: &Limbs, p: u64) -> (r: bool)
    requires
        p == 128 || p == 192,
    ensures
        r == (limbs_val(*x) >= pow2(p as nat)),
{
    proof {
        lemma_pow2_limb_values();
    }
    if p == 128 {
        x.w2 > 0 || x.w3 > 0
    } else {
        x.w3 > 0
    }
}

/// Decide `a^e >= 2^p` exactly, for an alphabet-sized base.
pub fn pow_ge_pow2(a: u64, e: u64, p: u64) -> (r: bool)
    requires
        2 <= a,
        p == 128 || p == 192,
    ensures
        r == (pow(a as int, e as nat) >= pow2(p as nat)),
{
    if e >= 256 {
        proof {
            lemma_pow_base_mono(2, a as int, e as nat);
            lemma_pow_increases(2, p as nat, e as nat);
            lemma_pow2(p as nat);
            lemma_pow2(e as nat);
        }
        return true;
    }
    let mut acc = Limbs { w0: 1, w1: 0, w2: 0, w3: 0 };
    let mut i: u64 = 0;
    proof {
        reveal(pow);
    }
    while i < e
        invariant
            i <= e,
            2 <= a,
            p == 128 || p == 192,
            limbs_val(acc) == pow(a as int, i as nat),
        decreases e - i,
    {
        if limbs_ge_pow2(&acc, p) {
            proof {
                lemma_pow_increases(a as nat, i as nat, e as nat);
            }
            return true;
        }
        let (next, carry) = mul_small(&acc, a);
        if carry > 0 {
            proof {
                reveal(pow);
                lemma_pow2_limb_values();
                lemma_pow2_strictly_increases(p as nat, 256);
                assert(limbs_val(next) >= 0);
                assert(carry * 0x10000000000000000000000000000000000000000000000000000000000000000
                    >= 0x10000000000000000000000000000000000000000000000000000000000000000);
                assert(pow(a as int, (i + 1) as nat) == limbs_val(acc) * a);
                lemma_pow_increases(a as nat, (i + 1) as nat, e as nat);
            }
            return true;
        }
        proof {
            reveal(pow);
            assert(pow(a as int, (i + 1) as nat) == a * pow(a as int, i as nat));
        }
        acc = next;
        i = i + 1;
    }
    limbs_ge_pow2(&acc, p)
}

/// A power grows with its base: 0 <= b1 <= b2 gives b1^e <= b2^e.
pub proof fn lemma_pow_base_mono(b1: int, b2: int, e: nat)
    requires
        0 <= b1 <= b2,
    ensures
        pow(b1, e) <= pow(b2, e),
    decreases e,
{
    reveal(pow);
    if e > 0 {
        lemma_pow_base_mono(b1, b2, (e - 1) as nat);
        assert(pow(b1, e) == b1 * pow(b1, (e - 1) as nat));
        assert(pow(b2, e) == b2 * pow(b2, (e - 1) as nat));
        if b2 == 0 {
            assert(b1 == 0);
        } else if b1 == 0 {
            vstd::arithmetic::power::lemma_pow_positive(b2, (e - 1) as nat);
            assert(pow(b1, e) == 0);
            assert(b2 * pow(b2, (e - 1) as nat) >= 0) by (nonlinear_arith)
                requires
                    b2 >= 0 && pow(b2, (e - 1) as nat) >= 0,
            ;
        } else {
            vstd::arithmetic::power::lemma_pow_positive(b1, (e - 1) as nat);
            vstd::arithmetic::power::lemma_pow_positive(b2, (e - 1) as nat);
            assert(b1 * pow(b1, (e - 1) as nat) <= b2 * pow(b2, (e - 1) as nat))
                by (nonlinear_arith)
                requires
                    0 < b1 <= b2 && 0 <= pow(b1, (e - 1) as nat) <= pow(b2, (e - 1) as nat),
            ;
        }
    }
}

} // verus!
