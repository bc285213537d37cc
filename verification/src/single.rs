//! Single-precision numbers, held as their 32-bit IEEE-754 patterns.
//!
//! Samples, frequencies and sample rates travel through the synthesizer as
//! bit patterns. Whatever has to be known of the number a pattern denotes is
//! read off its fields with integer arithmetic: a pattern with sign bit clear,
//! biased exponent field `e` and fraction field `t` denotes
//! `significand * 2^(scale - 150)`, where `significand` is `t` plus the hidden
//! bit of a normal number and `scale` is `e` (or 1 for a subnormal).

use vstd::prelude::*;
use vstd::arithmetic::div_mod::*;
use vstd::arithmetic::mul::*;
use vstd::arithmetic::power2::*;

verus! {

/// Two to the 23rd: the span of the fraction field, and the hidden bit.
pub const HIDDEN_BIT: u32 = 0x80_0000;

/// The pattern of positive infinity; every positive finite pattern is below it.
pub const POSITIVE_INFINITY: u32 = 0x7f80_0000;

/// The pattern of negative zero: the sign bit alone.
pub const NEGATIVE_ZERO: u32 = 0x8000_0000;

/// The pattern of positive zero, which is also the sample of silence.
pub const ZERO: u32 = 0;

/// The biased exponent field of a pattern.
pub open spec fn biased_exponent(bits: u32) -> nat {
    ((bits as nat) / 0x80_0000) % 256
}

/// The fraction field of a pattern.
pub open spec fn fraction(bits: u32) -> nat {
    (bits as nat) % 0x80_0000
}

/// Whether the pattern denotes zero, of either sign.
pub open spec fn is_zero(bits: u32) -> bool {
    bits == 0 || bits == 0x8000_0000
}

/// Whether the pattern denotes a number that is finite and greater than zero.
pub open spec fn is_positive_finite(bits: u32) -> bool {
    0 < bits < 0x7f80_0000
}

/// The integer significand of a pattern with the sign bit clear.
pub open spec fn significand(bits: u32) -> nat {
    if biased_exponent(bits) == 0 {
        fraction(bits)
    } else {
        fraction(bits) + 0x80_0000
    }
}

/// The power of two that scales the significand, offset by 150.
pub open spec fn scale(bits: u32) -> nat {
    if biased_exponent(bits) == 0 {
        1
    } else {
        biased_exponent(bits)
    }
}

/// The number of table entries that a phase cursor moves per frame: the floor
/// of `table_len * frequency / sample_rate`, taken over the exact values that
/// the two patterns denote. It is zero unless both are positive and finite.
pub open spec fn exact_step(table_len: nat, frequency: u32, sample_rate: u32) -> nat {
    if is_positive_finite(frequency) && is_positive_finite(sample_rate) {
        ((table_len * significand(frequency) * pow2(scale(frequency))) / (significand(sample_rate)
            * pow2(scale(sample_rate)))) as nat
    } else {
        0
    }
}

/// The pattern of the number of the same magnitude and the other sign: the
/// same fields with the sign bit flipped.
pub open spec fn negation(bits: u32) -> u32 {
    if bits >= 0x8000_0000 {
        (bits - 0x8000_0000) as u32
    } else {
        (bits + 0x8000_0000) as u32
    }
}

/// Flips the sign of the number that a pattern denotes.
pub fn negated(bits: u32) -> (flipped: u32)
    ensures
        flipped == negation(bits),
        flipped != bits,
        negation(flipped) == bits,
        biased_exponent(flipped) == biased_exponent(bits),
        fraction(flipped) == fraction(bits),
{
    if bits >= NEGATIVE_ZERO {
        bits - NEGATIVE_ZERO
    } else {
        bits + NEGATIVE_ZERO
    }
}

/// Tells whether a pattern denotes zero.
pub fn denotes_zero(bits: u32) -> (zero: bool)
    ensures
        zero == is_zero(bits),
{
    bits == ZERO || bits == NEGATIVE_ZERO
}

/// Tells whether a pattern denotes a finite number greater than zero.
pub fn denotes_positive_finite(bits: u32) -> (positive: bool)
    ensures
        positive == is_positive_finite(bits),
{
    ZERO < bits && bits < POSITIVE_INFINITY
}

/// Splits a positive finite pattern into its significand and scale.
pub fn decode(bits: u32) -> (parts: (u32, u32))
    requires
        is_positive_finite(bits),
    ensures
        parts.0 == significand(bits),
        parts.1 == scale(bits),
        0 < parts.0 < 0x100_0000,
        1 <= parts.1 <= 254,
{
    let exponent: u32 = bits / HIDDEN_BIT;
    let low: u32 = bits % HIDDEN_BIT;
    if exponent == 0 {
        (low, 1)
    } else {
        (low + HIDDEN_BIT, exponent)
    }
}

/// A quotient is unchanged when numerator and denominator are both scaled by
/// the same power of two.
proof fn lemma_cancel_pow2(n: nat, d: nat, k: nat)
    requires
        d > 0,
    ensures
        (n * pow2(k)) / (d * pow2(k)) == n / d,
{
    lemma_pow2_pos(k);
    lemma_div_multiples_vanish_quotient(pow2(k) as int, n as int, d as int);
    lemma_mul_is_commutative(pow2(k) as int, n as int);
    lemma_mul_is_commutative(pow2(k) as int, d as int);
}

/// Reducing a dividend modulo `r * l` before dividing by `r` gives the
/// quotient reduced modulo `l`.
proof fn lemma_quotient_mod(a: nat, r: nat, l: nat)
    requires
        r > 0,
        l > 0,
    ensures
        (a % (r * l)) / r == (a / r) % l,
{
    lemma_breakdown(a as int, r as int, l as int);
    let k = ((a / r) % l) as int;
    let rest = (a % r) as int;
    lemma_mul_is_commutative(r as int, k);
    lemma_fundamental_div_mod_converse(k * r + rest, r as int, k, rest);
}

/// Two to the 88th, the bound on a table length times a significand.
proof fn lemma_pow2_88()
    ensures
        pow2(88) == 0x100_0000_0000_0000_0000_0000,
{
    lemma2_to64();
    lemma_pow2_adds(64, 24);
}

/// The step when the frequency's scale is at least the sample rate's.
proof fn lemma_step_scaled_up(l: nat, f: nat, a: nat, r: nat, b: nat)
    requires
        r > 0,
        a >= b,
    ensures
        (l * f * pow2(a)) / (r * pow2(b)) == (l * f * pow2((a - b) as nat)) / r,
{
    let d = (a - b) as nat;
    lemma_pow2_adds(d, b);
    assert(l * f * pow2(a) == (l * f * pow2(d)) * pow2(b)) by {
        lemma_mul_is_associative((l * f) as int, pow2(d) as int, pow2(b) as int);
    }
    lemma_cancel_pow2(l * f * pow2(d), r, b);
}

/// The step when the frequency's scale is below the sample rate's.
proof fn lemma_step_scaled_down(l: nat, f: nat, a: nat, r: nat, b: nat)
    requires
        r > 0,
        a < b,
    ensures
        (l * f * pow2(a)) / (r * pow2(b)) == (l * f) / (r * pow2((b - a) as nat)),
{
    let e = (b - a) as nat;
    lemma_pow2_adds(e, a);
    lemma_pow2_pos(e);
    assert(r * pow2(b) == (r * pow2(e)) * pow2(a)) by {
        lemma_mul_is_associative(r as int, pow2(e) as int, pow2(a) as int);
    }
    assert(r * pow2(e) > 0) by {
        lemma_mul_strictly_positive(r as int, pow2(e) as int);
    }
    lemma_cancel_pow2(l * f, r * pow2(e), a);
}

/// The step is the floor of the quotient: it is the one number `step` with
/// `step * sample_rate <= table_len * frequency < (step + 1) * sample_rate`,
/// each side cleared of its negative power of two.
pub proof fn lemma_step_is_floor(table_len: nat, frequency: u32, sample_rate: u32)
    requires
        is_positive_finite(frequency),
        is_positive_finite(sample_rate),
    ensures
        ({
            let step = exact_step(table_len, frequency, sample_rate);
            let dividend = table_len * significand(frequency) * pow2(scale(frequency));
            let divisor = significand(sample_rate) * pow2(scale(sample_rate));
            step * divisor <= dividend < (step + 1) * divisor
        }),
{
    let dividend = (table_len * significand(frequency) * pow2(scale(frequency))) as int;
    let divisor = (significand(sample_rate) * pow2(scale(sample_rate))) as int;
    lemma_pow2_pos(scale(sample_rate));
    lemma_mul_strictly_positive(significand(sample_rate) as int, pow2(scale(sample_rate)) as int);
    lemma_fundamental_div_mod(dividend, divisor);
    lemma_mod_bound(dividend, divisor);
    lemma_div_pos_is_pos(dividend, divisor);
    lemma_mul_is_commutative(dividend / divisor, divisor);
    lemma_mul_is_distributive_add_other_way(divisor, dividend / divisor, 1);
}

/// A frequency equal to the sample rate steps through the whole table in
/// one frame, and one half of it through half the table.
pub proof fn lemma_step_at_sample_rate(table_len: nat, sample_rate: u32)
    requires
        is_positive_finite(sample_rate),
    ensures
        exact_step(table_len, sample_rate, sample_rate) == table_len,
{
    let divisor = (significand(sample_rate) * pow2(scale(sample_rate))) as int;
    lemma_pow2_pos(scale(sample_rate));
    lemma_mul_strictly_positive(significand(sample_rate) as int, pow2(scale(sample_rate)) as int);
    lemma_mul_is_associative(
        table_len as int,
        significand(sample_rate) as int,
        pow2(scale(sample_rate)) as int,
    );
    lemma_div_multiples_vanish(table_len as int, divisor);
    lemma_mul_is_commutative(table_len as int, divisor);
}

/// Computes the step of a phase cursor, reduced modulo the table's length.
///
/// Only the reduced step matters to a cursor that wraps at the table's end,
/// and unlike the step itself it always fits the machine word.
pub fn reduced_step(table_len: usize, frequency: u32, sample_rate: u32) -> (step: usize)
    requires
        table_len > 0,
    ensures
        step == exact_step(table_len as nat, frequency, sample_rate) % (table_len as nat),
        step < table_len,
{
    if !denotes_positive_finite(frequency) || !denotes_positive_finite(sample_rate) {
        proof {
            lemma_small_mod(0, table_len as nat);
        }
        return 0;
    }
    let (f, a) = decode(frequency);
    let (r, b) = decode(sample_rate);
    let len: u128 = table_len as u128;
    assert(len * (f as u128) < 0x100_0000_0000_0000_0000_0000) by (nonlinear_arith)
        requires
            len <= 0xffff_ffff_ffff_ffff,
            f < 0x100_0000,
    ;
    assert(0 < len * (r as u128) < 0x100_0000_0000_0000_0000_0000) by (nonlinear_arith)
        requires
            0 < len <= 0xffff_ffff_ffff_ffff,
            0 < r < 0x100_0000,
    ;
    let product: u128 = len * (f as u128);
    if a >= b {
        let doublings: u32 = a - b;
        let modulus: u128 = len * (r as u128);
        let mut residue: u128 = product % modulus;
        let mut done: u32 = 0;
        proof {
            lemma2_to64();
        }
        while done < doublings
            invariant
                done <= doublings,
                0 < modulus < 0x100_0000_0000_0000_0000_0000,
                residue == (product * pow2(done as nat)) % (modulus as int),
                residue < modulus,
            decreases doublings - done,
        {
            proof {
                let before = (product * pow2(done as nat)) as int;
                lemma_pow2_unfold((done + 1) as nat);
                lemma_mul_mod_noop_right(2, before, modulus as int);
                assert(2 * before == product * pow2((done + 1) as nat)) by (nonlinear_arith)
                    requires
                        before == product * pow2(done as nat),
                        pow2((done + 1) as nat) == 2 * pow2(done as nat),
                ;
            }
            residue = (2 * residue) % modulus;
            done = done + 1;
        }
        proof {
            lemma_step_scaled_up(table_len as nat, f as nat, a as nat, r as nat, b as nat);
            lemma_mul_is_commutative(r as int, table_len as int);
            lemma_quotient_mod(product as nat * pow2(doublings as nat), r as nat, table_len as nat);
            lemma_mod_bound((product as nat * pow2(doublings as nat) / (r as nat)) as int, table_len as int);
        }
        (residue / (r as u128)) as usize
    } else {
        let halvings: u32 = b - a;
        proof {
            lemma_step_scaled_down(table_len as nat, f as nat, a as nat, r as nat, b as nat);
        }
        if halvings >= 88 {
            proof {
                lemma_pow2_88();
                lemma_pow2_adds(88, (halvings - 88) as nat);
                lemma_pow2_pos((halvings - 88) as nat);
                assert(r * pow2(halvings as nat) >= 0x100_0000_0000_0000_0000_0000) by (nonlinear_arith)
                    requires
                        r >= 1,
                        pow2(halvings as nat) == pow2(88) * pow2((halvings - 88) as nat),
                        pow2(88) == 0x100_0000_0000_0000_0000_0000,
                        pow2((halvings - 88) as nat) >= 1,
                ;
                lemma_basic_div(product as int, (r * pow2(halvings as nat)) as int);
                lemma_small_mod(0, table_len as nat);
            }
            return 0;
        }
        let mut divisor: u128 = r as u128;
        let mut done: u32 = 0;
        proof {
            lemma2_to64();
        }
        while done < halvings
            invariant
                done <= halvings < 88,
                0 < r < 0x100_0000,
                divisor == r * pow2(done as nat),
            decreases halvings - done,
        {
            proof {
                lemma_pow2_88();
                lemma_pow2_unfold((done + 1) as nat);
                if done + 1 < 88 {
                    lemma_pow2_strictly_increases((done + 1) as nat, 88);
                }
                assert(2 * divisor == r * pow2((done + 1) as nat)
                    && 2 * divisor < 0x1_0000_0000_0000_0000_0000_0000_0000_0000) by (nonlinear_arith)
                    requires
                        divisor == r * pow2(done as nat),
                        pow2((done + 1) as nat) == 2 * pow2(done as nat),
                        pow2((done + 1) as nat) <= 0x100_0000_0000_0000_0000_0000,
                        0 < r < 0x100_0000,
                ;
            }
            divisor = 2 * divisor;
            done = done + 1;
        }
        proof {
            lemma_pow2_pos(halvings as nat);
            assert(divisor > 0) by (nonlinear_arith)
                requires
                    divisor == r * pow2(halvings as nat),
                    r > 0,
                    pow2(halvings as nat) > 0,
            ;
            lemma_mod_bound((product / divisor) as int, table_len as int);
        }
        ((product / divisor) % len) as usize
    }
}

} // verus!
