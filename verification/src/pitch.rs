//! Equal-tempered pitch: the frequency of a MIDI note as a single-precision
//! bit pattern.
//!
//! Note 21 (A0) sounds at 55/2 Hz and every semitone multiplies the frequency
//! by the twelfth root of two. The twelve frequencies of the octave above A0
//! are tabulated, each as the single-precision number nearest to it; any other
//! note is one of them moved by whole octaves, which only changes the exponent
//! field of the pattern.

use vstd::prelude::*;
use vstd::arithmetic::power2::*;
use crate::single::{biased_exponent, is_positive_finite, scale, significand};

verus! {

/// The pattern of the note that lies `semitone` semitones above A0, for a
/// semitone below twelve.
pub open spec fn semitone_pattern(semitone: nat) -> u32 {
    if semitone == 0 {
        0x41dc_0000
    } else if semitone == 1 {
        0x41e9_14f6
    } else if semitone == 2 {
        0x41f6_f110
    } else if semitone == 3 {
        0x4202_d013
    } else if semitone == 4 {
        0x420a_9760
    } else if semitone == 5 {
        0x4212_d517
    } else if semitone == 6 {
        0x421b_9041
    } else if semitone == 7 {
        0x4224_d054
    } else if semitone == 8 {
        0x422e_9d37
    } else if semitone == 9 {
        0x4238_ff49
    } else if semitone == 10 {
        0x4243_ff6a
    } else {
        0x424f_a700
    }
}

/// The frequency pattern of a MIDI note: the pattern of its semitone within
/// the octave, with the exponent field moved by the octave's distance from the
/// one that starts at A0. Note 0 lies two octaves below that one.
pub open spec fn note_pattern(note: u8) -> u32 {
    (semitone_pattern(((note + 3) % 12) as nat) + ((note + 3) / 12) * 0x80_0000 - 0x100_0000) as u32
}

/// The twelfth power of an integer.
pub open spec fn twelfth_power(x: int) -> int {
    let square = x * x;
    let sixth = square * square * square;
    sixth * sixth
}

/// Looks up the pattern of a semitone of the octave above A0.
pub fn semitone_frequency(semitone: u8) -> (bits: u32)
    requires
        semitone < 12,
    ensures
        bits == semitone_pattern(semitone as nat),
{
    match semitone {
        0 => 0x41dc_0000,
        1 => 0x41e9_14f6,
        2 => 0x41f6_f110,
        3 => 0x4202_d013,
        4 => 0x420a_9760,
        5 => 0x4212_d517,
        6 => 0x421b_9041,
        7 => 0x4224_d054,
        8 => 0x422e_9d37,
        9 => 0x4238_ff49,
        10 => 0x4243_ff6a,
        _ => 0x424f_a700,
    }
}

/// Computes the frequency of a MIDI note. Every note number has one: notes
/// outside the audible range are mapped like the others.
pub fn note_frequency(note: u8) -> (bits: u32)
    ensures
        bits == note_pattern(note),
        is_positive_finite(bits),
{
    let shifted: u32 = note as u32 + 3;
    let semitone: u8 = (shifted % 12) as u8;
    let octave: u32 = shifted / 12;
    semitone_frequency(semitone) + octave * 0x80_0000 - 0x100_0000
}

/// Concert pitch: note 69 (A4) sounds at exactly 440 Hz, and note 21 (A0) at
/// exactly 55/2 Hz.
pub proof fn lemma_reference_pitches()
    ensures
        note_pattern(69) == 0x43dc_0000,
        note_pattern(21) == 0x41dc_0000,
{
}

/// Every note is a tabulated semitone moved by whole octaves: it has the
/// semitone's significand, and its scale is the semitone's plus the number of
/// octaves between them. So every note is as close to its equal-tempered
/// frequency, in units in the last place, as its semitone is.
pub proof fn lemma_note_is_shifted_semitone(note: u8)
    ensures
        ({
            let semitone = semitone_pattern(((note + 3) % 12) as nat);
            &&& significand(note_pattern(note)) == significand(semitone)
            &&& scale(note_pattern(note)) + 2 == scale(semitone) + (note + 3) / 12
        }),
{
    let semitone = semitone_pattern(((note + 3) % 12) as nat);
    assert(131 <= biased_exponent(semitone) <= 132);
    assert(note_pattern(note) == semitone + ((note + 3) / 12) * 0x80_0000 - 0x100_0000);
}

/// A note one octave above another has twice its frequency: the significand
/// is the same and the scale is one more.
pub proof fn lemma_octave_doubles(note: u8)
    requires
        note <= 243,
    ensures
        significand(note_pattern((note + 12) as u8)) == significand(note_pattern(note)),
        scale(note_pattern((note + 12) as u8)) == scale(note_pattern(note)) + 1,
{
    let low = note_pattern(note);
    let high = note_pattern((note + 12) as u8);
    assert(high == low + 0x80_0000);
    assert(biased_exponent(low) >= 129);
}

/// A higher note has a higher frequency.
pub proof fn lemma_pitch_rises(note: u8)
    requires
        note < 255,
    ensures
        note_pattern(note) < note_pattern((note + 1) as u8),
{
}

/// Each tabulated pattern is the single-precision number nearest to the
/// equal-tempered frequency. With `m` the significand and `s` the scale of the
/// pattern, its neighbours half a unit in the last place away are
/// `(2m - 1) * 2^(s - 151)` and `(2m + 1) * 2^(s - 151)`, and the twelfth
/// power of the true frequency is `(55/2)^12 * 2^semitone`. Cleared of
/// fractions, the true frequency lies between the two neighbours.
pub proof fn lemma_semitone_nearest(semitone: nat)
    requires
        semitone < 12,
    ensures
        ({
            let bits = semitone_pattern(semitone);
            let m = significand(bits) as int;
            let target = twelfth_power(55 * (pow2((150 - scale(bits)) as nat) as int)) * pow2(semitone);
            twelfth_power(2 * m - 1) <= target <= twelfth_power(2 * m + 1)
        }),
{
    lemma2_to64();
    if semitone == 0 {
        assert(significand(semitone_pattern(0)) == 14417920 && scale(semitone_pattern(0)) == 131);
        assert(twelfth_power(28835839int) <= twelfth_power(28835840int) * 1int) by (nonlinear_arith);
        assert(twelfth_power(28835840int) * 1int <= twelfth_power(28835841int)) by (nonlinear_arith);
    } else if semitone == 1 {
        assert(significand(semitone_pattern(1)) == 15275254 && scale(semitone_pattern(1)) == 131);
        assert(twelfth_power(30550507int) <= twelfth_power(28835840int) * 2int) by (nonlinear_arith);
        assert(twelfth_power(28835840int) * 2int <= twelfth_power(30550509int)) by (nonlinear_arith);
    } else if semitone == 2 {
        assert(significand(semitone_pattern(2)) == 16183568 && scale(semitone_pattern(2)) == 131);
        assert(twelfth_power(32367135int) <= twelfth_power(28835840int) * 4int) by (nonlinear_arith);
        assert(twelfth_power(28835840int) * 4int <= twelfth_power(32367137int)) by (nonlinear_arith);
    } else if semitone == 3 {
        assert(significand(semitone_pattern(3)) == 8572947 && scale(semitone_pattern(3)) == 132);
        assert(twelfth_power(17145893int) <= twelfth_power(14417920int) * 8int) by (nonlinear_arith);
        assert(twelfth_power(14417920int) * 8int <= twelfth_power(17145895int)) by (nonlinear_arith);
    } else if semitone == 4 {
        assert(significand(semitone_pattern(4)) == 9082720 && scale(semitone_pattern(4)) == 132);
        assert(twelfth_power(18165439int) <= twelfth_power(14417920int) * 16int) by (nonlinear_arith);
        assert(twelfth_power(14417920int) * 16int <= twelfth_power(18165441int)) by (nonlinear_arith);
    } else if semitone == 5 {
        assert(significand(semitone_pattern(5)) == 9622807 && scale(semitone_pattern(5)) == 132);
        assert(twelfth_power(19245613int) <= twelfth_power(14417920int) * 32int) by (nonlinear_arith);
        assert(twelfth_power(14417920int) * 32int <= twelfth_power(19245615int)) by (nonlinear_arith);
    } else if semitone == 6 {
        assert(significand(semitone_pattern(6)) == 10195009 && scale(semitone_pattern(6)) == 132);
        assert(twelfth_power(20390017int) <= twelfth_power(14417920int) * 64int) by (nonlinear_arith);
        assert(twelfth_power(14417920int) * 64int <= twelfth_power(20390019int)) by (nonlinear_arith);
    } else if semitone == 7 {
        assert(significand(semitone_pattern(7)) == 10801236 && scale(semitone_pattern(7)) == 132);
        assert(twelfth_power(21602471int) <= twelfth_power(14417920int) * 128int) by (nonlinear_arith);
        assert(twelfth_power(14417920int) * 128int <= twelfth_power(21602473int)) by (nonlinear_arith);
    } else if semitone == 8 {
        assert(significand(semitone_pattern(8)) == 11443511 && scale(semitone_pattern(8)) == 132);
        assert(twelfth_power(22887021int) <= twelfth_power(14417920int) * 256int) by (nonlinear_arith);
        assert(twelfth_power(14417920int) * 256int <= twelfth_power(22887023int)) by (nonlinear_arith);
    } else if semitone == 9 {
        assert(significand(semitone_pattern(9)) == 12123977 && scale(semitone_pattern(9)) == 132);
        assert(twelfth_power(24247953int) <= twelfth_power(14417920int) * 512int) by (nonlinear_arith);
        assert(twelfth_power(14417920int) * 512int <= twelfth_power(24247955int)) by (nonlinear_arith);
    } else if semitone == 10 {
        assert(significand(semitone_pattern(10)) == 12844906 && scale(semitone_pattern(10)) == 132);
        assert(twelfth_power(25689811int) <= twelfth_power(14417920int) * 1024int) by (nonlinear_arith);
        assert(twelfth_power(14417920int) * 1024int <= twelfth_power(25689813int)) by (nonlinear_arith);
    } else {
        assert(significand(semitone_pattern(11)) == 13608704 && scale(semitone_pattern(11)) == 132);
        assert(twelfth_power(27217407int) <= twelfth_power(14417920int) * 2048int) by (nonlinear_arith);
        assert(twelfth_power(14417920int) * 2048int <= twelfth_power(27217409int)) by (nonlinear_arith);
    }
}

} // verus!
