//! The waveforms that are exact on a phase held as a bit pattern, and the
//! numbering of all of them.

use vstd::prelude::*;
use vstd::arithmetic::power2::{lemma2_to64, lemma_pow2_pos, pow2};
use crate::scalar::{Scalar, HALF_BITS, MINUS_ONE_BITS, ONE_BITS, QUARTER_BITS};

verus! {

/// The number of samples in a custom waveform.
pub const CUSTOM_WIDTH: usize = 32;

/// How many binary places a phase is shifted up by to index a custom waveform:
/// `2^5` is the table's width.
pub const CUSTOM_SHIFT: u32 = 5;

pub const SINE: usize = 0;

pub const TRIANGLE: usize = 1;

pub const RECTIFIED_SINE: usize = 2;

pub const SAW: usize = 3;

pub const SQUARE: usize = 4;

pub const PULSE: usize = 5;

pub const NOISE: usize = 6;

pub const CUSTOM: usize = 7;

/// The largest waveform index.
pub const LAST_WAVEFORM: usize = 7;

/// One period of a waveform, as samples.
pub type CustomWaveform = [Scalar; CUSTOM_WIDTH];

/// A pulse that is `1.0` while the phase is below `duty` and `-1.0` otherwise
/// (also where the phase is a NaN).
pub open spec fn pulse_level(period: Scalar, duty: Scalar) -> Scalar {
    if period.below(duty) {
        Scalar::one()
    } else {
        Scalar::minus_one()
    }
}

/// The entry of a custom waveform that a phase selects: the whole part of the
/// phase times the table's width, and the first entry for a negative phase or
/// a NaN.
pub open spec fn table_index(period: Scalar) -> usize {
    period.floor_shifted(CUSTOM_SHIFT as nat)
}

/// A phase that is a NaN or lies strictly between `-1.0` and `1.0` selects an
/// entry of a custom waveform: the first one where it is negative or a NaN.
pub proof fn lemma_fractional_phase_selects_entry(period: Scalar)
    requires
        period.fractional(),
    ensures
        table_index(period) < CUSTOM_WIDTH,
{
    if !period.nan() {
        lemma2_to64();
        lemma_pow2_pos(149);
        let unit = pow2(149) as int;
        let num = period.scaled() * pow2(5);
        assert(num == period.scaled() * 32);
        assert(num / unit < 32) by (nonlinear_arith)
            requires
                num < 32 * unit,
                unit > 0,
        ;
    }
}

/// A pulse wave with a duty of 50%.
pub fn square(period: Scalar) -> (level: Scalar)
    ensures
        level == pulse_level(period, Scalar::half()),
        level == Scalar::one() || level == Scalar::minus_one(),
{
    if period.lt(Scalar { bits: HALF_BITS }) {
        Scalar { bits: ONE_BITS }
    } else {
        Scalar { bits: MINUS_ONE_BITS }
    }
}

/// A pulse wave with a duty of 25%.
pub fn pulse(period: Scalar) -> (level: Scalar)
    ensures
        level == pulse_level(period, Scalar::quarter()),
        level == Scalar::one() || level == Scalar::minus_one(),
{
    if period.lt(Scalar { bits: QUARTER_BITS }) {
        Scalar { bits: ONE_BITS }
    } else {
        Scalar { bits: MINUS_ONE_BITS }
    }
}

/// The index into a custom waveform that a phase selects.
pub fn custom_index(period: Scalar) -> (index: usize)
    ensures
        index == table_index(period),
{
    period.floor_to_usize(CUSTOM_SHIFT)
}

/// Samples a custom waveform at the given phase. The phase must select an
/// entry of the table, which every phase below one does.
pub fn custom(period: Scalar, data: &CustomWaveform) -> (level: Scalar)
    requires
        table_index(period) < CUSTOM_WIDTH,
    ensures
        level == data@[table_index(period) as int],
{
    let index: usize = custom_index(period);
    data[index]
}

} // verus!
