//! The instructions that a channel takes.

use vstd::prelude::*;
use crate::scalar::Scalar;
use crate::waveform::CustomWaveform;

verus! {

/// An instruction for one channel.
#[derive(Clone, Copy, Debug)]
pub enum Command {
    /// Selects the waveform by its index, from 0 (sine) to 7 (custom).
    SetWaveform(usize),
    /// Sets the frequency in hertz.
    SetFrequency(Scalar),
    /// Sets the amplitude on a scale of 0..1; the audible amplitude follows.
    SetAmplitude(Scalar),
    /// Sets the panning on a scale of -1..1; the audible panning follows.
    SetPanning(Scalar),
    /// Replaces the custom waveform.
    SetCustomWaveform(CustomWaveform),
    /// Sets the phase of the oscillator.
    SetPhase(Scalar),
    /// Sets the amplitude and the audible amplitude at once.
    ForceSetAmplitude(Scalar),
    /// Sets the panning and the audible panning at once.
    ForceSetPanning(Scalar),
    /// Glides the frequency to a target at a rate in hertz per second.
    FrequencySlide(Scalar, Scalar),
    /// Glides the amplitude to a target at a rate in units per second.
    AmplitudeSlide(Scalar, Scalar),
    /// Glides the panning to a target at a rate in units per second.
    PanningSlide(Scalar, Scalar),
}

} // verus!
