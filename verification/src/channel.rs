//! The state of one oscillator channel, and the commands that change it.

use vstd::prelude::*;
use crate::command::Command;
use crate::errors::{InvalidWaveformError, LSynthError};
use crate::scalar::{
    lemma_constants, Scalar, HALF_BITS, MINUS_ONE_BITS, ONE_BITS, ZERO_BITS,
};
use crate::waveform::{
    custom, lemma_fractional_phase_selects_entry, pulse, pulse_level, square, table_index,
    CustomWaveform, CUSTOM, CUSTOM_WIDTH,
    LAST_WAVEFORM, NOISE, PULSE, RECTIFIED_SINE, SAW, SINE, SQUARE, TRIANGLE,
};

verus! {

/// The pattern of `440.0`, the frequency that a channel starts with.
pub const INITIAL_FREQUENCY_BITS: u32 = 0x43dc_0000;

/// The pattern of `500.0`: how fast, in units per second, the audible
/// amplitude and panning follow the set ones.
pub const RAMPING_RATE_BITS: u32 = 0x43fa_0000;

/// The pattern of `10000.0`: how strongly, per second, the noise walk is pulled
/// back to zero.
pub const BROWNIAN_LEAK_BITS: u32 = 0x461c_4000;

/// Everything that a channel needs in order to be sampled.
#[derive(Clone, Copy, Debug)]
pub struct ChannelState {
    /// The progress along the waveform on a scale of 0..1; for noise, the
    /// progress towards the next noise sample.
    pub period: Scalar,
    /// The index of the waveform in use.
    pub waveform: usize,
    /// The custom waveform that is loaded.
    pub custom_waveform: CustomWaveform,
    /// The frequency in hertz.
    pub frequency: Scalar,
    /// The amplitude on a scale of 0..1.
    pub amplitude: Scalar,
    /// The panning on a scale of -1..1.
    pub panning: Scalar,
    /// The amplitude that is heard; it follows `amplitude`.
    pub ramped_amplitude: Scalar,
    /// The panning that is heard; it follows `panning`.
    pub ramped_panning: Scalar,
    /// The frequency that the channel glides to.
    pub frequency_slide_target: Scalar,
    /// The amplitude that the channel glides to.
    pub amplitude_slide_target: Scalar,
    /// The panning that the channel glides to.
    pub panning_slide_target: Scalar,
    /// The speed of the frequency glide in hertz per second.
    pub frequency_rate: Scalar,
    /// The speed of the amplitude glide in units per second.
    pub amplitude_rate: Scalar,
    /// The speed of the panning glide in units per second.
    pub panning_rate: Scalar,
    /// The noise sample that is held until the period elapses.
    pub noise_sample: Scalar,
}

/// A channel as a mathematical value: its fields, the custom waveform as a
/// sequence.
pub ghost struct ChannelModel {
    pub period: Scalar,
    pub waveform: usize,
    pub custom_waveform: Seq<Scalar>,
    pub frequency: Scalar,
    pub amplitude: Scalar,
    pub panning: Scalar,
    pub ramped_amplitude: Scalar,
    pub ramped_panning: Scalar,
    pub frequency_slide_target: Scalar,
    pub amplitude_slide_target: Scalar,
    pub panning_slide_target: Scalar,
    pub frequency_rate: Scalar,
    pub amplitude_rate: Scalar,
    pub panning_rate: Scalar,
    pub noise_sample: Scalar,
}

/// What a channel puts out before amplitude and panning are applied: either a
/// level that is known exactly, or a waveform that takes arithmetic, with the
/// phase to evaluate it at.
#[derive(Clone, Copy, Debug, PartialEq, Eq, Structural)]
pub enum WaveformOutput {
    /// The sample itself.
    Level(Scalar),
    /// The sine of the phase times a full turn.
    Sine(Scalar),
    /// One minus four times the distance of the phase from one half.
    Triangle(Scalar),
    /// Twice the sine of the phase times a full turn, minus one.
    RectifiedSine(Scalar),
    /// Twice the phase, minus one.
    Saw(Scalar),
}

/// A value that is not below `0.0` and not above `1.0`.
pub open spec fn unit_ranged(x: Scalar) -> bool {
    !x.below(Scalar::zero()) && !Scalar::one().below(x)
}

/// A value that is not below `-1.0` and not above `1.0`.
pub open spec fn signed_ranged(x: Scalar) -> bool {
    !x.below(Scalar::minus_one()) && !Scalar::one().below(x)
}

/// A custom waveform with each sample held to the range from `-1.0` to `1.0`.
pub open spec fn clamp_table(table: Seq<Scalar>) -> Seq<Scalar> {
    Seq::new(table.len(), |i: int| table[i].clamped(Scalar::minus_one(), Scalar::one()))
}

/// The change that a slew limiter lets through: `delta` held to the range from
/// `-|max_delta|` to `|max_delta|`.
pub open spec fn limited(delta: Scalar, max_delta: Scalar) -> Scalar {
    delta.smaller(max_delta.absolute()).larger(max_delta.absolute().negated())
}

impl ChannelModel {
    /// A channel as it is created: a silent, centred sine at 440 Hz.
    pub open spec fn initial() -> ChannelModel {
        ChannelModel {
            period: Scalar::zero(),
            waveform: SINE,
            custom_waveform: Seq::new(CUSTOM_WIDTH as nat, |i: int| Scalar::zero()),
            frequency: Scalar { bits: INITIAL_FREQUENCY_BITS },
            amplitude: Scalar::zero(),
            panning: Scalar::zero(),
            ramped_amplitude: Scalar::zero(),
            ramped_panning: Scalar::zero(),
            frequency_slide_target: Scalar { bits: INITIAL_FREQUENCY_BITS },
            amplitude_slide_target: Scalar::zero(),
            panning_slide_target: Scalar::zero(),
            frequency_rate: Scalar::zero(),
            amplitude_rate: Scalar::zero(),
            panning_rate: Scalar::zero(),
            noise_sample: Scalar::zero(),
        }
    }

    /// The ranges that commands keep the parameters in.
    pub open spec fn wf(self) -> bool {
        &&& self.waveform <= LAST_WAVEFORM
        &&& self.custom_waveform.len() == CUSTOM_WIDTH
        &&& forall|i: int|
            0 <= i < self.custom_waveform.len() ==> signed_ranged(#[trigger] self.custom_waveform[i])
        &&& unit_ranged(self.amplitude)
        &&& unit_ranged(self.ramped_amplitude)
        &&& unit_ranged(self.amplitude_slide_target)
        &&& signed_ranged(self.panning)
        &&& signed_ranged(self.ramped_panning)
        &&& signed_ranged(self.panning_slide_target)
        &&& Scalar::zero().at_most(self.frequency)
        &&& Scalar::zero().at_most(self.frequency_slide_target)
    }

    /// Whether a command is refused: only the choice of a waveform that does
    /// not exist is.
    pub open spec fn refuses(command: Command) -> bool {
        match command {
            Command::SetWaveform(index) => index > LAST_WAVEFORM,
            _ => false,
        }
    }

    /// The channel after a command that is not refused.
    pub open spec fn applied(self, command: Command) -> ChannelModel {
        match command {
            Command::ForceSetAmplitude(value) => {
                let v = value.clamped(Scalar::zero(), Scalar::one());
                ChannelModel { amplitude: v, ramped_amplitude: v, amplitude_slide_target: v, ..self }
            },
            Command::SetAmplitude(value) => {
                let v = value.clamped(Scalar::zero(), Scalar::one());
                ChannelModel { amplitude: v, amplitude_slide_target: v, ..self }
            },
            Command::AmplitudeSlide(value, rate) => {
                let v = value.clamped(Scalar::zero(), Scalar::one());
                ChannelModel { amplitude_slide_target: v, amplitude_rate: rate, ..self }
            },
            Command::SetFrequency(value) => {
                let v = value.larger(Scalar::zero());
                ChannelModel { frequency: v, frequency_slide_target: v, ..self }
            },
            Command::FrequencySlide(value, rate) => {
                let v = value.larger(Scalar::zero());
                ChannelModel { frequency_slide_target: v, frequency_rate: rate, ..self }
            },
            Command::ForceSetPanning(value) => {
                let v = value.clamped(Scalar::minus_one(), Scalar::one());
                ChannelModel { panning: v, ramped_panning: v, panning_slide_target: v, ..self }
            },
            Command::SetPanning(value) => {
                let v = value.clamped(Scalar::minus_one(), Scalar::one());
                ChannelModel { panning: v, panning_slide_target: v, ..self }
            },
            Command::PanningSlide(value, rate) => {
                let v = value.clamped(Scalar::minus_one(), Scalar::one());
                ChannelModel { panning_slide_target: v, panning_rate: rate, ..self }
            },
            Command::SetWaveform(index) => ChannelModel { waveform: index, ..self },
            Command::SetCustomWaveform(table) => ChannelModel {
                custom_waveform: clamp_table(table@),
                ..self
            },
            Command::SetPhase(phase) => ChannelModel { period: phase.fraction(), ..self },
        }
    }

    /// Whether the channel can be sampled: a custom waveform needs a phase
    /// that selects one of its entries.
    pub open spec fn samplable(self) -> bool {
        self.waveform == CUSTOM ==> table_index(self.period) < self.custom_waveform.len()
    }

    /// What the channel puts out before amplitude and panning are applied.
    pub open spec fn output(self) -> WaveformOutput {
        if self.waveform == SINE {
            WaveformOutput::Sine(self.period)
        } else if self.waveform == TRIANGLE {
            WaveformOutput::Triangle(self.period)
        } else if self.waveform == RECTIFIED_SINE {
            if self.period.below(Scalar::half()) {
                WaveformOutput::RectifiedSine(self.period)
            } else {
                WaveformOutput::Level(Scalar::minus_one())
            }
        } else if self.waveform == SAW {
            WaveformOutput::Saw(self.period)
        } else if self.waveform == SQUARE {
            WaveformOutput::Level(pulse_level(self.period, Scalar::half()))
        } else if self.waveform == PULSE {
            WaveformOutput::Level(pulse_level(self.period, Scalar::quarter()))
        } else if self.waveform == NOISE {
            WaveformOutput::Level(self.noise_sample)
        } else if self.waveform == CUSTOM {
            WaveformOutput::Level(self.custom_waveform[table_index(self.period) as int])
        } else {
            WaveformOutput::Level(Scalar::zero())
        }
    }
}

impl View for ChannelState {
    type V = ChannelModel;

    open spec fn view(&self) -> ChannelModel {
        ChannelModel {
            period: self.period,
            waveform: self.waveform,
            custom_waveform: self.custom_waveform@,
            frequency: self.frequency,
            amplitude: self.amplitude,
            panning: self.panning,
            ramped_amplitude: self.ramped_amplitude,
            ramped_panning: self.ramped_panning,
            frequency_slide_target: self.frequency_slide_target,
            amplitude_slide_target: self.amplitude_slide_target,
            panning_slide_target: self.panning_slide_target,
            frequency_rate: self.frequency_rate,
            amplitude_rate: self.amplitude_rate,
            panning_rate: self.panning_rate,
            noise_sample: self.noise_sample,
        }
    }
}

/// Clamps every sample of a custom waveform to the range from `-1.0` to `1.0`.
pub fn clamp_waveform(table: CustomWaveform) -> (clamped: CustomWaveform)
    ensures
        clamped@ == clamp_table(table@),
{
    let lo = Scalar { bits: MINUS_ONE_BITS };
    let hi = Scalar { bits: ONE_BITS };
    let mut result = table;
    let mut i: usize = 0;
    proof {
        lemma_constants();
    }
    while i < CUSTOM_WIDTH
        invariant
            i <= CUSTOM_WIDTH,
            lo == Scalar::minus_one(),
            hi == Scalar::one(),
            lo.at_most(hi),
            forall|j: int| 0 <= j < i ==> result@[j] == (#[trigger] table@[j]).clamped(lo, hi),
            forall|j: int| i <= j < CUSTOM_WIDTH ==> result@[j] == #[trigger] table@[j],
        decreases CUSTOM_WIDTH - i,
    {
        let v = result[i].clamp(lo, hi);
        result[i] = v;
        i = i + 1;
    }
    assert(result@ =~= clamp_table(table@));
    result
}

/// The change that a slew limiter lets through when `delta` is asked for and
/// at most `|max_delta|` is allowed either way.
pub fn slew_limit(delta: Scalar, max_delta: Scalar) -> (change: Scalar)
    ensures
        change == limited(delta, max_delta),
        !max_delta.nan() && !delta.nan() ==> change.within(
            max_delta.absolute().negated(),
            max_delta.absolute(),
        ),
        delta.within(max_delta.absolute().negated(), max_delta.absolute()) ==> change == delta,
{
    let bound = max_delta.abs();
    let low = bound.neg();
    delta.min(bound).max(low)
}

impl ChannelState {
    /// Creates a channel: a silent, centred sine at 440 Hz.
    pub fn new() -> (channel: ChannelState)
        ensures
            channel@ == ChannelModel::initial(),
            channel@.wf(),
    {
        let zero = Scalar { bits: ZERO_BITS };
        let start = Scalar { bits: INITIAL_FREQUENCY_BITS };
        let channel = ChannelState {
            period: zero,
            waveform: SINE,
            custom_waveform: [zero; CUSTOM_WIDTH],
            frequency: start,
            amplitude: zero,
            panning: zero,
            ramped_amplitude: zero,
            ramped_panning: zero,
            frequency_slide_target: start,
            amplitude_slide_target: zero,
            panning_slide_target: zero,
            frequency_rate: zero,
            amplitude_rate: zero,
            panning_rate: zero,
            noise_sample: zero,
        };
        proof {
            lemma_constants();
            assert(channel@.custom_waveform =~= ChannelModel::initial().custom_waveform);
        }
        channel
    }

    /// What the channel puts out in its current state, before amplitude and
    /// panning are applied.
    pub fn waveform_output(&self) -> (output: WaveformOutput)
        requires
            self@.samplable(),
        ensures
            output == self@.output(),
    {
        if self.waveform == SINE {
            WaveformOutput::Sine(self.period)
        } else if self.waveform == TRIANGLE {
            WaveformOutput::Triangle(self.period)
        } else if self.waveform == RECTIFIED_SINE {
            if self.period.lt(Scalar { bits: HALF_BITS }) {
                WaveformOutput::RectifiedSine(self.period)
            } else {
                WaveformOutput::Level(Scalar { bits: MINUS_ONE_BITS })
            }
        } else if self.waveform == SAW {
            WaveformOutput::Saw(self.period)
        } else if self.waveform == SQUARE {
            WaveformOutput::Level(square(self.period))
        } else if self.waveform == PULSE {
            WaveformOutput::Level(pulse(self.period))
        } else if self.waveform == NOISE {
            WaveformOutput::Level(self.noise_sample)
        } else if self.waveform == CUSTOM {
            WaveformOutput::Level(custom(self.period, &self.custom_waveform))
        } else {
            WaveformOutput::Level(Scalar { bits: ZERO_BITS })
        }
    }

    /// Whether a channel whose phase has grown to `period` is due a new noise
    /// sample: it plays noise, and the phase has reached one.
    pub fn noise_due(&self, period: Scalar) -> (due: bool)
        ensures
            due == (self.waveform == NOISE && Scalar::one().at_most(period)),
    {
        self.waveform == NOISE && Scalar { bits: ONE_BITS }.le(period)
    }

    /// Executes a command at once. A waveform index above 7 is refused and
    /// leaves the channel as it was; every other command is applied. A phase
    /// that was set selects an entry of the custom waveform, whatever was sent.
    pub fn execute_command(&mut self, command: Command) -> (result: Result<(), LSynthError>)
        ensures
            ChannelModel::refuses(command) ==> final(self)@ == old(self)@ && match command {
                Command::SetWaveform(index) => result == Err::<(), LSynthError>(
                    LSynthError::InvalidWaveform(InvalidWaveformError { attempted_waveform: index }),
                ),
                _ => false,
            },
            !ChannelModel::refuses(command) ==> result.is_ok() && final(self)@ == old(self)@.applied(
                command,
            ),
            old(self)@.wf() ==> final(self)@.wf(),
            (command is SetPhase) ==> table_index(final(self)@.period) < CUSTOM_WIDTH,
    {
        let zero = Scalar { bits: ZERO_BITS };
        let one = Scalar { bits: ONE_BITS };
        let minus_one = Scalar { bits: MINUS_ONE_BITS };
        proof {
            lemma_constants();
        }
        match command {
            Command::ForceSetAmplitude(value) => {
                let value = value.clamp(zero, one);
                self.amplitude = value;
                self.ramped_amplitude = value;
                self.amplitude_slide_target = value;
            },
            Command::SetAmplitude(value) => {
                let value = value.clamp(zero, one);
                self.amplitude = value;
                self.amplitude_slide_target = value;
            },
            Command::AmplitudeSlide(value, rate) => {
                let value = value.clamp(zero, one);
                self.amplitude_slide_target = value;
                self.amplitude_rate = rate;
            },
            Command::SetFrequency(value) => {
                let value = value.max(zero);
                self.frequency = value;
                self.frequency_slide_target = value;
            },
            Command::FrequencySlide(value, rate) => {
                let value = value.max(zero);
                self.frequency_slide_target = value;
                self.frequency_rate = rate;
            },
            Command::ForceSetPanning(value) => {
                let value = value.clamp(minus_one, one);
                self.panning = value;
                self.ramped_panning = value;
                self.panning_slide_target = value;
            },
            Command::SetPanning(value) => {
                let value = value.clamp(minus_one, one);
                self.panning = value;
                self.panning_slide_target = value;
            },
            Command::PanningSlide(value, rate) => {
                let value = value.clamp(minus_one, one);
                self.panning_slide_target = value;
                self.panning_rate = rate;
            },
            Command::SetWaveform(value) => {
                if value > LAST_WAVEFORM {
                    return Err(
                        LSynthError::InvalidWaveform(
                            InvalidWaveformError { attempted_waveform: value },
                        ),
                    );
                } else {
                    self.waveform = value;
                }
            },
            Command::SetCustomWaveform(waveform) => {
                self.custom_waveform = clamp_waveform(waveform);
            },
            Command::SetPhase(period) => {
                self.period = period.rem_one();
                proof {
                    lemma_fractional_phase_selects_entry(self.period);
                }
            },
        }
        Ok(())
    }
}

} // verus!
