//! What holds of commands and sampling, whatever the channel.

use vstd::prelude::*;
use vstd::arithmetic::div_mod::lemma_div_by_multiple;
use vstd::arithmetic::power2::{lemma2_to64, lemma_pow2_adds, lemma_pow2_pos, pow2};
use crate::channel::{limited, ChannelModel, WaveformOutput};
use crate::command::Command;
use crate::scalar::{lemma_constants, Scalar};
use crate::waveform::{table_index, CustomWaveform, CUSTOM, CUSTOM_WIDTH, PULSE, SQUARE};

verus! {

/// A forced amplitude in the range from 0 to 1 is the amplitude that is heard
/// from the next sample on, with no ramp. A set amplitude becomes the current
/// amplitude and leaves the heard one where it was, to follow.
pub proof fn lemma_forced_amplitude_is_immediate(channel: ChannelModel, amplitude: Scalar)
    requires
        amplitude.within(Scalar::zero(), Scalar::one()),
    ensures
        channel.applied(Command::ForceSetAmplitude(amplitude)).ramped_amplitude == amplitude,
        channel.applied(Command::ForceSetAmplitude(amplitude)).amplitude == amplitude,
        channel.applied(Command::SetAmplitude(amplitude)).amplitude == amplitude,
        channel.applied(Command::SetAmplitude(amplitude)).ramped_amplitude
            == channel.ramped_amplitude,
{
}

/// A forced panning in the range from -1 to 1 is the panning that is heard
/// from the next sample on. A set panning leaves the heard one where it was.
pub proof fn lemma_forced_panning_is_immediate(channel: ChannelModel, panning: Scalar)
    requires
        panning.within(Scalar::minus_one(), Scalar::one()),
    ensures
        channel.applied(Command::ForceSetPanning(panning)).ramped_panning == panning,
        channel.applied(Command::ForceSetPanning(panning)).panning == panning,
        channel.applied(Command::SetPanning(panning)).panning == panning,
        channel.applied(Command::SetPanning(panning)).ramped_panning == channel.ramped_panning,
{
}

/// Whatever number a command carries, the parameter that it sets is a number
/// in that parameter's range: amplitudes from 0 to 1, pannings from -1 to 1,
/// frequencies not below 0. A frequency is a number even where a NaN was sent.
pub proof fn lemma_commands_clamp(channel: ChannelModel, value: Scalar, rate: Scalar)
    ensures
        !value.nan() ==> {
            &&& channel.applied(Command::SetAmplitude(value)).amplitude.within(
                Scalar::zero(),
                Scalar::one(),
            )
            &&& channel.applied(Command::ForceSetAmplitude(value)).ramped_amplitude.within(
                Scalar::zero(),
                Scalar::one(),
            )
            &&& channel.applied(Command::AmplitudeSlide(value, rate)).amplitude_slide_target.within(
                Scalar::zero(),
                Scalar::one(),
            )
            &&& channel.applied(Command::SetPanning(value)).panning.within(
                Scalar::minus_one(),
                Scalar::one(),
            )
            &&& channel.applied(Command::ForceSetPanning(value)).ramped_panning.within(
                Scalar::minus_one(),
                Scalar::one(),
            )
            &&& channel.applied(Command::PanningSlide(value, rate)).panning_slide_target.within(
                Scalar::minus_one(),
                Scalar::one(),
            )
        },
        Scalar::zero().at_most(channel.applied(Command::SetFrequency(value)).frequency),
        Scalar::zero().at_most(
            channel.applied(Command::FrequencySlide(value, rate)).frequency_slide_target,
        ),
{
    lemma_constants();
}

/// A slew limiter never turns a change round and never lets through more than
/// was asked for: the change it gives lies between zero and `delta`.
pub proof fn lemma_slew_limit_never_overshoots(delta: Scalar, max_delta: Scalar)
    requires
        !delta.nan(),
        !max_delta.nan(),
    ensures
        !limited(delta, max_delta).nan(),
        delta.scaled() >= 0 ==> 0 <= limited(delta, max_delta).scaled() <= delta.scaled(),
        delta.scaled() <= 0 ==> delta.scaled() <= limited(delta, max_delta).scaled() <= 0,
{
    let bound = max_delta.absolute();
    let low = bound.negated();
    assert(bound.magnitude() == max_delta.magnitude());
    assert(low.magnitude() == max_delta.magnitude());
    assert(!bound.negative());
    assert(bound.scaled() >= 0);
    assert(low.scaled() == -bound.scaled());
}

/// Setting the same frequency twice leaves the channel in the state that
/// setting it once does, so everything that follows is the same.
pub proof fn lemma_set_frequency_is_idempotent(channel: ChannelModel, frequency: Scalar)
    ensures
        channel.applied(Command::SetFrequency(frequency)).applied(
            Command::SetFrequency(frequency),
        ) == channel.applied(Command::SetFrequency(frequency)),
{
    lemma_constants();
}

/// Sending any command twice leaves the channel in the state that sending it
/// once does: what a command sets depends on the command alone.
pub proof fn lemma_repeated_command_changes_nothing(channel: ChannelModel, command: Command)
    ensures
        channel.applied(command).applied(command) == channel.applied(command),
{
}

/// A phase of exactly `i / 32` selects entry `i` of a custom waveform.
pub proof fn lemma_table_index_of_step(period: Scalar, i: int)
    requires
        0 <= i < CUSTOM_WIDTH,
        !period.nan(),
        period.scaled() * 32 == i * pow2(149),
    ensures
        table_index(period) == i,
{
    lemma2_to64();
    lemma_pow2_adds(5, 144);
    lemma_pow2_adds(144, 5);
    lemma_pow2_pos(144);
    lemma_pow2_pos(149);
    let unit = pow2(149) as int;
    assert(period.scaled() * pow2(5) == i * unit);
    lemma_div_by_multiple(i, unit);
}

/// After a custom waveform is loaded, the custom waveform sampled at the phase
/// `i / 32` is entry `i` of what was loaded, held to the range from -1 to 1.
pub proof fn lemma_custom_waveform_round_trip(
    channel: ChannelModel,
    table: CustomWaveform,
    period: Scalar,
    i: int,
)
    requires
        0 <= i < CUSTOM_WIDTH,
        !period.nan(),
        period.scaled() * 32 == i * pow2(149),
    ensures
        ({
            let loaded = channel.applied(Command::SetCustomWaveform(table));
            let sampled = ChannelModel { waveform: CUSTOM, period: period, ..loaded };
            &&& sampled.samplable()
            &&& sampled.output() == WaveformOutput::Level(
                table@[i].clamped(Scalar::minus_one(), Scalar::one()),
            )
        }),
{
    lemma_table_index_of_step(period, i);
}

/// The square and the pulse wave put out `1.0` or `-1.0` at every phase, so a
/// level in the range from -1 to 1.
pub proof fn lemma_pulse_waves_are_bounded(channel: ChannelModel)
    requires
        channel.waveform == SQUARE || channel.waveform == PULSE,
    ensures
        channel.output() == WaveformOutput::Level(Scalar::one()) || channel.output()
            == WaveformOutput::Level(Scalar::minus_one()),
        match channel.output() {
            WaveformOutput::Level(level) => level.within(Scalar::minus_one(), Scalar::one()),
            _ => false,
        },
{
    lemma_constants();
}

} // verus!
