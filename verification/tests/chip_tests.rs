use lsynth::channel::{ChannelState, WaveformOutput};
use lsynth::chip::check_buffer;
use lsynth::errors::{InvalidChannelError, InvalidWaveformError, LSynthError, UnevenBufferSliceError};
use lsynth::scalar::Scalar;
use lsynth::{ChipGenerationData, ChipState, Command};

fn s(x: f32) -> Scalar {
    Scalar::from_bits(x.to_bits())
}

fn f(x: Scalar) -> f32 {
    f32::from_bits(x.to_bits())
}

/// One fill of a buffer of `buffer_len` samples, with the host's arithmetic
/// done here.
fn fill(chip: &mut ChipState, tick_frames: f32, buffer_len: usize) -> Result<ChipGenerationData, LSynthError> {
    check_buffer(buffer_len)?;
    if chip.tick_exhausted() {
        let owed = f(chip.remaining_frames()) + tick_frames;
        chip.set_remaining_frames(s(owed));
    }
    let frames = chip.frames_to_generate(buffer_len);
    let left = f(chip.remaining_frames()) - frames as f32;
    chip.set_remaining_frames(s(left));
    Ok(chip.generation_data(frames))
}

#[test]
fn new_chip_has_its_channels() {
    let chip = ChipState::new(4);
    assert_eq!(chip.channel_count(), 4);
    assert_eq!(f(chip.remaining_frames()), 0.0);
    let channel = chip.channel(3).unwrap();
    assert_eq!(f(channel.frequency), 440.0);
    assert!(chip.tick_exhausted());
}

#[test]
fn chip_without_channels() {
    let mut chip = ChipState::new(0);
    assert_eq!(chip.channel_count(), 0);
    assert_eq!(
        chip.send_command(Command::SetWaveform(1), 0),
        Err(LSynthError::InvalidChannel(InvalidChannelError {
            attempted_channel: 0,
            max_channels_of_chip: 0
        }))
    );
}

#[test]
fn send_command_reaches_only_the_addressed_channel() {
    let mut chip = ChipState::new(3);
    assert!(chip.send_command(Command::SetFrequency(s(110.0)), 1).is_ok());
    assert_eq!(f(chip.channel(0).unwrap().frequency), 440.0);
    assert_eq!(f(chip.channel(1).unwrap().frequency), 110.0);
    assert_eq!(f(chip.channel(2).unwrap().frequency), 440.0);
}

#[test]
fn send_command_to_a_missing_channel() {
    let mut chip = ChipState::new(4);
    let result = chip.send_command(Command::SetAmplitude(s(1.0)), 4);
    assert_eq!(
        result,
        Err(LSynthError::InvalidChannel(InvalidChannelError {
            attempted_channel: 4,
            max_channels_of_chip: 4
        }))
    );
    let result = chip.send_command(Command::SetAmplitude(s(1.0)), 17);
    assert_eq!(
        result,
        Err(LSynthError::InvalidChannel(InvalidChannelError {
            attempted_channel: 17,
            max_channels_of_chip: 4
        }))
    );
    let mut index = 0;
    while index < 4 {
        assert_eq!(f(chip.channel(index).unwrap().amplitude), 0.0);
        index += 1;
    }
}

#[test]
fn send_command_passes_on_an_invalid_waveform() {
    let mut chip = ChipState::new(2);
    assert_eq!(
        chip.send_command(Command::SetWaveform(12), 1),
        Err(LSynthError::InvalidWaveform(InvalidWaveformError { attempted_waveform: 12 }))
    );
    assert_eq!(chip.channel(1).unwrap().waveform, 0);
}

#[test]
fn channel_lookup_out_of_range() {
    let chip = ChipState::new(2);
    assert!(chip.channel(1).is_ok());
    assert!(matches!(
        chip.channel(2),
        Err(LSynthError::InvalidChannel(InvalidChannelError {
            attempted_channel: 2,
            max_channels_of_chip: 2
        }))
    ));
}

#[test]
fn store_channel_replaces_one_channel() {
    let mut chip = ChipState::new(2);
    let mut channel = chip.channel(1).unwrap();
    channel.period = s(0.5);
    assert!(chip.store_channel(1, channel).is_ok());
    assert_eq!(f(chip.channel(1).unwrap().period), 0.5);
    assert_eq!(f(chip.channel(0).unwrap().period), 0.0);
    assert_eq!(
        chip.store_channel(2, channel),
        Err(LSynthError::InvalidChannel(InvalidChannelError {
            attempted_channel: 2,
            max_channels_of_chip: 2
        }))
    );
}

#[test]
fn odd_buffer_is_refused() {
    assert_eq!(
        check_buffer(7),
        Err(LSynthError::UnevenBufferSlice(UnevenBufferSliceError { slice_length: 7 }))
    );
    assert_eq!(check_buffer(0), Ok(()));
    assert_eq!(check_buffer(1000), Ok(()));
    let mut chip = ChipState::new(1);
    let before = chip.remaining_frames();
    assert!(fill(&mut chip, 441.0, 999).is_err());
    assert_eq!(chip.remaining_frames(), before);
}

#[test]
fn frames_to_generate_is_bounded_by_tick_and_buffer() {
    let mut chip = ChipState::new(1);
    chip.set_remaining_frames(s(441.0));
    assert_eq!(chip.frames_to_generate(1000), 441);
    assert_eq!(chip.frames_to_generate(200), 100);
    assert_eq!(chip.frames_to_generate(0), 0);
    chip.set_remaining_frames(s(367.5));
    assert_eq!(chip.frames_to_generate(1000), 367);
    chip.set_remaining_frames(s(0.5));
    assert_eq!(chip.frames_to_generate(1000), 0);
    assert!(chip.tick_exhausted());
    chip.set_remaining_frames(s(1.0));
    assert!(!chip.tick_exhausted());
}

#[test]
fn generation_data_counts_samples() {
    let mut chip = ChipState::new(1);
    chip.set_remaining_frames(s(341.75));
    let data = chip.generation_data(100);
    assert_eq!(data, ChipGenerationData { generated: 200, remaining_samples: 682 });
    chip.set_remaining_frames(s(0.75));
    let data = chip.generation_data(441);
    assert_eq!(data.generated, 882);
    assert_eq!(data.remaining_samples, 0);
}

#[test]
fn tick_accounting_with_a_roomy_buffer() {
    let tick_frames = 44100.0f32 / 100.0;
    assert_eq!(tick_frames, 441.0);
    let mut chip = ChipState::new(1);
    let mut total = 0;
    let mut ticks = 0;
    let mut call = 0;
    while call < 1000 {
        let data = fill(&mut chip, tick_frames, 1000).unwrap();
        assert_eq!(data.generated % 2, 0);
        total += data.generated / 2;
        if data.remaining_samples == 0 {
            ticks += 1;
        }
        call += 1;
    }
    assert_eq!(ticks, 1000);
    assert_eq!(total, 441 * ticks);
}

#[test]
fn tick_accounting_with_a_small_buffer() {
    let mut chip = ChipState::new(1);
    let mut generated = Vec::new();
    let mut call = 0;
    while call < 10 {
        let data = fill(&mut chip, 441.0, 200).unwrap();
        generated.push((data.generated, data.remaining_samples));
        call += 1;
    }
    assert_eq!(
        generated,
        vec![
            (200, 682),
            (200, 482),
            (200, 282),
            (200, 82),
            (82, 0),
            (200, 682),
            (200, 482),
            (200, 282),
            (200, 82),
            (82, 0)
        ]
    );
}

#[test]
fn tick_accounting_carries_the_fraction() {
    let tick_frames = 44100.0f32 / 120.0;
    assert_eq!(tick_frames, 367.5);
    let mut chip = ChipState::new(1);
    let first = fill(&mut chip, tick_frames, 1000).unwrap();
    let second = fill(&mut chip, tick_frames, 1000).unwrap();
    assert_eq!(first.generated, 734);
    assert_eq!(second.generated, 736);
    let mut total = (first.generated + second.generated) / 2;
    let mut call = 2;
    while call < 240 {
        total += fill(&mut chip, tick_frames, 1000).unwrap().generated / 2;
        call += 1;
    }
    assert_eq!(total, 44100 * 2);
}

#[test]
fn square_wave_alternates_every_other_frame() {
    let mut chip = ChipState::new(1);
    chip.send_command(Command::SetWaveform(4), 0).unwrap();
    chip.send_command(Command::SetFrequency(s(2000.0)), 0).unwrap();
    chip.send_command(Command::ForceSetAmplitude(s(1.0)), 0).unwrap();
    chip.send_command(Command::ForceSetPanning(s(0.0)), 0).unwrap();
    let timestep = 1.0f32 / 8000.0;
    let tick_frames = 8000.0f32 / 8000.0;
    let mut levels = Vec::new();
    let mut call = 0;
    while call < 4 {
        let data = fill(&mut chip, tick_frames, 2).unwrap();
        assert_eq!(data, ChipGenerationData { generated: 2, remaining_samples: 0 });
        let mut channel: ChannelState = chip.channel(0).unwrap();
        let level = match channel.waveform_output() {
            WaveformOutput::Level(level) => f(level),
            _ => panic!("a square wave is a level"),
        };
        levels.push(level * f(channel.ramped_amplitude));
        let mut period = f(channel.period) + f(channel.frequency) * timestep;
        period -= period.floor();
        channel.period = s(period);
        chip.store_channel(0, channel).unwrap();
        call += 1;
    }
    assert_eq!(levels, vec![1.0, 1.0, -1.0, -1.0]);
}

/// One fill through the two ends of a fill, with the host's arithmetic done
/// here.
fn fill_in_two(chip: &mut ChipState, tick_frames: f32, buffer_len: usize) -> Result<ChipGenerationData, LSynthError> {
    let refilled = f(chip.remaining_frames()) + tick_frames;
    let frames = chip.begin_fill(buffer_len, s(refilled))?;
    let left = f(chip.remaining_frames()) - frames as f32;
    Ok(chip.finish_fill(frames, s(left)))
}

#[test]
fn begin_fill_refuses_an_odd_buffer_and_changes_nothing() {
    let mut chip = ChipState::new(2);
    chip.set_remaining_frames(s(0.25));
    assert_eq!(
        chip.begin_fill(513, s(441.25)),
        Err(LSynthError::UnevenBufferSlice(UnevenBufferSliceError { slice_length: 513 }))
    );
    assert_eq!(f(chip.remaining_frames()), 0.25);
}

#[test]
fn begin_fill_starts_a_tick_only_when_the_last_is_used_up() {
    let mut chip = ChipState::new(1);
    chip.set_remaining_frames(s(0.25));
    assert_eq!(chip.begin_fill(200, s(441.25)), Ok(100));
    assert_eq!(f(chip.remaining_frames()), 441.25);
    let data = chip.finish_fill(100, s(341.25));
    assert_eq!(data, ChipGenerationData { generated: 200, remaining_samples: 682 });
    assert_eq!(chip.begin_fill(2000, s(782.5)), Ok(341));
    assert_eq!(f(chip.remaining_frames()), 341.25);
    let data = chip.finish_fill(341, s(0.25));
    assert_eq!(data, ChipGenerationData { generated: 682, remaining_samples: 0 });
}

#[test]
fn a_tick_shorter_than_a_frame_produces_nothing_at_first() {
    let mut chip = ChipState::new(1);
    let first = fill_in_two(&mut chip, 0.5, 100).unwrap();
    assert_eq!(first, ChipGenerationData { generated: 0, remaining_samples: 0 });
    let second = fill_in_two(&mut chip, 0.5, 100).unwrap();
    assert_eq!(second, ChipGenerationData { generated: 2, remaining_samples: 0 });
}

#[test]
fn tick_accounting_has_no_drift() {
    let tick_frames = 44100.0f32 / 100.0;
    let mut chip = ChipState::new(1);
    let mut total = 0;
    let mut ticks = 0;
    let mut largest = 0;
    let mut call = 0;
    while call < 5000 {
        let data = fill_in_two(&mut chip, tick_frames, 1000).unwrap();
        total += data.generated / 2;
        if data.generated / 2 > largest {
            largest = data.generated / 2;
        }
        if data.remaining_samples == 0 {
            ticks += 1;
        }
        call += 1;
    }
    assert_eq!(total, 441 * ticks);
    assert!(largest <= 500);
}
