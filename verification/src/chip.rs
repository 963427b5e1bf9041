//! The chip: a fixed bank of channels and the frames that the current tick
//! still owes.

use vstd::prelude::*;
use crate::channel::{ChannelModel, ChannelState};
use crate::command::Command;
use crate::errors::{
    InvalidChannelError, InvalidWaveformError, LSynthError, UnevenBufferSliceError,
};
use crate::scalar::{Scalar, ONE_BITS, ZERO_BITS};

verus! {

/// What one fill of a buffer did.
#[derive(Clone, Copy, Debug, PartialEq, Eq, Structural)]
pub struct ChipGenerationData {
    /// How many samples were generated.
    pub generated: usize,
    /// How many samples were left in the tick when generation stopped.
    pub remaining_samples: usize,
}

/// The state of the chip.
pub struct ChipState {
    /// The channels, in the order of their indices.
    channels: Vec<ChannelState>,
    /// How many frames are left in this tick; may carry a fraction.
    remaining_frames: Scalar,
}

/// The smaller of two counts.
pub open spec fn least(a: int, b: int) -> int {
    if a <= b {
        a
    } else {
        b
    }
}

/// The error for a buffer that cannot hold whole stereo frames, if the length
/// is odd.
pub open spec fn buffer_fault(buffer_len: usize) -> Option<LSynthError> {
    if buffer_len % 2 != 0 {
        Some(LSynthError::UnevenBufferSlice(UnevenBufferSliceError { slice_length: buffer_len }))
    } else {
        None
    }
}

/// Accepts a buffer length that holds whole stereo frames and refuses an odd
/// one.
pub fn check_buffer(buffer_len: usize) -> (result: Result<(), LSynthError>)
    ensures
        match buffer_fault(buffer_len) {
            Some(fault) => result == Err::<(), LSynthError>(fault),
            None => result.is_ok(),
        },
{
    if buffer_len % 2 != 0 {
        Err(LSynthError::UnevenBufferSlice(UnevenBufferSliceError { slice_length: buffer_len }))
    } else {
        Ok(())
    }
}

impl ChipState {
    /// The channels as mathematical values.
    pub closed spec fn channels(self) -> Seq<ChannelModel> {
        Seq::new(self.channels@.len(), |i: int| self.channels@[i]@)
    }

    /// The frames that the current tick still owes.
    pub closed spec fn remaining(self) -> Scalar {
        self.remaining_frames
    }

    /// Whether every channel keeps its parameters in their ranges.
    pub open spec fn wf(self) -> bool {
        forall|i: int| 0 <= i < self.channels().len() ==> (#[trigger] self.channels()[i]).wf()
    }

    /// The whole frames that the current tick still owes.
    pub open spec fn owed_frames(self) -> usize {
        self.remaining().floor_shifted(0)
    }

    /// Creates a chip with the given number of channels, each as
    /// `ChannelState::new` makes it, and with no frames owed.
    pub fn new(channel_count: usize) -> (chip: ChipState)
        ensures
            chip.channels().len() == channel_count,
            forall|i: int|
                0 <= i < channel_count ==> #[trigger] chip.channels()[i] == ChannelModel::initial(),
            chip.remaining() == Scalar::zero(),
            chip.wf(),
    {
        let mut channels: Vec<ChannelState> = Vec::new();
        let mut i: usize = 0;
        while i < channel_count
            invariant
                i <= channel_count,
                channels@.len() == i,
                forall|j: int| 0 <= j < i ==> (#[trigger] channels@[j])@ == ChannelModel::initial(),
                forall|j: int| 0 <= j < i ==> (#[trigger] channels@[j])@.wf(),
            decreases channel_count - i,
        {
            channels.push(ChannelState::new());
            i = i + 1;
        }
        ChipState { channels, remaining_frames: Scalar { bits: ZERO_BITS } }
    }

    /// How many channels the chip has.
    pub fn channel_count(&self) -> (count: usize)
        ensures
            count == self.channels().len(),
    {
        self.channels.len()
    }

    /// The state of one channel, or `InvalidChannel` where the chip has no
    /// such channel.
    pub fn channel(&self, index: usize) -> (result: Result<ChannelState, LSynthError>)
        ensures
            index < self.channels().len() ==> result.is_ok() && result.unwrap()@
                == self.channels()[index as int],
            index >= self.channels().len() ==> result == Err::<ChannelState, LSynthError>(
                LSynthError::InvalidChannel(
                    InvalidChannelError {
                        attempted_channel: index,
                        max_channels_of_chip: self.channels().len() as usize,
                    },
                ),
            ),
    {
        if index < self.channels.len() {
            Ok(self.channels[index])
        } else {
            Err(
                LSynthError::InvalidChannel(
                    InvalidChannelError {
                        attempted_channel: index,
                        max_channels_of_chip: self.channels.len(),
                    },
                ),
            )
        }
    }

    /// Puts a channel's state in place of the one at `index`, or fails with
    /// `InvalidChannel` and changes nothing where the chip has no such channel.
    pub fn store_channel(&mut self, index: usize, state: ChannelState) -> (result: Result<
        (),
        LSynthError,
    >)
        ensures
            final(self).remaining() == old(self).remaining(),
            index < old(self).channels().len() ==> result.is_ok() && final(self).channels()
                == old(self).channels().update(index as int, state@),
            index >= old(self).channels().len() ==> final(self).channels() == old(self).channels()
                && result == Err::<(), LSynthError>(
                LSynthError::InvalidChannel(
                    InvalidChannelError {
                        attempted_channel: index,
                        max_channels_of_chip: old(self).channels().len() as usize,
                    },
                ),
            ),
    {
        if index < self.channels.len() {
            self.channels.set(index, state);
            assert(final(self).channels() =~= old(self).channels().update(index as int, state@));
            Ok(())
        } else {
            Err(
                LSynthError::InvalidChannel(
                    InvalidChannelError {
                        attempted_channel: index,
                        max_channels_of_chip: self.channels.len(),
                    },
                ),
            )
        }
    }

    /// Executes a command on the given channel. Fails with `InvalidChannel`
    /// where the chip has no such channel and with `InvalidWaveform` where the
    /// channel refuses the command; either way nothing changes. Otherwise the
    /// addressed channel, and no other, is changed as the command says.
    pub fn send_command(&mut self, command: Command, channel: usize) -> (result: Result<
        (),
        LSynthError,
    >)
        ensures
            final(self).remaining() == old(self).remaining(),
            final(self).channels().len() == old(self).channels().len(),
            old(self).wf() ==> final(self).wf(),
            channel >= old(self).channels().len() ==> final(self).channels() == old(self).channels()
                && result == Err::<(), LSynthError>(
                LSynthError::InvalidChannel(
                    InvalidChannelError {
                        attempted_channel: channel,
                        max_channels_of_chip: old(self).channels().len() as usize,
                    },
                ),
            ),
            channel < old(self).channels().len() && ChannelModel::refuses(command) ==> {
                &&& final(self).channels() == old(self).channels()
                &&& match command {
                    Command::SetWaveform(index) => result == Err::<(), LSynthError>(
                        LSynthError::InvalidWaveform(
                            InvalidWaveformError { attempted_waveform: index },
                        ),
                    ),
                    _ => false,
                }
            },
            channel < old(self).channels().len() && !ChannelModel::refuses(command)
                ==> result.is_ok() && final(self).channels() == old(self).channels().update(
                channel as int,
                old(self).channels()[channel as int].applied(command),
            ),
    {
        if channel < self.channels.len() {
            let mut state: ChannelState = self.channels[channel];
            match state.execute_command(command) {
                Ok(()) => {
                    self.channels.set(channel, state);
                    assert(final(self).channels() =~= old(self).channels().update(
                        channel as int,
                        old(self).channels()[channel as int].applied(command),
                    ));
                    Ok(())
                },
                Err(fault) => Err(fault),
            }
        } else {
            Err(
                LSynthError::InvalidChannel(
                    InvalidChannelError {
                        max_channels_of_chip: self.channels.len(),
                        attempted_channel: channel,
                    },
                ),
            )
        }
    }

    /// The frames that the current tick still owes, fraction included.
    pub fn remaining_frames(&self) -> (frames: Scalar)
        ensures
            frames == self.remaining(),
    {
        self.remaining_frames
    }

    /// Replaces the count of frames that the current tick still owes.
    pub fn set_remaining_frames(&mut self, frames: Scalar)
        ensures
            final(self).remaining() == frames,
            final(self).channels() == old(self).channels(),
    {
        self.remaining_frames = frames;
    }

    /// Whether the tick is used up, so that the next one starts: less than one
    /// frame is owed.
    pub fn tick_exhausted(&self) -> (exhausted: bool)
        ensures
            exhausted == self.remaining().below(Scalar::one()),
    {
        self.remaining_frames.lt(Scalar { bits: ONE_BITS })
    }

    /// How many frames a fill of a buffer of the given length produces: the
    /// whole frames that the tick owes, but no more than the buffer holds.
    pub fn frames_to_generate(&self, buffer_len: usize) -> (frames: usize)
        ensures
            frames == least(self.owed_frames() as int, buffer_len as int / 2),
            frames * 2 <= buffer_len,
    {
        let owed: usize = self.remaining_frames.floor_to_usize(0);
        let room: usize = buffer_len / 2;
        if owed <= room {
            owed
        } else {
            room
        }
    }

    /// Begins the fill of a buffer of the given length. An odd length is
    /// refused and nothing changes. Otherwise a tick that is used up starts
    /// anew: `refilled`, which the caller gives as the frames still owed plus
    /// the frames of one tick, becomes the count of frames owed; a tick that
    /// still owes a whole frame goes on. What comes back is the number of
    /// frames to produce.
    pub fn begin_fill(&mut self, buffer_len: usize, refilled: Scalar) -> (result: Result<
        usize,
        LSynthError,
    >)
        ensures
            final(self).channels() == old(self).channels(),
            match buffer_fault(buffer_len) {
                Some(fault) => result == Err::<usize, LSynthError>(fault) && final(self).remaining()
                    == old(self).remaining(),
                None => {
                    &&& final(self).remaining() == if old(self).remaining().below(Scalar::one()) {
                        refilled
                    } else {
                        old(self).remaining()
                    }
                    &&& result == Ok::<usize, LSynthError>(
                        least(final(self).owed_frames() as int, buffer_len as int / 2) as usize,
                    )
                    &&& result.unwrap() * 2 <= buffer_len
                },
            },
    {
        match check_buffer(buffer_len) {
            Err(fault) => Err(fault),
            Ok(()) => {
                if self.tick_exhausted() {
                    self.remaining_frames = refilled;
                }
                Ok(self.frames_to_generate(buffer_len))
            },
        }
    }

    /// Ends a fill that produced `frames` frames: `left`, which the caller
    /// gives as the frames that were owed less the frames produced, becomes
    /// the count of frames owed, and the fill is reported.
    pub fn finish_fill(&mut self, frames: usize, left: Scalar) -> (data: ChipGenerationData)
        requires
            frames * 2 <= usize::MAX,
            left.floor_shifted(0) * 2 <= usize::MAX,
        ensures
            final(self).channels() == old(self).channels(),
            final(self).remaining() == left,
            data.generated == frames * 2,
            data.remaining_samples == left.floor_shifted(0) * 2,
    {
        self.remaining_frames = left;
        self.generation_data(frames)
    }

    /// The report of a fill that produced `frames` frames: the samples written,
    /// and the samples that the tick owes after it.
    pub fn generation_data(&self, frames: usize) -> (data: ChipGenerationData)
        requires
            frames * 2 <= usize::MAX,
            self.owed_frames() * 2 <= usize::MAX,
        ensures
            data.generated == frames * 2,
            data.remaining_samples == self.owed_frames() * 2,
    {
        let owed: usize = self.remaining_frames.floor_to_usize(0);
        ChipGenerationData { generated: frames * 2, remaining_samples: owed * 2 }
    }
}

} // verus!
