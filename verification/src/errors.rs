//! The errors that the chip reports.

use vstd::prelude::*;
use vstd::string::StringExecFns;

verus! {

/// The character of a decimal digit.
pub open spec fn digit(d: nat) -> char {
    if d == 0 {
        '0'
    } else if d == 1 {
        '1'
    } else if d == 2 {
        '2'
    } else if d == 3 {
        '3'
    } else if d == 4 {
        '4'
    } else if d == 5 {
        '5'
    } else if d == 6 {
        '6'
    } else if d == 7 {
        '7'
    } else if d == 8 {
        '8'
    } else {
        '9'
    }
}

/// A number written in decimal, without leading zeros.
pub open spec fn decimal(n: nat) -> Seq<char>
    decreases n,
{
    if n < 10 {
        seq![digit(n)]
    } else {
        decimal(n / 10).push(digit(n % 10))
    }
}

fn digit_text(d: usize) -> (text: &'static str)
    requires
        d < 10,
    ensures
        text@ == seq![digit(d as nat)],
{
    proof {
        reveal_strlit("0");
        reveal_strlit("1");
        reveal_strlit("2");
        reveal_strlit("3");
        reveal_strlit("4");
        reveal_strlit("5");
        reveal_strlit("6");
        reveal_strlit("7");
        reveal_strlit("8");
        reveal_strlit("9");
    }
    let text = if d == 0 {
        "0"
    } else if d == 1 {
        "1"
    } else if d == 2 {
        "2"
    } else if d == 3 {
        "3"
    } else if d == 4 {
        "4"
    } else if d == 5 {
        "5"
    } else if d == 6 {
        "6"
    } else if d == 7 {
        "7"
    } else if d == 8 {
        "8"
    } else {
        "9"
    };
    assert(text@ =~= seq![digit(d as nat)]);
    text
}

/// Writes a number in decimal.
pub fn decimal_text(n: usize) -> (text: String)
    ensures
        text@ == decimal(n as nat),
    decreases n,
{
    if n < 10 {
        String::from_str(digit_text(n))
    } else {
        let head = decimal_text(n / 10);
        let text = head.concat(digit_text(n % 10));
        assert(text@ =~= decimal(n as nat));
        text
    }
}

/// A command asked for a waveform that does not exist.
#[derive(Clone, Copy, Debug, PartialEq, Eq, Structural)]
pub struct InvalidWaveformError {
    /// The number that was given as a waveform index.
    pub attempted_waveform: usize,
}

/// A command was addressed to a channel that does not exist.
#[derive(Clone, Copy, Debug, PartialEq, Eq, Structural)]
pub struct InvalidChannelError {
    /// The channel that was addressed.
    pub attempted_channel: usize,
    /// How many channels the chip has.
    pub max_channels_of_chip: usize,
}

/// A buffer with an odd number of samples was offered for stereo frames.
#[derive(Clone, Copy, Debug, PartialEq, Eq, Structural)]
pub struct UnevenBufferSliceError {
    /// The length of the buffer.
    pub slice_length: usize,
}

/// Everything the chip can refuse.
#[derive(Clone, Copy, Debug, PartialEq, Eq, Structural)]
pub enum LSynthError {
    InvalidWaveform(InvalidWaveformError),
    InvalidChannel(InvalidChannelError),
    UnevenBufferSlice(UnevenBufferSliceError),
}

impl InvalidWaveformError {
    /// What went wrong, in words.
    pub open spec fn text(self) -> Seq<char> {
        "Attempted to set LSynth channel to invalid waveform: "@ + decimal(
            self.attempted_waveform as nat,
        )
    }

    /// What went wrong, in words.
    pub fn message(&self) -> (message: String)
        ensures
            message@ == self.text(),
    {
        let number = decimal_text(self.attempted_waveform);
        String::from_str("Attempted to set LSynth channel to invalid waveform: ").concat(
            number.as_str(),
        )
    }
}

impl InvalidChannelError {
    /// What went wrong, in words.
    pub open spec fn text(self) -> Seq<char> {
        "Unable to send command to channel "@ + decimal(self.attempted_channel as nat)
            + ". Chip only has "@ + decimal(self.max_channels_of_chip as nat) + " channels."@
    }

    /// What went wrong, in words.
    pub fn message(&self) -> (message: String)
        ensures
            message@ == self.text(),
    {
        let attempted = decimal_text(self.attempted_channel);
        let count = decimal_text(self.max_channels_of_chip);
        String::from_str("Unable to send command to channel ").concat(attempted.as_str()).concat(
            ". Chip only has ",
        ).concat(count.as_str()).concat(" channels.")
    }
}

impl UnevenBufferSliceError {
    /// What went wrong, in words.
    pub open spec fn text(self) -> Seq<char> {
        "Provided slice length of "@ + decimal(self.slice_length as nat)
            + " is an odd number. Cannot generate stereo audio."@
    }

    /// What went wrong, in words.
    pub fn message(&self) -> (message: String)
        ensures
            message@ == self.text(),
    {
        let length = decimal_text(self.slice_length);
        String::from_str("Provided slice length of ").concat(length.as_str()).concat(
            " is an odd number. Cannot generate stereo audio.",
        )
    }
}

impl LSynthError {
    /// What went wrong, in words: the text of the error inside.
    pub open spec fn text(self) -> Seq<char> {
        match self {
            LSynthError::InvalidWaveform(fault) => fault.text(),
            LSynthError::InvalidChannel(fault) => fault.text(),
            LSynthError::UnevenBufferSlice(fault) => fault.text(),
        }
    }

    /// What went wrong, in words.
    pub fn message(&self) -> (message: String)
        ensures
            message@ == self.text(),
    {
        match self {
            LSynthError::InvalidWaveform(fault) => fault.message(),
            LSynthError::InvalidChannel(fault) => fault.message(),
            LSynthError::UnevenBufferSlice(fault) => fault.message(),
        }
    }
}

} // verus!
