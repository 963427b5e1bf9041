use lsynth::errors::{
    decimal_text, InvalidChannelError, InvalidWaveformError, LSynthError, UnevenBufferSliceError,
};

#[test]
fn decimal_text_writes_numbers() {
    assert_eq!(decimal_text(0), "0");
    assert_eq!(decimal_text(7), "7");
    assert_eq!(decimal_text(10), "10");
    assert_eq!(decimal_text(1234567890), "1234567890");
    assert_eq!(decimal_text(usize::MAX), format!("{}", usize::MAX));
}

#[test]
fn invalid_waveform_message() {
    let fault = InvalidWaveformError { attempted_waveform: 8 };
    assert_eq!(fault.message(), "Attempted to set LSynth channel to invalid waveform: 8");
    assert_eq!(LSynthError::InvalidWaveform(fault).message(), fault.message());
}

#[test]
fn invalid_channel_message() {
    let fault = InvalidChannelError { attempted_channel: 12, max_channels_of_chip: 4 };
    assert_eq!(
        fault.message(),
        "Unable to send command to channel 12. Chip only has 4 channels."
    );
    assert_eq!(LSynthError::InvalidChannel(fault).message(), fault.message());
}

#[test]
fn uneven_buffer_slice_message() {
    let fault = UnevenBufferSliceError { slice_length: 511 };
    assert_eq!(
        fault.message(),
        "Provided slice length of 511 is an odd number. Cannot generate stereo audio."
    );
    assert_eq!(LSynthError::UnevenBufferSlice(fault).message(), fault.message());
}
