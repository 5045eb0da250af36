//! The audio format the recogniser and the speaker models take.

use vstd::prelude::*;

verus! {

/// The sample rate the extracted audio must have, in Hz.
pub const EXPECTED_SAMPLE_RATE: u32 = 16_000;

/// Why a WAV file's format was refused.
pub enum WavFormatError {
    /// The file's sample rate, which is not 16 kHz.
    SampleRate(u32),
    /// The file's channel count, which is not one.
    Channels(u16),
}

/// Accepts 16 kHz mono audio. A wrong sample rate is reported first; with
/// the right rate, a channel count other than one is reported.
pub fn check_wav_format(sample_rate: u32, channels: u16) -> (r: Result<(), WavFormatError>)
    ensures
        sample_rate != EXPECTED_SAMPLE_RATE ==> r == Err::<(), WavFormatError>(
            WavFormatError::SampleRate(sample_rate),
        ),
        sample_rate == EXPECTED_SAMPLE_RATE && channels != 1 ==> r == Err::<(), WavFormatError>(
            WavFormatError::Channels(channels),
        ),
        sample_rate == EXPECTED_SAMPLE_RATE && channels == 1 ==> r is Ok,
{
    if sample_rate != EXPECTED_SAMPLE_RATE {
        return Err(WavFormatError::SampleRate(sample_rate));
    }
    if channels != 1 {
        return Err(WavFormatError::Channels(channels));
    }
    Ok(())
}

} // verus!
