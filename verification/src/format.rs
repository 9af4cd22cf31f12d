//! The audio format that the remote services accept, and the check of a
//! recording's container header against it.

use vstd::prelude::*;

verus! {

/// Number of channels of an acceptable recording.
pub const REQUIRED_CHANNELS: u16 = 1;

/// Sample width, in bits, of an acceptable recording.
pub const REQUIRED_BITS_PER_SAMPLE: u16 = 16;

/// Sampling rate, in hertz, of an acceptable recording.
pub const REQUIRED_SAMPLE_RATE: u32 = 16000;

/// What a recording's header says about its audio data.
#[derive(Clone, Copy, Debug, PartialEq, Eq, Structural)]
pub struct AudioFormat {
    pub channels: u16,
    pub bits_per_sample: u16,
    pub sample_rate: u32,
}

impl AudioFormat {
    /// A format is acceptable when it is mono, 16 bits per sample, 16 kHz.
    pub open spec fn acceptable(self) -> bool {
        &&& self.channels == REQUIRED_CHANNELS
        &&& self.bits_per_sample == REQUIRED_BITS_PER_SAMPLE
        &&& self.sample_rate == REQUIRED_SAMPLE_RATE
    }

    /// Decides whether the remote services take a recording of this format.
    pub fn is_acceptable(&self) -> (ok: bool)
        ensures
            ok == self.acceptable(),
    {
        self.channels == REQUIRED_CHANNELS && self.bits_per_sample == REQUIRED_BITS_PER_SAMPLE
            && self.sample_rate == REQUIRED_SAMPLE_RATE
    }
}

/// Why a recording's header could not be read.
#[derive(Clone, Copy, Debug, PartialEq, Eq, Structural)]
pub enum OpenError {
    /// The bytes could not be obtained, or ended before the header did.
    Io,
    /// The bytes are not a well-formed RIFF/WAVE header.
    Malformed,
    /// A sample is wider than its destination.
    TooWide,
    /// The sample count does not fill every channel.
    UnfinishedSample,
    /// The header describes an encoding that the decoder does not handle.
    Unsupported,
    /// The sample encoding differs from the one asked for.
    InvalidSampleFormat,
}

/// The decoder's error type, `hound::Error`, carried through as it is.
#[verifier::external_type_specification]
#[verifier::external_body]
pub struct ExDecodeError(hound::Error);

/// The format that `hound::WavReader::new` finds in the header of a
/// recording that consists of `bytes`, or `None` where it reports an error.
pub uninterp spec fn wav_header(bytes: Seq<u8>) -> Option<AudioFormat>;

/// Runs `hound::WavReader::new` on an in-memory reader over `bytes` and
/// takes the three numeric fields of `WavReader::spec`.
///
/// Trusted: the decoder's answer depends on the bytes alone, so it is the
/// named value `wav_header(bytes@)`. The decoder reads chunk headers up to
/// the start of the data chunk and never the samples; it neither panics nor
/// loops on any input, since every step consumes bytes of a finite buffer.
#[verifier::external_body]
fn decode_header(bytes: &[u8]) -> (r: Result<AudioFormat, hound::Error>)
    ensures
        r matches Ok(format) ==> wav_header(bytes@) == Some(format),
        r is Err ==> wav_header(bytes@) is None,
{
    let reader = hound::WavReader::new(std::io::Cursor::new(bytes))?;
    let spec = reader.spec();
    Ok(AudioFormat {
        channels: spec.channels,
        bits_per_sample: spec.bits_per_sample,
        sample_rate: spec.sample_rate,
    })
}

/// Tells the variants of `hound::Error` apart.
///
/// Trusted: nothing is claimed about which variant a given error maps to.
#[verifier::external_body]
fn classify(error: &hound::Error) -> OpenError {
    match error {
        hound::Error::IoError(_) => OpenError::Io,
        hound::Error::FormatError(_) => OpenError::Malformed,
        hound::Error::TooWide => OpenError::TooWide,
        hound::Error::UnfinishedSample => OpenError::UnfinishedSample,
        hound::Error::Unsupported => OpenError::Unsupported,
        hound::Error::InvalidSampleFormat => OpenError::InvalidSampleFormat,
    }
}

/// What the validator answers for a recording, given what its header holds.
pub open spec fn verdict_of(header: Option<AudioFormat>) -> Option<bool> {
    match header {
        Some(format) => Some(format.acceptable()),
        None => None,
    }
}

/// Reads the header of a recording given as bytes.
///
/// Succeeds exactly when the decoder accepts the header, and then returns
/// the format it found.
pub fn read_format(bytes: &[u8]) -> (r: Result<AudioFormat, OpenError>)
    ensures
        r matches Ok(format) ==> wav_header(bytes@) == Some(format),
        r is Err <==> wav_header(bytes@) is None,
{
    match decode_header(bytes) {
        Ok(format) => Ok(format),
        Err(error) => Err(classify(&error)),
    }
}

/// Validates a recording given as bytes: `Ok(true)` for an acceptable
/// format, `Ok(false)` for any other readable header, and an error where
/// the header cannot be read.
pub fn validate_wav(bytes: &[u8]) -> (r: Result<bool, OpenError>)
    ensures
        r is Ok <==> wav_header(bytes@) is Some,
        r matches Ok(accepted) ==> Some(accepted) == verdict_of(wav_header(bytes@)),
{
    match read_format(bytes) {
        Ok(format) => Ok(format.is_acceptable()),
        Err(error) => Err(error),
    }
}

/// The number of bytes to read first from a recording.
pub const FIRST_READ: usize = 4096;

/// The answer to a look at the first bytes of a recording.
#[derive(Clone, Copy, Debug, PartialEq, Eq)]
pub enum Reading {
    /// The verdict on the recording.
    Verdict(Result<bool, OpenError>),
    /// The header goes on beyond the bytes at hand: read this many bytes
    /// from the start of the recording and look again.
    More(usize),
}

/// The number of bytes to read when `have` bytes did not hold the whole
/// header: the first read at least, and twice as many as before otherwise.
pub open spec fn grown(have: nat) -> nat {
    if have < FIRST_READ {
        FIRST_READ as nat
    } else if 2 * have <= usize::MAX {
        2 * have
    } else {
        usize::MAX as nat
    }
}

/// What follows from the validator's verdict on the first `have` bytes of
/// a recording. `whole` tells that these bytes are the whole recording.
///
/// Only the end of the bytes in the middle of the header calls for more of
/// them, and only where there are more.
pub open spec fn reading_of(verdict: Result<bool, OpenError>, have: nat, whole: bool) -> Reading {
    if verdict == Err::<bool, OpenError>(OpenError::Io) && !whole {
        Reading::More(grown(have) as usize)
    } else {
        Reading::Verdict(verdict)
    }
}

/// Each further read asks for more bytes than the one before, up to the
/// largest number there is.
pub proof fn lemma_grown_grows(have: nat)
    requires
        have <= usize::MAX,
    ensures
        have < grown(have) || have == usize::MAX,
        FIRST_READ <= grown(have) <= usize::MAX,
{
}

/// Decides what follows from the validator's verdict on the first `have`
/// bytes of a recording.
pub fn judge_reading(verdict: Result<bool, OpenError>, have: usize, whole: bool) -> (r: Reading)
    ensures
        r == reading_of(verdict, have as nat, whole),
{
    match verdict {
        Err(OpenError::Io) if !whole => {
            if have < FIRST_READ {
                Reading::More(FIRST_READ)
            } else if have <= usize::MAX / 2 {
                Reading::More(2 * have)
            } else {
                Reading::More(usize::MAX)
            }
        },
        _ => Reading::Verdict(verdict),
    }
}

/// Validates a recording of which only the first bytes may be at hand.
///
/// A header that the decoder accepts gives the verdict on its format. A
/// header that it refuses gives its error, except that bytes which end
/// inside the header call for a longer read where the recording has more.
pub fn validate_prefix(bytes: &[u8], whole: bool) -> (r: Reading)
    ensures
        wav_header(bytes@) matches Some(format) ==> r == Reading::Verdict(Ok(format.acceptable())),
        wav_header(bytes@) is None ==> exists|error: OpenError|
            r == #[trigger] reading_of(Err(error), bytes@.len(), whole),
        whole ==> r is Verdict,
{
    let verdict = validate_wav(bytes);
    let reading = judge_reading(verdict, bytes.len(), whole);
    proof {
        if let Err(error) = verdict {
            assert(reading == reading_of(Err(error), bytes@.len(), whole));
        }
    }
    reading
}

} // verus!
