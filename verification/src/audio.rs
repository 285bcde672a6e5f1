//! The format of a loaded audio file and the checks made on it.

use vstd::prelude::*;

verus! {

/// How the samples of a file are encoded.
#[derive(Clone, Copy, Debug, PartialEq, Eq, Structural)]
pub enum SampleFormat {
    Float,
    Int,
}

/// Channel count, sample rate, bit depth and encoding of an audio file.
#[derive(Clone, Copy, Debug, PartialEq, Eq, Structural)]
pub struct AudioSpec {
    pub channels: u16,
    pub sample_rate: u32,
    pub bits_per_sample: u16,
    pub sample_format: SampleFormat,
}

/// Why a file cannot be processed.
#[derive(Clone, Copy, Debug, PartialEq, Eq, Structural)]
pub enum FormatError {
    /// The file has more or fewer than one channel.
    NotMono,
    /// The samples are not 16 bits wide.
    Not16Bit,
}

/// A loaded mono file: where it came from, where its outputs go, its
/// samples and the regions found in it.
pub struct SampleData {
    pub file_path: String,
    pub file_name: String,
    pub destination_folder: String,
    /// Number of frames (samples per channel).
    pub duration: u32,
    pub samples: Vec<i16>,
    pub regions: Vec<crate::regions::SampleRegion>,
    pub spec: AudioSpec,
}

/// A file needs converting when it is not 16-bit or has more than one
/// channel.
pub open spec fn spec_needs_conversion(spec: AudioSpec) -> bool {
    spec.bits_per_sample != 16 || spec.channels > 1
}

/// Whether a file has to be converted to mono 16-bit before processing.
pub fn needs_conversion(spec: &AudioSpec) -> (r: bool)
    ensures
        r == spec_needs_conversion(*spec),
        spec.channels >= 1 ==> (r <==> !(spec.channels == 1 && spec.bits_per_sample == 16)),
{
    spec.bits_per_sample != 16 || spec.channels > 1
}

/// The mono 16-bit integer format, at the sample rate of `spec`, that
/// files are converted to.
pub fn compatible_spec(spec: &AudioSpec) -> (r: AudioSpec)
    ensures
        r == (AudioSpec {
            channels: 1,
            sample_rate: spec.sample_rate,
            bits_per_sample: 16,
            sample_format: SampleFormat::Int,
        }),
        !spec_needs_conversion(r),
{
    AudioSpec { channels: 1, sample_rate: spec.sample_rate, bits_per_sample: 16, sample_format: SampleFormat::Int }
}

/// Number of frames in a file holding `total_samples` interleaved samples
/// over `channels` channels.
pub fn frame_count(total_samples: u32, channels: u16) -> (r: u32)
    requires
        channels > 0,
    ensures
        r == total_samples / (channels as u32),
{
    total_samples / (channels as u32)
}

/// Accepts mono 16-bit files; the channel count is checked first.
pub fn check_format(spec: &AudioSpec) -> (r: Result<(), FormatError>)
    ensures
        spec.channels != 1 ==> r == Err::<(), FormatError>(FormatError::NotMono),
        spec.channels == 1 && spec.bits_per_sample != 16 ==> r == Err::<(), FormatError>(
            FormatError::Not16Bit,
        ),
        spec.channels == 1 && spec.bits_per_sample == 16 ==> r == Ok::<(), FormatError>(()),
{
    if spec.channels != 1 {
        Err(FormatError::NotMono)
    } else if spec.bits_per_sample != 16 {
        Err(FormatError::Not16Bit)
    } else {
        Ok(())
    }
}

/// A file with at least one channel needs converting exactly when the
/// format check would reject it, so a converted file is always accepted
/// and a file left as it is is accepted too.
pub proof fn lemma_conversion_matches_format_check(spec: AudioSpec)
    requires
        spec.channels >= 1,
    ensures
        spec_needs_conversion(spec) <==> !(spec.channels == 1 && spec.bits_per_sample == 16),
        !spec_needs_conversion(spec) ==> spec.channels == 1 && spec.bits_per_sample == 16,
        spec.channels > 1 ==> spec_needs_conversion(spec),
{
}

/// The full-scale amplitude that the detection threshold is relative to:
/// `u16::MAX` for 16-bit files, and 0 for every other bit depth.
pub fn full_scale(bits_per_sample: u16) -> (r: u16)
    ensures
        bits_per_sample == 16 ==> r == u16::MAX,
        bits_per_sample != 16 ==> r == 0,
{
    if bits_per_sample == 16 {
        u16::MAX
    } else {
        0
    }
}

} // verus!
