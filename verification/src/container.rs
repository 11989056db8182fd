//! The container decoder: reads the WAV header of one object and decides
//! whether the container is accepted. Only 16-bit samples are; a container
//! whose header cannot be read, or declares another width or an unusable
//! channel count, is refused before any sample is looked at.

use vstd::prelude::*;
use crate::error::ContainerFormatError;
use crate::wav_reader::{
    declared_format, framed_as_wave, image_of, open_reader, parsed_container, read_format,
    whole_frames, FormatChunk, WavImage,
};

verus! {

/// The parameters of a container that this library accepts.
#[derive(Clone, Copy, Debug, PartialEq, Eq, Structural)]
pub struct WavSpec {
    pub sample_rate: u32,
    pub channels: u8,
    pub bits_per_sample: u16,
}

/// The only sample width that is decoded.
pub const SUPPORTED_BITS: u16 = 16;

impl WavSpec {
    /// One or two channels of 16-bit samples.
    pub open spec fn wf(self) -> bool {
        &&& (self.channels == 1 || self.channels == 2)
        &&& self.bits_per_sample == SUPPORTED_BITS
    }
}

/// The outcome of the validation of a format chunk: the bit depth is judged
/// first, then the channel count.
pub open spec fn validated(format: FormatChunk) -> Result<WavSpec, ContainerFormatError> {
    if format.bits_per_sample != SUPPORTED_BITS {
        Err(ContainerFormatError::UnsupportedBitDepth { bits: format.bits_per_sample })
    } else if format.channels != 1 && format.channels != 2 {
        Err(ContainerFormatError::UnsupportedLayout { channels: format.channels })
    } else {
        Ok(
            WavSpec {
                sample_rate: format.sample_rate,
                channels: format.channels as u8,
                bits_per_sample: format.bits_per_sample,
            },
        )
    }
}

/// Validates a format chunk.
pub fn validate(format: FormatChunk) -> (r: Result<WavSpec, ContainerFormatError>)
    ensures
        r == validated(format),
        r matches Ok(spec) ==> spec.wf(),
{
    if format.bits_per_sample != SUPPORTED_BITS {
        Err(ContainerFormatError::UnsupportedBitDepth { bits: format.bits_per_sample })
    } else if format.channels == 1 {
        Ok(
            WavSpec {
                sample_rate: format.sample_rate,
                channels: 1,
                bits_per_sample: format.bits_per_sample,
            },
        )
    } else if format.channels == 2 {
        Ok(
            WavSpec {
                sample_rate: format.sample_rate,
                channels: 2,
                bits_per_sample: format.bits_per_sample,
            },
        )
    } else {
        Err(ContainerFormatError::UnsupportedLayout { channels: format.channels })
    }
}

/// What `open_container` returns for a parsed container.
pub open spec fn accepted(parsed: Option<WavImage>) -> Result<WavSpec, ContainerFormatError> {
    match parsed {
        None => Err(ContainerFormatError::BadHeader),
        Some(image) => validated(image.format),
    }
}

/// Reads the header of a container and validates it. The reader that comes
/// back stands at the first frame of the data chunk. Bytes that end within
/// the header, or lack its tags, are refused.
pub fn open_container<'a>(bytes: &'a [u8]) -> (r: Result<
    hound::WavReader<&'a [u8]>,
    ContainerFormatError,
>)
    ensures
        match r {
            Ok(reader) => parsed_container(bytes@) == Some(image_of(reader)) && accepted(
                parsed_container(bytes@),
            ) is Ok && whole_frames(image_of(reader)),
            Err(e) => accepted(parsed_container(bytes@)) == Err::<WavSpec, _>(e),
        },
        !framed_as_wave(bytes@) ==> r matches Err(ContainerFormatError::BadHeader),
{
    match open_reader(bytes) {
        Err(_) => Err(ContainerFormatError::BadHeader),
        Ok(reader) => match validate(read_format(&reader)) {
            Ok(_) => Ok(reader),
            Err(e) => Err(e),
        },
    }
}

/// The validated parameters of an open container.
pub fn container_spec<'a>(reader: &hound::WavReader<&'a [u8]>) -> (r: Result<
    WavSpec,
    ContainerFormatError,
>)
    ensures
        r == validated(declared_format(*reader)),
        r matches Ok(spec) ==> spec.wf(),
{
    validate(read_format(reader))
}

/// Reads the header of a container and tells whether it is accepted, and
/// with which parameters. Bytes that end within the header, or lack its
/// tags, are refused.
pub fn inspect(bytes: &[u8]) -> (r: Result<WavSpec, ContainerFormatError>)
    ensures
        r == accepted(parsed_container(bytes@)),
        r matches Ok(spec) ==> spec.wf(),
        !framed_as_wave(bytes@) ==> r == Err::<WavSpec, _>(ContainerFormatError::BadHeader),
{
    match open_reader(bytes) {
        Err(_) => Err(ContainerFormatError::BadHeader),
        Ok(reader) => validate(read_format(&reader)),
    }
}

} // verus!
