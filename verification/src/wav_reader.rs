//! The boundary to hound: the reader of the crate `hound` over the bytes of
//! one object, with what is taken on trust about it. A reader is modelled by
//! the format chunk it found and by the frame slots it has yet to hand out.

use vstd::prelude::*;

verus! {

/// What the format chunk of a container declares, before any validation.
#[derive(Clone, Copy, Debug, PartialEq, Eq, Structural)]
pub struct FormatChunk {
    pub sample_rate: u32,
    pub channels: u16,
    pub bits_per_sample: u16,
}

/// One interleaved frame slot: a sample, or `None` where the slot could not
/// be decoded.
pub type Frame = Option<i16>;

/// A container as a value: its format chunk and every frame slot of its data
/// chunk, in stream order.
pub struct WavImage {
    pub format: FormatChunk,
    pub frames: Seq<Frame>,
}

/// `hound::WavReader`, opaque here. This library reads from byte slices.
#[verifier::external_type_specification]
#[verifier::external_body]
#[verifier::reject_recursive_types(R)]
pub struct ExWavReader<R>(hound::WavReader<R>);

/// `hound::Error`, opaque here. Nothing is read out of it.
#[verifier::external_type_specification]
#[verifier::external_body]
pub struct ExHoundError(hound::Error);

/// What `hound::WavReader::new` makes of a byte string: `None` where it
/// reports an error, else the container it found.
pub uninterp spec fn parsed_container(bytes: Seq<u8>) -> Option<WavImage>;

/// The format chunk that a reader found when it was opened.
pub uninterp spec fn declared_format(reader: hound::WavReader<&[u8]>) -> FormatChunk;

/// The frame slots that a reader has yet to hand out, in stream order.
pub uninterp spec fn pending_frames(reader: hound::WavReader<&[u8]>) -> Seq<Frame>;

/// The container that a reader stands for: its format and what is left of
/// its frames.
pub open spec fn image_of(reader: hound::WavReader<&[u8]>) -> WavImage {
    WavImage { format: declared_format(reader), frames: pending_frames(reader) }
}

/// The data chunk holds whole frames: a slot for each channel of each.
pub open spec fn whole_frames(image: WavImage) -> bool {
    &&& image.format.channels > 0
    &&& image.frames.len() % (image.format.channels as nat) == 0
}

/// The bytes begin as a WAVE container does: the tag `RIFF`, four bytes of
/// length and the tag `WAVE`; and they are long enough for these, a format
/// chunk of sixteen bytes and the header of a data chunk.
pub open spec fn framed_as_wave(bytes: Seq<u8>) -> bool {
    &&& bytes.len() >= 44
    &&& bytes[0] == 0x52 && bytes[1] == 0x49 && bytes[2] == 0x46 && bytes[3] == 0x46
    &&& bytes[8] == 0x57 && bytes[9] == 0x41 && bytes[10] == 0x56 && bytes[11] == 0x45
}

/// `hound::WavReader::new` on a byte slice. Trusted: that the outcome is a
/// function of the bytes alone, named `parsed_container`; that a reader
/// which was opened holds the format and the frames of that container; that
/// hound opens no container without channels or with a slot count that is no
/// multiple of its channel count; and that it opens none before it has read
/// the two tags, a format chunk and the header of a data chunk.
#[verifier::external_body]
pub(crate) fn open_reader<'a>(bytes: &'a [u8]) -> (r: Result<
    hound::WavReader<&'a [u8]>,
    hound::Error,
>)
    ensures
        match r {
            Ok(reader) => parsed_container(bytes@) == Some(image_of(reader)) && whole_frames(
                image_of(reader),
            ) && framed_as_wave(bytes@),
            Err(_) => parsed_container(bytes@) is None,
        },
{
    hound::WavReader::new(bytes)
}

/// `hound::WavReader::spec`, field by field. Trusted: that it returns the
/// format that the reader was opened with.
#[verifier::external_body]
pub(crate) fn read_format<'a>(reader: &hound::WavReader<&'a [u8]>) -> (format: FormatChunk)
    ensures
        format == declared_format(*reader),
{
    let spec = reader.spec();
    FormatChunk {
        sample_rate: spec.sample_rate,
        channels: spec.channels,
        bits_per_sample: spec.bits_per_sample,
    }
}

/// One step of the iterator that `hound::WavReader::samples::<i16>` returns.
/// Trusted: that it hands out the first pending frame slot and leaves the
/// rest, that a slot which hound reports as an error comes out as `None`, and
/// that the format is untouched.
#[verifier::external_body]
pub(crate) fn next_frame<'a>(reader: &mut hound::WavReader<&'a [u8]>) -> (r: Option<Frame>)
    ensures
        declared_format(*final(reader)) == declared_format(*old(reader)),
        pending_frames(*old(reader)).len() == 0 ==> r is None && pending_frames(*final(reader))
            == pending_frames(*old(reader)),
        pending_frames(*old(reader)).len() > 0 ==> r == Some(pending_frames(*old(reader))[0])
            && pending_frames(*final(reader)) == pending_frames(*old(reader)).drop_first(),
{
    match reader.samples::<i16>().next() {
        None => None,
        Some(Ok(sample)) => Some(Some(sample)),
        Some(Err(_)) => Some(None),
    }
}

} // verus!
