//! The codec encoder for 16-bit samples, and the transcoding of one stereo
//! container into its three outputs.

use vstd::prelude::*;
use crate::container::{container_spec, validated};
use crate::error::{CodecError, ContainerFormatError, PipelineError};
use crate::lame::{
    advanced_by, encode_dual_to_vec, encode_mono_to_vec, encoder_channels, encoder_rate,
    flush_to_vec, flushed, fresh, taken_left, taken_right, worst_case_size, written_by,
};
use crate::naming::{distinct, lemma_roles_give_distinct_names, output_name, staged_name, Role};
use crate::splitter::{lane, split_channels};
use crate::wav_reader::{declared_format, pending_frames, FormatChunk};

verus! {

/// The largest count, of samples or of bytes, that LAME's interface takes.
pub const MAX_BUFFER_SIZE: usize = 0x7fff_ffff;

/// The buffer size to reserve for `samples` samples, where the codec's
/// interface can express it.
pub open spec fn capacity_for(samples: int) -> Result<usize, CodecError> {
    if worst_case_size(samples) <= MAX_BUFFER_SIZE {
        Ok(worst_case_size(samples) as usize)
    } else {
        Err(CodecError::TooManySamples)
    }
}

/// Sizes the output buffer for a sample count by the codec's own formula.
pub fn output_capacity(sample_count: usize) -> (r: Result<usize, CodecError>)
    ensures
        r == capacity_for(sample_count as int),
{
    if sample_count > MAX_BUFFER_SIZE {
        return Err(CodecError::TooManySamples);
    }
    let size = mp3lame_encoder::max_required_buffer_size(sample_count);
    if size > MAX_BUFFER_SIZE {
        Err(CodecError::TooManySamples)
    } else {
        Ok(size)
    }
}

/// Creates an encoder for a sample rate and a channel count. The encoder
/// that comes back is fresh and reports that rate and that count as its
/// own. Every failure of LAME on the way is reported as a failure of
/// construction, and so is an encoder that LAME has made for another rate or
/// count than was asked for. No encoder is made for a rate of zero, nor for
/// a channel count other than one and two.
pub fn build_mp3_encoder(sample_rate: u32, channels: u8) -> (r: Result<
    mp3lame_encoder::Encoder,
    CodecError,
>)
    ensures
        match r {
            Ok(encoder) => encoder_rate(encoder) == sample_rate && encoder_channels(encoder)
                == channels && fresh(encoder),
            Err(e) => e == CodecError::Construction,
        },
        sample_rate == 0 || channels == 0 || channels > 2 ==> r is Err,
{
    let mut builder = match mp3lame_encoder::Builder::new() {
        None => {
            return Err(CodecError::Construction);
        },
        Some(builder) => builder,
    };
    if builder.set_sample_rate(sample_rate).is_err() {
        return Err(CodecError::Construction);
    }
    if builder.set_num_channels(channels).is_err() {
        return Err(CodecError::Construction);
    }
    let encoder = match builder.build() {
        Ok(encoder) => encoder,
        Err(_) => {
            return Err(CodecError::Construction);
        },
    };
    if encoder.sample_rate() != sample_rate || encoder.num_channels() != channels {
        return Err(CodecError::Construction);
    }
    Ok(encoder)
}

/// Hands the samples of one channel to an encoder made for one channel and
/// returns what the encoder wrote for them, in a buffer sized by the codec's
/// formula. An encoder made for another channel count is not fed: that is
/// reported as a failure of encoding, as is every failure of LAME.
pub fn feed_mono(encoder: &mut mp3lame_encoder::Encoder, samples: &[i16]) -> (r: Result<
    Vec<u8>,
    CodecError,
>)
    ensures
        match r {
            Ok(output) => {
                &&& capacity_for(samples@.len() as int) is Ok
                &&& encoder_channels(*old(encoder)) == 1
                &&& advanced_by(
                    *old(encoder),
                    *final(encoder),
                    samples@,
                    Seq::<i16>::empty(),
                    output@,
                )
                &&& !flushed(*old(encoder)) ==> !flushed(*final(encoder))
            },
            Err(e) => if capacity_for(samples@.len() as int) is Err {
                e == CodecError::TooManySamples && *final(encoder) == *old(encoder)
            } else {
                e == CodecError::Encoding
            },
        },
        capacity_for(samples@.len() as int) is Ok && encoder_channels(*old(encoder)) != 1 ==> r
            is Err && *final(encoder) == *old(encoder),
{
    let capacity = match output_capacity(samples.len()) {
        Err(e) => {
            return Err(e);
        },
        Ok(capacity) => capacity,
    };
    if encoder.num_channels() != 1 {
        return Err(CodecError::Encoding);
    }
    match encode_mono_to_vec(encoder, samples, capacity) {
        Ok(output) => Ok(output),
        Err(_) => Err(CodecError::Encoding),
    }
}

/// The longest prefixes of two channels that have one length.
pub fn paired<'a>(left: &'a [i16], right: &'a [i16]) -> (pair: (&'a [i16], &'a [i16]))
    ensures
        pair.0@ == common(left@, right@).0,
        pair.1@ == common(left@, right@).1,
{
    let frames = if left.len() <= right.len() {
        left.len()
    } else {
        right.len()
    };
    (&left[0..frames], &right[0..frames])
}

/// The two channels, each cut to the length of the shorter one.
pub open spec fn common(left: Seq<i16>, right: Seq<i16>) -> (Seq<i16>, Seq<i16>) {
    let frames = if left.len() <= right.len() {
        left.len() as int
    } else {
        right.len() as int
    };
    (left.take(frames), right.take(frames))
}

/// Hands two channels to an encoder made for two channels and returns what
/// the encoder wrote for them. The buffer is sized for the samples of both;
/// where one channel is longer, what it has beyond the other is left out. An
/// encoder made for another channel count is not fed: that is reported as a
/// failure of encoding, as is every failure of LAME.
pub fn feed_stereo(
    encoder: &mut mp3lame_encoder::Encoder,
    left_samples: &[i16],
    right_samples: &[i16],
) -> (r: Result<Vec<u8>, CodecError>)
    ensures
        match r {
            Ok(output) => {
                &&& capacity_for((left_samples@.len() + right_samples@.len()) as int) is Ok
                &&& encoder_channels(*old(encoder)) == 2
                &&& advanced_by(
                    *old(encoder),
                    *final(encoder),
                    common(left_samples@, right_samples@).0,
                    common(left_samples@, right_samples@).1,
                    output@,
                )
                &&& !flushed(*old(encoder)) ==> !flushed(*final(encoder))
            },
            Err(e) => if capacity_for((left_samples@.len() + right_samples@.len()) as int)
                is Err {
                e == CodecError::TooManySamples && *final(encoder) == *old(encoder)
            } else {
                e == CodecError::Encoding
            },
        },
        capacity_for((left_samples@.len() + right_samples@.len()) as int) is Ok
            && encoder_channels(*old(encoder)) != 2 ==> r is Err && *final(encoder) == *old(
            encoder,
        ),
{
    let total = match left_samples.len().checked_add(right_samples.len()) {
        None => {
            return Err(CodecError::TooManySamples);
        },
        Some(total) => total,
    };
    let capacity = match output_capacity(total) {
        Err(e) => {
            return Err(e);
        },
        Ok(capacity) => capacity,
    };
    if encoder.num_channels() != 2 {
        return Err(CodecError::Encoding);
    }
    let (left, right) = paired(left_samples, right_samples);
    match encode_dual_to_vec(encoder, left, right, capacity) {
        Ok(output) => Ok(output),
        Err(_) => Err(CodecError::Encoding),
    }
}

/// Flushes an encoder behind what it has written into `output`, and hands
/// the buffer out: what it held, and behind that what the flush wrote. The
/// encoder is left flushed. Where it was not flushed before, the flush adds
/// to the buffer. A failure of LAME is reported as a failure of
/// finalization, and no buffer is handed out then.
pub fn finalize(encoder: &mut mp3lame_encoder::Encoder, output: Vec<u8>) -> (r: Result<
    Vec<u8>,
    CodecError,
>)
    ensures
        match r {
            Ok(buffer) => {
                &&& output@.len() <= buffer@.len()
                &&& buffer@.subrange(0, output@.len() as int) == output@
                &&& advanced_by(
                    *old(encoder),
                    *final(encoder),
                    Seq::<i16>::empty(),
                    Seq::<i16>::empty(),
                    buffer@.subrange(output@.len() as int, buffer@.len() as int),
                )
                &&& flushed(*final(encoder))
                &&& !flushed(*old(encoder)) ==> buffer@.len() > output@.len()
            },
            Err(e) => e == CodecError::Finalization,
        },
{
    let mut output = output;
    let room = mp3lame_encoder::max_required_buffer_size(0);
    match flush_to_vec(encoder, &mut output, room) {
        Ok(_) => Ok(output),
        Err(_) => Err(CodecError::Finalization),
    }
}

/// The encoder was made for this rate and this channel count, has taken
/// exactly these samples, and is flushed; and the buffer is all that it has
/// written.
pub open spec fn recorded_by(
    encoder: mp3lame_encoder::Encoder,
    rate: u32,
    channels: u8,
    left: Seq<i16>,
    right: Seq<i16>,
    buffer: Seq<u8>,
) -> bool {
    &&& encoder_rate(encoder) == rate
    &&& encoder_channels(encoder) == channels
    &&& taken_left(encoder) == left
    &&& taken_right(encoder) == right
    &&& flushed(encoder)
    &&& written_by(encoder) == buffer
}

/// The buffer is a complete encoding of these samples: all that an encoder
/// of its own, made for this rate and this channel count, wrote for them up
/// to and with its flush. Such a buffer is never empty.
pub open spec fn is_encoding(
    buffer: Seq<u8>,
    rate: u32,
    channels: u8,
    left: Seq<i16>,
    right: Seq<i16>,
) -> bool {
    &&& buffer.len() > 0
    &&& exists|encoder: mp3lame_encoder::Encoder| #[trigger]
        recorded_by(encoder, rate, channels, left, right, buffer)
}

/// Encodes one channel into a complete MP3 buffer, with an encoder of its
/// own. Each step that fails ends the encoding with the error of that step,
/// and no buffer is handed out then.
pub fn encode_mono_mp3(sample_rate: u32, samples: &[i16]) -> (r: Result<Vec<u8>, CodecError>)
    ensures
        capacity_for(samples@.len() as int) is Err <==> r == Err::<Vec<u8>, _>(
            CodecError::TooManySamples,
        ),
        r matches Ok(buffer) ==> is_encoding(
            buffer@,
            sample_rate,
            1,
            samples@,
            Seq::<i16>::empty(),
        ),
        capacity_for(samples@.len() as int) is Ok && sample_rate == 0 ==> r == Err::<Vec<u8>, _>(
            CodecError::Construction,
        ),
{
    if let Err(e) = output_capacity(samples.len()) {
        return Err(e);
    }
    let mut encoder = match build_mp3_encoder(sample_rate, 1) {
        Err(e) => {
            return Err(e);
        },
        Ok(encoder) => encoder,
    };
    let encoded = match feed_mono(&mut encoder, samples) {
        Err(e) => {
            return Err(e);
        },
        Ok(encoded) => encoded,
    };
    match finalize(&mut encoder, encoded) {
        Err(e) => Err(e),
        Ok(buffer) => {
            proof {
                let flush = buffer@.subrange(encoded@.len() as int, buffer@.len() as int);
                assert(buffer@ =~= encoded@ + flush);
                assert(written_by(encoder) =~= buffer@);
                assert(taken_left(encoder) =~= samples@);
                assert(taken_right(encoder) =~= Seq::<i16>::empty());
                assert(recorded_by(
                    encoder,
                    sample_rate,
                    1,
                    samples@,
                    Seq::<i16>::empty(),
                    buffer@,
                ));
            }
            Ok(buffer)
        },
    }
}

/// Encodes two channels together into a complete MP3 buffer, with an
/// encoder of its own. The buffer is sized for the samples of both; where
/// one channel is longer, what it has beyond the other is left out. Each
/// step that fails ends the encoding with the error of that step, and no
/// buffer is handed out then.
pub fn encode_stereo_mp3(sample_rate: u32, left_samples: &[i16], right_samples: &[i16]) -> (r:
    Result<Vec<u8>, CodecError>)
    ensures
        capacity_for((left_samples@.len() + right_samples@.len()) as int) is Err <==> r == Err::<
            Vec<u8>,
            _,
        >(CodecError::TooManySamples),
        r matches Ok(buffer) ==> is_encoding(
            buffer@,
            sample_rate,
            2,
            common(left_samples@, right_samples@).0,
            common(left_samples@, right_samples@).1,
        ),
        capacity_for((left_samples@.len() + right_samples@.len()) as int) is Ok && sample_rate
            == 0 ==> r == Err::<Vec<u8>, _>(CodecError::Construction),
{
    let sized = match left_samples.len().checked_add(right_samples.len()) {
        None => Err(CodecError::TooManySamples),
        Some(total) => output_capacity(total),
    };
    if let Err(e) = sized {
        return Err(e);
    }
    let mut encoder = match build_mp3_encoder(sample_rate, 2) {
        Err(e) => {
            return Err(e);
        },
        Ok(encoder) => encoder,
    };
    let encoded = match feed_stereo(&mut encoder, left_samples, right_samples) {
        Err(e) => {
            return Err(e);
        },
        Ok(encoded) => encoded,
    };
    match finalize(&mut encoder, encoded) {
        Err(e) => Err(e),
        Ok(buffer) => {
            proof {
                let flush = buffer@.subrange(encoded@.len() as int, buffer@.len() as int);
                assert(buffer@ =~= encoded@ + flush);
                assert(written_by(encoder) =~= buffer@);
                assert(taken_left(encoder) =~= common(left_samples@, right_samples@).0);
                assert(taken_right(encoder) =~= common(left_samples@, right_samples@).1);
                assert(recorded_by(
                    encoder,
                    sample_rate,
                    2,
                    common(left_samples@, right_samples@).0,
                    common(left_samples@, right_samples@).1,
                    buffer@,
                ));
            }
            Ok(buffer)
        },
    }
}

/// One encoded buffer, with its role and the name it is stored under.
#[derive(Clone, Debug)]
pub struct EncodedOutput {
    pub role: Role,
    pub name: String,
    pub data: Vec<u8>,
}

/// The role of each output of a stereo object, in the order they are made.
pub open spec fn role_at(index: int) -> Role {
    if index == 0 {
        Role::Left
    } else if index == 1 {
        Role::Right
    } else {
        Role::Joint
    }
}

/// The outputs are those of one stereo object with the given base name:
/// left, right and joint, each under its name.
pub open spec fn outputs_named(outputs: Seq<EncodedOutput>, base: Seq<char>) -> bool {
    &&& outputs.len() == 3
    &&& forall|i: int|
        0 <= i < 3 ==> (#[trigger] outputs[i]).role == role_at(i) && outputs[i].name@
            == staged_name(base, role_at(i))
}

/// The outputs hold the complete encodings of the channels of a stereo
/// object at this rate: the left channel alone, the right channel alone, and
/// both together, each from an encoder of its own.
pub open spec fn outputs_encode(
    outputs: Seq<EncodedOutput>,
    rate: u32,
    left: Seq<i16>,
    right: Seq<i16>,
) -> bool {
    &&& outputs.len() == 3
    &&& is_encoding(outputs[0].data@, rate, 1, left, Seq::<i16>::empty())
    &&& is_encoding(outputs[1].data@, rate, 1, right, Seq::<i16>::empty())
    &&& is_encoding(outputs[2].data@, rate, 2, common(left, right).0, common(left, right).1)
}

/// Names the three encoded buffers of a stereo object.
pub fn bundle(base_name: &str, left: Vec<u8>, right: Vec<u8>, joint: Vec<u8>) -> (outputs: Vec<
    EncodedOutput,
>)
    ensures
        outputs_named(outputs@, base_name@),
        outputs@[0].data == left,
        outputs@[1].data == right,
        outputs@[2].data == joint,
{
    let mut outputs: Vec<EncodedOutput> = Vec::new();
    outputs.push(
        EncodedOutput { role: Role::Left, name: output_name(base_name, Role::Left), data: left },
    );
    outputs.push(
        EncodedOutput { role: Role::Right, name: output_name(base_name, Role::Right), data: right },
    );
    outputs.push(
        EncodedOutput { role: Role::Joint, name: output_name(base_name, Role::Joint), data: joint },
    );
    outputs
}

/// What `from_reader` returns for a format, as far as the format decides it:
/// the error for a container that is refused, `None` for a stereo container,
/// whose outcome lies with the encoder.
pub open spec fn refusal(format: FormatChunk) -> Option<PipelineError> {
    match validated(format) {
        Err(e) => Some(PipelineError::ContainerFormat(e)),
        Ok(spec) => if spec.channels == 2 {
            None
        } else {
            Some(
                PipelineError::ContainerFormat(
                    ContainerFormatError::UnsupportedLayout { channels: format.channels },
                ),
            )
        },
    }
}

/// Transcodes what is left of a stereo container into its three outputs:
/// the left channel, the right channel, and both together, each a complete
/// encoding and so not empty. A container that is not 16-bit stereo is
/// refused, mono included.
pub fn from_reader<'a>(reader: hound::WavReader<&'a [u8]>, base_name: &str) -> (r: Result<
    Vec<EncodedOutput>,
    PipelineError,
>)
    ensures
        match r {
            Ok(outputs) => {
                &&& refusal(declared_format(reader)) is None
                &&& outputs_named(outputs@, base_name@)
                &&& outputs_encode(
                    outputs@,
                    declared_format(reader).sample_rate,
                    lane(pending_frames(reader), 0),
                    lane(pending_frames(reader), 1),
                )
            },
            Err(e) => match refusal(declared_format(reader)) {
                Some(refused) => e == refused,
                None => e is Encode,
            },
        },
        refusal(declared_format(reader)) is None && capacity_for(
            lane(pending_frames(reader), 0).len() as int,
        ) is Err ==> r == Err::<Vec<EncodedOutput>, _>(
            PipelineError::Encode(CodecError::TooManySamples),
        ),
{
    let mut reader = reader;
    let spec = match container_spec(&reader) {
        Err(e) => {
            return Err(PipelineError::ContainerFormat(e));
        },
        Ok(spec) => spec,
    };
    if spec.channels != 2 {
        return Err(
            PipelineError::ContainerFormat(ContainerFormatError::UnsupportedLayout { channels: 1 }),
        );
    }
    let (left_samples, right_samples) = split_channels(&mut reader);
    let left = match encode_mono_mp3(spec.sample_rate, left_samples.as_slice()) {
        Err(e) => {
            return Err(PipelineError::Encode(e));
        },
        Ok(buffer) => buffer,
    };
    let right = match encode_mono_mp3(spec.sample_rate, right_samples.as_slice()) {
        Err(e) => {
            return Err(PipelineError::Encode(e));
        },
        Ok(buffer) => buffer,
    };
    let joint = match encode_stereo_mp3(
        spec.sample_rate,
        left_samples.as_slice(),
        right_samples.as_slice(),
    ) {
        Err(e) => {
            return Err(PipelineError::Encode(e));
        },
        Ok(buffer) => buffer,
    };
    Ok(bundle(base_name, left, right, joint))
}

/// The names of a sequence of outputs.
pub open spec fn output_names(outputs: Seq<EncodedOutput>) -> Seq<Seq<char>> {
    outputs.map_values(|output: EncodedOutput| output.name@)
}

/// Two runs over objects of one base name store their outputs under the same
/// names, in the same order.
pub proof fn lemma_names_repeat(
    first: Seq<EncodedOutput>,
    second: Seq<EncodedOutput>,
    base: Seq<char>,
)
    requires
        outputs_named(first, base),
        outputs_named(second, base),
    ensures
        output_names(first) == output_names(second),
        forall|i: int| 0 <= i < 3 ==> (#[trigger] first[i]).role == second[i].role,
{
}

/// The three outputs of one object never share a name.
pub proof fn lemma_outputs_distinct(outputs: Seq<EncodedOutput>, base: Seq<char>)
    requires
        outputs_named(outputs, base),
    ensures
        distinct(output_names(outputs)),
{
    let names = output_names(outputs);
    assert forall|i: int, j: int| 0 <= i < j < names.len() implies names[i] != names[j] by {
        lemma_roles_give_distinct_names(base, role_at(i), role_at(j));
    }
}

} // verus!
