//! The boundary to the LAME encoder: the types and calls of the crate
//! `mp3lame_encoder` that the codec uses, with what is taken on trust about
//! each of them.

use vstd::prelude::*;

verus! {

/// `mp3lame_encoder::Builder`, opaque here.
#[verifier::external_type_specification]
#[verifier::external_body]
pub struct ExBuilder(mp3lame_encoder::Builder);

/// `mp3lame_encoder::Encoder`, opaque here.
#[verifier::external_type_specification]
#[verifier::external_body]
pub struct ExEncoder(mp3lame_encoder::Encoder);

/// `mp3lame_encoder::BuildError`, opaque here. Nothing is read out of it.
#[verifier::external_type_specification]
#[verifier::external_body]
pub struct ExBuildError(mp3lame_encoder::BuildError);

/// `mp3lame_encoder::EncodeError`, opaque here. Nothing is read out of it.
#[verifier::external_type_specification]
#[verifier::external_body]
pub struct ExEncodeError(mp3lame_encoder::EncodeError);

/// The codec's bound on the bytes that `samples` samples can take when
/// encoded: the sample count, a quarter of it rounded up, and 7200.
pub open spec fn worst_case_size(samples: int) -> int {
    samples + (samples + 3) / 4 + 7200
}

/// `mp3lame_encoder::max_required_buffer_size`. Trusted: that it computes
/// `worst_case_size` wherever that fits in a `usize`.
pub assume_specification[ mp3lame_encoder::max_required_buffer_size ](
    sample_number: usize,
) -> (size: usize)
    ensures
        worst_case_size(sample_number as int) <= usize::MAX ==> size == worst_case_size(
            sample_number as int,
        ),
;

/// `mp3lame_encoder::Builder::new`. Nothing is trusted of its result: it is
/// `None` where LAME could not allocate its state.
pub assume_specification[ mp3lame_encoder::Builder::new ]() -> (builder: Option<
    mp3lame_encoder::Builder,
>)
;

/// `mp3lame_encoder::Builder::set_sample_rate`. Trusted: that LAME refuses
/// a rate of zero.
pub assume_specification[ mp3lame_encoder::Builder::set_sample_rate ](
    builder: &mut mp3lame_encoder::Builder,
    rate: u32,
) -> (r: Result<(), mp3lame_encoder::BuildError>)
    ensures
        rate == 0 ==> r is Err,
;

/// `mp3lame_encoder::Builder::set_num_channels`. Trusted: that LAME refuses
/// a count of zero and every count above two.
pub assume_specification[ mp3lame_encoder::Builder::set_num_channels ](
    builder: &mut mp3lame_encoder::Builder,
    num: u8,
) -> (r: Result<(), mp3lame_encoder::BuildError>)
    ensures
        num == 0 || num > 2 ==> r is Err,
;

/// The input sample rate that an encoder was made with: what
/// `mp3lame_encoder::Encoder::sample_rate` reports.
pub uninterp spec fn encoder_rate(encoder: mp3lame_encoder::Encoder) -> u32;

/// The channel count that an encoder was made with: what
/// `mp3lame_encoder::Encoder::num_channels` reports.
pub uninterp spec fn encoder_channels(encoder: mp3lame_encoder::Encoder) -> u8;

/// The samples that an encoder has taken as its left, or only, channel since
/// it was made, in the order it took them.
pub uninterp spec fn taken_left(encoder: mp3lame_encoder::Encoder) -> Seq<i16>;

/// The samples that an encoder has taken as its right channel since it was
/// made, in the order it took them.
pub uninterp spec fn taken_right(encoder: mp3lame_encoder::Encoder) -> Seq<i16>;

/// The bytes that an encoder has handed out since it was made, in the order
/// it wrote them.
pub uninterp spec fn written_by(encoder: mp3lame_encoder::Encoder) -> Seq<u8>;

/// Whether an encoder has written out all that it took in, so that nothing
/// is left in its buffers.
pub uninterp spec fn flushed(encoder: mp3lame_encoder::Encoder) -> bool;

/// An encoder as it is made: it has taken nothing and written nothing, and
/// it is not flushed, since what LAME puts in front of a stream is still in
/// its buffers.
pub open spec fn fresh(encoder: mp3lame_encoder::Encoder) -> bool {
    &&& taken_left(encoder) == Seq::<i16>::empty()
    &&& taken_right(encoder) == Seq::<i16>::empty()
    &&& written_by(encoder) == Seq::<u8>::empty()
    &&& !flushed(encoder)
}

/// How an encoder stands after a call that went well: made as before, and
/// with these samples more taken and these bytes more written.
pub open spec fn advanced_by(
    before: mp3lame_encoder::Encoder,
    after: mp3lame_encoder::Encoder,
    left: Seq<i16>,
    right: Seq<i16>,
    written: Seq<u8>,
) -> bool {
    &&& encoder_rate(after) == encoder_rate(before)
    &&& encoder_channels(after) == encoder_channels(before)
    &&& taken_left(after) == taken_left(before) + left
    &&& taken_right(after) == taken_right(before) + right
    &&& written_by(after) == written_by(before) + written
}

/// `mp3lame_encoder::Builder::build`. Trusted: that an encoder which was
/// built is fresh.
pub assume_specification[ mp3lame_encoder::Builder::build ](
    builder: mp3lame_encoder::Builder,
) -> (r: Result<mp3lame_encoder::Encoder, mp3lame_encoder::BuildError>)
    ensures
        r matches Ok(encoder) ==> {
            &&& taken_left(encoder) == Seq::<i16>::empty()
            &&& taken_right(encoder) == Seq::<i16>::empty()
            &&& written_by(encoder) == Seq::<u8>::empty()
            &&& !flushed(encoder)
        },
;

/// `mp3lame_encoder::Encoder::sample_rate`. Trusted: that it reports the
/// rate named `encoder_rate`.
pub assume_specification[ mp3lame_encoder::Encoder::sample_rate ](
    encoder: &mp3lame_encoder::Encoder,
) -> (rate: u32)
    ensures
        rate == encoder_rate(*encoder),
;

/// `mp3lame_encoder::Encoder::num_channels`. Trusted: that it reports the
/// count named `encoder_channels`.
pub assume_specification[ mp3lame_encoder::Encoder::num_channels ](
    encoder: &mp3lame_encoder::Encoder,
) -> (channels: u8)
    ensures
        channels == encoder_channels(*encoder),
;

/// How an output buffer stands after a call that reports `written` bytes:
/// longer by that many bytes, with what it held before in front.
pub open spec fn grown_by(before: Seq<u8>, after: Seq<u8>, written: int) -> bool {
    &&& after.len() == before.len() + written
    &&& after.subrange(0, before.len() as int) == before
}

/// `mp3lame_encoder::Encoder::encode_to_vec` on one channel, into a buffer
/// made with `Vec::with_capacity`. Trusted: that on success the encoder has
/// taken all of the samples, that the buffer holds what it wrote for them,
/// and that an encoder which was not flushed is not flushed by this.
///
/// The buffer is made here because LAME must be given room: it reads a size
/// of zero as leave to write without a bound. The sample count and the
/// capacity have to fit the `int` that LAME takes, and the encoder has to be
/// one made for one channel: one made for two takes nothing from a single
/// channel.
#[verifier::external_body]
pub(crate) fn encode_mono_to_vec(
    encoder: &mut mp3lame_encoder::Encoder,
    samples: &[i16],
    capacity: usize,
) -> (r: Result<Vec<u8>, mp3lame_encoder::EncodeError>)
    requires
        samples@.len() <= i32::MAX,
        0 < capacity <= i32::MAX,
        encoder_channels(*old(encoder)) == 1,
    ensures
        r matches Ok(output) ==> advanced_by(
            *old(encoder),
            *final(encoder),
            samples@,
            Seq::<i16>::empty(),
            output@,
        ) && (!flushed(*old(encoder)) ==> !flushed(*final(encoder))),
{
    let mut output = Vec::with_capacity(capacity);
    match encoder.encode_to_vec(mp3lame_encoder::MonoPcm(samples), &mut output) {
        Ok(_) => Ok(output),
        Err(e) => Err(e),
    }
}

/// `mp3lame_encoder::Encoder::encode_to_vec` on two channels of one length
/// (on two lengths the crate panics in a debug build), for an encoder made
/// for two channels, into a buffer made with `Vec::with_capacity`. Trusted:
/// as for one channel.
#[verifier::external_body]
pub(crate) fn encode_dual_to_vec(
    encoder: &mut mp3lame_encoder::Encoder,
    left: &[i16],
    right: &[i16],
    capacity: usize,
) -> (r: Result<Vec<u8>, mp3lame_encoder::EncodeError>)
    requires
        left@.len() == right@.len(),
        left@.len() <= i32::MAX,
        0 < capacity <= i32::MAX,
        encoder_channels(*old(encoder)) == 2,
    ensures
        r matches Ok(output) ==> advanced_by(
            *old(encoder),
            *final(encoder),
            left@,
            right@,
            output@,
        ) && (!flushed(*old(encoder)) ==> !flushed(*final(encoder))),
{
    let mut output = Vec::with_capacity(capacity);
    match encoder.encode_to_vec(mp3lame_encoder::DualPcm { left, right }, &mut output) {
        Ok(_) => Ok(output),
        Err(e) => Err(e),
    }
}

/// `mp3lame_encoder::Encoder::flush_to_vec` with `FlushGap`, which encodes
/// what LAME still buffers, after `Vec::reserve` has made room for it.
/// Trusted: that on success the buffer has grown by the count returned, by
/// what the encoder wrote; that the encoder is then flushed and has taken
/// nothing more; that the flush of an encoder which was not flushed writes
/// at least one byte; and that on failure the buffer holds what it held.
///
/// The room is made here for the reason given above; it has to fit the `int`
/// that LAME takes.
#[verifier::external_body]
pub(crate) fn flush_to_vec(
    encoder: &mut mp3lame_encoder::Encoder,
    output: &mut Vec<u8>,
    room: usize,
) -> (r: Result<usize, mp3lame_encoder::EncodeError>)
    requires
        0 < room <= i32::MAX,
    ensures
        match r {
            Ok(written) => {
                &&& grown_by(old(output)@, final(output)@, written as int)
                &&& advanced_by(
                    *old(encoder),
                    *final(encoder),
                    Seq::<i16>::empty(),
                    Seq::<i16>::empty(),
                    final(output)@.subrange(old(output)@.len() as int, final(output)@.len() as int),
                )
                &&& flushed(*final(encoder))
                &&& !flushed(*old(encoder)) ==> written > 0
            },
            Err(_) => final(output)@ == old(output)@,
        },
{
    output.reserve(room);
    encoder.flush_to_vec::<mp3lame_encoder::FlushGap>(output)
}

} // verus!
