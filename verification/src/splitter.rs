//! The channel splitter: demultiplexes interleaved frames into a left and a
//! right sample sequence, in one pass.
//!
//! Slots alternate between the channels, starting with the left one. A slot
//! that could not be decoded still takes its turn, and contributes nothing:
//! one bad frame does not cost the whole recording.

use vstd::prelude::*;
use crate::wav_reader::{
    declared_format, next_frame, pending_frames, whole_frames, Frame, WavImage,
};

verus! {

/// The samples of one channel: those frames whose position has the given
/// parity (0 for left, 1 for right) and which hold a sample, in stream order.
pub open spec fn lane(frames: Seq<Frame>, parity: int) -> Seq<i16>
    decreases frames.len(),
{
    if frames.len() == 0 {
        Seq::empty()
    } else {
        let before = lane(frames.drop_last(), parity);
        match frames.last() {
            Some(sample) if (frames.len() - 1) % 2 == parity => before.push(sample),
            _ => before,
        }
    }
}

/// Every slot holds a sample.
pub open spec fn all_decoded(frames: Seq<Frame>) -> bool {
    forall|i: int| 0 <= i < frames.len() ==> (#[trigger] frames[i]) is Some
}

/// The accumulator of the splitter. Its view is the sequence of frames fed to
/// it so far.
pub struct ChannelSplitter {
    left: Vec<i16>,
    right: Vec<i16>,
    is_left: bool,
    seen: Ghost<Seq<Frame>>,
}

impl View for ChannelSplitter {
    type V = Seq<Frame>;

    closed spec fn view(&self) -> Seq<Frame> {
        self.seen@
    }
}

impl ChannelSplitter {
    #[verifier::type_invariant]
    spec fn inv(self) -> bool {
        &&& self.left@ == lane(self.seen@, 0)
        &&& self.right@ == lane(self.seen@, 1)
        &&& self.is_left == (self.seen@.len() % 2 == 1)
    }

    /// A splitter that has seen no frame.
    pub fn new() -> (s: Self)
        ensures
            s@ == Seq::<Frame>::empty(),
    {
        ChannelSplitter {
            left: Vec::new(),
            right: Vec::new(),
            is_left: false,
            seen: Ghost(Seq::empty()),
        }
    }

    /// Takes the next frame slot of the stream.
    pub fn feed(self, frame: Frame) -> (s: Self)
        ensures
            s@ == self@.push(frame),
    {
        proof {
            use_type_invariant(&self);
            assert(self.seen@.push(frame).drop_last() =~= self.seen@);
        }
        let ChannelSplitter { mut left, mut right, is_left, seen } = self;
        let is_left = !is_left;
        match frame {
            Some(sample) => {
                if is_left {
                    left.push(sample);
                } else {
                    right.push(sample);
                }
            },
            None => {},
        }
        ChannelSplitter { left, right, is_left, seen: Ghost(seen@.push(frame)) }
    }

    /// Hands out the two channels, left first.
    pub fn finish(self) -> (channels: (Vec<i16>, Vec<i16>))
        ensures
            channels.0@ == lane(self@, 0),
            channels.1@ == lane(self@, 1),
    {
        proof {
            use_type_invariant(&self);
        }
        (self.left, self.right)
    }
}

/// Splits a whole sequence of frames.
pub fn deinterleave(frames: &[Frame]) -> (channels: (Vec<i16>, Vec<i16>))
    ensures
        channels.0@ == lane(frames@, 0),
        channels.1@ == lane(frames@, 1),
{
    let mut splitter = ChannelSplitter::new();
    let mut i: usize = 0;
    while i < frames.len()
        invariant
            i <= frames.len(),
            splitter@ == frames@.take(i as int),
        decreases frames.len() - i,
    {
        splitter = splitter.feed(frames[i]);
        i = i + 1;
    }
    proof {
        assert(frames@.take(i as int) =~= frames@);
    }
    splitter.finish()
}

/// Reads a container to its end and splits what it holds.
pub fn split_channels<'a>(reader: &mut hound::WavReader<&'a [u8]>) -> (channels: (
    Vec<i16>,
    Vec<i16>,
))
    ensures
        channels.0@ == lane(pending_frames(*old(reader)), 0),
        channels.1@ == lane(pending_frames(*old(reader)), 1),
        pending_frames(*final(reader)).len() == 0,
        declared_format(*final(reader)) == declared_format(*old(reader)),
{
    let mut splitter = ChannelSplitter::new();
    loop
        invariant
            splitter@ + pending_frames(*reader) == pending_frames(*old(reader)),
            declared_format(*reader) == declared_format(*old(reader)),
        ensures
            splitter@ == pending_frames(*old(reader)),
            pending_frames(*reader).len() == 0,
            declared_format(*reader) == declared_format(*old(reader)),
        decreases pending_frames(*reader).len(),
    {
        match next_frame(reader) {
            None => {
                break ;
            },
            Some(frame) => {
                splitter = splitter.feed(frame);
            },
        }
    }
    splitter.finish()
}

/// No slot holds a sample.
pub open spec fn none_decoded(frames: Seq<Frame>) -> bool {
    forall|i: int| 0 <= i < frames.len() ==> (#[trigger] frames[i]) is None
}

/// Where every slot was decoded, the left channel holds the slots at the even
/// positions and the right channel those at the odd positions, in order.
pub proof fn lemma_lanes_of_decoded(frames: Seq<Frame>)
    requires
        all_decoded(frames),
    ensures
        lane(frames, 0).len() == (frames.len() + 1) / 2,
        lane(frames, 1).len() == frames.len() / 2,
        forall|k: int|
            0 <= k < lane(frames, 0).len() ==> (#[trigger] lane(frames, 0)[k]) == frames[2
                * k]->0,
        forall|k: int|
            0 <= k < lane(frames, 1).len() ==> (#[trigger] lane(frames, 1)[k]) == frames[2 * k
                + 1]->0,
    decreases frames.len(),
{
    if frames.len() > 0 {
        let before = frames.drop_last();
        assert forall|i: int| 0 <= i < before.len() implies (#[trigger] before[i]) is Some by {
            assert(before[i] == frames[i]);
        }
        lemma_lanes_of_decoded(before);
        assert forall|k: int| 0 <= k < lane(frames, 0).len() implies (#[trigger] lane(
            frames,
            0,
        )[k]) == frames[2 * k]->0 by {
            if k < lane(before, 0).len() {
                assert(before[2 * k] == frames[2 * k]);
            }
        }
        assert forall|k: int| 0 <= k < lane(frames, 1).len() implies (#[trigger] lane(
            frames,
            1,
        )[k]) == frames[2 * k + 1]->0 by {
            if k < lane(before, 1).len() {
                assert(before[2 * k + 1] == frames[2 * k + 1]);
            }
        }
    }
}

/// Slots that could not be decoded add nothing at the end of a stream.
pub proof fn lemma_undecoded_tail(frames: Seq<Frame>, tail: Seq<Frame>, parity: int)
    requires
        none_decoded(tail),
    ensures
        lane(frames + tail, parity) == lane(frames, parity),
    decreases tail.len(),
{
    if tail.len() == 0 {
        assert(frames + tail =~= frames);
    } else {
        let shorter = tail.drop_last();
        assert((frames + tail).drop_last() =~= frames + shorter);
        assert forall|i: int| 0 <= i < shorter.len() implies (#[trigger] shorter[i]) is None by {
            assert(shorter[i] == tail[i]);
        }
        lemma_undecoded_tail(frames, shorter, parity);
    }
}

/// The two channels of a stream differ in length by at most one sample,
/// where every slot was decoded up to some point of the stream and none
/// after it. The left channel is never the shorter one.
pub proof fn lemma_split_balanced(decoded: Seq<Frame>, tail: Seq<Frame>)
    requires
        all_decoded(decoded),
        none_decoded(tail),
    ensures
        0 <= lane(decoded + tail, 0).len() - lane(decoded + tail, 1).len() <= 1,
{
    lemma_undecoded_tail(decoded, tail, 0);
    lemma_undecoded_tail(decoded, tail, 1);
    lemma_lanes_of_decoded(decoded);
}

/// The two channels of a stereo container have one length, where every slot
/// of its data chunk was decoded.
pub proof fn lemma_stereo_channels_match(image: WavImage)
    requires
        whole_frames(image),
        image.format.channels == 2,
        all_decoded(image.frames),
    ensures
        lane(image.frames, 0).len() == lane(image.frames, 1).len(),
        lane(image.frames, 0).len() * 2 == image.frames.len(),
{
    lemma_lanes_of_decoded(image.frames);
}

} // verus!
