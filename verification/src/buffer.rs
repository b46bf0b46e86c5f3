//! The buffer that decoded 16-bit samples are handed out in: Symphonia's `AudioBuffer`.
//!
//! Each function here makes one call into Symphonia. What is claimed of it is not proved.

use symphonia_core::audio::{
    AsGenericAudioBufferRef, AudioBuffer, AudioMut, AudioSpec, Channels, GenericAudioBufferRef,
};
use vstd::prelude::*;

verus! {

/// A planar buffer of 16-bit samples: one plane per channel, of a fixed number of frames, of which
/// the first ones are committed.
#[verifier::external_body]
pub struct PcmBuffer {
    inner: AudioBuffer<i16>,
}

/// Symphonia's reference to a buffer of any sample format.
#[verifier::external_type_specification]
#[verifier::external_body]
pub struct ExGenericAudioBufferRef<'a>(GenericAudioBufferRef<'a>);

/// All samples that the planes of a buffer hold, committed or not, in the order of the channels.
pub uninterp spec fn stored_planes(buf: PcmBuffer) -> Seq<Seq<i16>>;

/// The number of frames that are committed.
pub uninterp spec fn committed_frames(buf: PcmBuffer) -> nat;

/// The sample rate that a buffer was made with.
pub uninterp spec fn buffer_rate(buf: PcmBuffer) -> u32;

/// The number of channels of a buffer whose channels are discrete, that is, independent of each
/// other. A buffer of another layout has none.
pub uninterp spec fn discrete_channels(buf: PcmBuffer) -> Option<u16>;

/// The committed samples that a reference shows, in the order of the channels.
pub uninterp spec fn shown_planes(shown: GenericAudioBufferRef<'_>) -> Seq<Seq<i16>>;

/// The sample rate that a reference shows.
pub uninterp spec fn shown_rate(shown: GenericAudioBufferRef<'_>) -> u32;

/// The number of channels that a reference shows, where they are discrete.
pub uninterp spec fn shown_discrete_channels(shown: GenericAudioBufferRef<'_>) -> Option<u16>;

/// The committed part of planes.
pub open spec fn committed(planes: Seq<Seq<i16>>, frames: nat) -> Seq<Seq<i16>> {
    Seq::new(planes.len(), |c: int| planes[c].take(frames as int))
}

/// Whether every plane has the given number of samples.
pub open spec fn planes_of_length(planes: Seq<Seq<i16>>, length: int) -> bool {
    forall|c: int| 0 <= c < planes.len() ==> (#[trigger] planes[c]).len() == length
}

/// The number of frames that are left when `end` frames are cut off at the end.
pub open spec fn frames_before(frames: nat, end: int) -> int {
    if end < frames {
        frames - end
    } else {
        0
    }
}

/// The number of frames that are left when a buffer is trimmed.
pub open spec fn trimmed_frames(frames: nat, start: int, end: int) -> nat {
    if start < frames_before(frames, end) {
        (frames_before(frames, end) - start) as nat
    } else {
        0
    }
}

/// The planes of a buffer after it is trimmed: what is left is moved to the front, and what lay
/// behind it stays.
pub open spec fn trimmed_planes(
    planes: Seq<Seq<i16>>,
    frames: nat,
    start: int,
    end: int,
) -> Seq<Seq<i16>> {
    let stop = frames_before(frames, end);
    if start < stop {
        Seq::new(
            planes.len(),
            |c: int| planes[c].subrange(start, stop) + planes[c].skip(stop - start),
        )
    } else {
        planes
    }
}

impl PcmBuffer {
    /// Calls `AudioBuffer::new`, with an `AudioSpec::new` of the rate and of `Channels::Discrete`.
    /// It gives one plane of silence, which is 0, per channel, with no frame committed, and keeps the
    /// rate and the layout. It panics
    /// where there is no channel or where the planes would not fit in memory.
    #[verifier::external_body]
    pub(crate) fn new(rate: u32, channels: u16, capacity: usize) -> (buf: PcmBuffer)
        requires
            1 <= channels,
            2 * channels * capacity <= isize::MAX,
        ensures
            stored_planes(buf) == Seq::new(
                channels as nat,
                |c: int| Seq::new(capacity as nat, |i: int| 0i16),
            ),
            committed_frames(buf) == 0,
            buffer_rate(buf) == rate,
            discrete_channels(buf) == Some(channels),
    {
        let spec = AudioSpec::new(rate, Channels::Discrete(channels));
        PcmBuffer { inner: AudioBuffer::new(spec, capacity) }
    }

    /// Calls `AudioBuffer::clear`, which takes all commits back and leaves the samples alone.
    #[verifier::external_body]
    pub(crate) fn clear(&mut self)
        ensures
            stored_planes(*final(self)) == stored_planes(*old(self)),
            committed_frames(*final(self)) == 0,
            buffer_rate(*final(self)) == buffer_rate(*old(self)),
            discrete_channels(*final(self)) == discrete_channels(*old(self)),
    {
        self.inner.clear()
    }

    /// Calls `AudioBuffer::render_uninit` without a number of frames, which commits all frames that
    /// there is room for, with the samples that they hold, and returns how many these are.
    #[verifier::external_body]
    pub(crate) fn render_uninit(&mut self) -> (rendered: usize)
        requires
            stored_planes(*old(self)).len() > 0,
            committed_frames(*old(self)) <= stored_planes(*old(self))[0].len(),
        ensures
            stored_planes(*final(self)) == stored_planes(*old(self)),
            committed_frames(*final(self)) == stored_planes(*old(self))[0].len(),
            rendered == stored_planes(*old(self))[0].len() - committed_frames(*old(self)),
            buffer_rate(*final(self)) == buffer_rate(*old(self)),
            discrete_channels(*final(self)) == discrete_channels(*old(self)),
    {
        self.inner.render_uninit(None)
    }

    /// Calls `AudioBuffer::plane_mut`, which lends the committed part of one plane, if there is a
    /// plane of that index.
    #[verifier::external_body]
    pub(crate) fn plane_mut(&mut self, idx: usize) -> (r: Option<&mut [i16]>)
        requires
            idx < stored_planes(*old(self)).len() ==> committed_frames(*old(self))
                <= stored_planes(*old(self))[idx as int].len(),
        ensures
            r is Some <==> idx < stored_planes(*old(self)).len(),
            r is None ==> stored_planes(*final(self)) == stored_planes(*old(self)),
            r matches Some(plane) ==> {
                let frames = committed_frames(*old(self)) as int;
                let whole = stored_planes(*old(self))[idx as int];
                &&& plane@ == whole.take(frames)
                &&& final(plane)@.len() == plane@.len()
                &&& stored_planes(*final(self)) == stored_planes(*old(self)).update(
                    idx as int,
                    final(plane)@ + whole.skip(frames),
                )
            },
            committed_frames(*final(self)) == committed_frames(*old(self)),
            buffer_rate(*final(self)) == buffer_rate(*old(self)),
            discrete_channels(*final(self)) == discrete_channels(*old(self)),
    {
        self.inner.plane_mut(idx)
    }

    /// Calls `AudioBuffer::plane_pair_mut`, which lends the committed parts of two planes, if there
    /// are planes of both indices. It panics where the two are the same.
    #[verifier::external_body]
    pub(crate) fn plane_pair_mut(&mut self, idx0: usize, idx1: usize) -> (r: Option<
        (&mut [i16], &mut [i16]),
    >)
        requires
            idx0 != idx1,
            forall|c: int|
                0 <= c < stored_planes(*old(self)).len() ==> committed_frames(*old(self)) <= (
                #[trigger] stored_planes(*old(self))[c]).len(),
        ensures
            r is Some <==> idx0 < stored_planes(*old(self)).len() && idx1 < stored_planes(
                *old(self),
            ).len(),
            r is None ==> stored_planes(*final(self)) == stored_planes(*old(self)),
            r matches Some((p0, p1)) ==> {
                let frames = committed_frames(*old(self)) as int;
                let whole0 = stored_planes(*old(self))[idx0 as int];
                let whole1 = stored_planes(*old(self))[idx1 as int];
                &&& p0@ == whole0.take(frames)
                &&& p1@ == whole1.take(frames)
                &&& final(p0)@.len() == p0@.len()
                &&& final(p1)@.len() == p1@.len()
                &&& stored_planes(*final(self)) == stored_planes(*old(self)).update(
                    idx0 as int,
                    final(p0)@ + whole0.skip(frames),
                ).update(idx1 as int, final(p1)@ + whole1.skip(frames))
            },
            committed_frames(*final(self)) == committed_frames(*old(self)),
            buffer_rate(*final(self)) == buffer_rate(*old(self)),
            discrete_channels(*final(self)) == discrete_channels(*old(self)),
    {
        self.inner.plane_pair_mut(idx0, idx1)
    }

    /// Calls `AudioBuffer::trim`, which cuts `end` frames off at the end and then `start` frames off
    /// at the front, as far as there are so many.
    #[verifier::external_body]
    pub(crate) fn trim(&mut self, start: usize, end: usize)
        requires
            forall|c: int|
                0 <= c < stored_planes(*old(self)).len() ==> committed_frames(*old(self)) <= (
                #[trigger] stored_planes(*old(self))[c]).len(),
        ensures
            stored_planes(*final(self)) == trimmed_planes(
                stored_planes(*old(self)),
                committed_frames(*old(self)),
                start as int,
                end as int,
            ),
            committed_frames(*final(self)) == trimmed_frames(
                committed_frames(*old(self)),
                start as int,
                end as int,
            ),
            buffer_rate(*final(self)) == buffer_rate(*old(self)),
            discrete_channels(*final(self)) == discrete_channels(*old(self)),
    {
        self.inner.trim(start, end)
    }

    /// Calls `AudioBuffer::as_generic_audio_buffer_ref`, whose result refers to the same buffer.
    #[verifier::external_body]
    pub(crate) fn as_generic_audio_buffer_ref(&self) -> (shown: GenericAudioBufferRef<'_>)
        ensures
            shown_planes(shown) == committed(stored_planes(*self), committed_frames(*self)),
            shown_rate(shown) == buffer_rate(*self),
            shown_discrete_channels(shown) == discrete_channels(*self),
    {
        self.inner.as_generic_audio_buffer_ref()
    }
}

} // verus!
