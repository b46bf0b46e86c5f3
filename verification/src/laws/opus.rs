//! Laws on Opus streams, and on spreading samples over planes.

use crate::error::Error;
use crate::opus::{
    lemma_plan_fits, lemma_skip_bound, parse_pre_skip, pre_skip_lasts_as_long, FramePlan,
    OpusDecoder,
};
use crate::params::{ChannelLayout, CodecParams};
use crate::planes::{copy_mono, split_stereo};
use vstd::prelude::*;

verus! {

/// A stream is opened where the container gives one or two channels and a sample rate, and has
/// these, whatever its header holds. From the header comes what is to be discarded, and nothing
/// else: 0 where there is none or where it is too short.
pub proof fn stream_opens_as_the_container_says(params: &CodecParams, r: Result<OpusDecoder, Error>)
    requires
        call_ensures(OpusDecoder::try_registry_new, (params,), r),
    ensures
        call_requires(OpusDecoder::try_registry_new, (params,)),
        params.channels is None ==> r == Err::<OpusDecoder, Error>(
            Error::Unsupported("opus: channels or channel layout is required"),
        ),
        params.channels is Some && params.sample_rate is None ==> r == Err::<OpusDecoder, Error>(
            Error::Unsupported("opus: sample rate required"),
        ),
        params.channels is Some && params.sample_rate is Some ==> {
            let count = match params.channels->0 {
                ChannelLayout::Declared(count) => count as int,
                ChannelLayout::Discrete(count) => count as int,
            };
            &&& r is Ok <==> count == 1 || count == 2
            &&& r is Err ==> r == Err::<OpusDecoder, Error>(
                Error::Unsupported("opus: unsupported number of channels"),
            )
            &&& r matches Ok(decoder) ==> {
                &&& decoder@.wf()
                &&& decoder@.sample_rate == params.sample_rate->0
                &&& decoder@.channels == count
                &&& decoder@.samples_per_channel == 960
                &&& decoder@.pre_skip == match params.extra_data {
                    Some(head) => if head@.len() >= 12 {
                        head@[10] + 256 * head@[11]
                    } else {
                        0
                    },
                    None => 0,
                }
                &&& decoder@.params.sample_rate == params.sample_rate
                &&& decoder@.params.channels == params.channels
                &&& decoder@.params == params@
            }
        },
{
}

/// What is in the header of a stream has no say in anything but what is to be discarded: two streams
/// that differ in nothing else are opened, or fail to be, in the same way.
pub proof fn header_only_says_what_to_discard(
    params1: &CodecParams,
    r1: Result<OpusDecoder, Error>,
    params2: &CodecParams,
    r2: Result<OpusDecoder, Error>,
)
    requires
        params1.sample_rate == params2.sample_rate,
        params1.channels == params2.channels,
        call_ensures(OpusDecoder::try_registry_new, (params1,), r1),
        call_ensures(OpusDecoder::try_registry_new, (params2,), r2),
    ensures
        r1 is Ok <==> r2 is Ok,
        r1 is Err ==> r1->Err_0 == r2->Err_0,
        r1 is Ok ==> {
            &&& r1->Ok_0@.sample_rate == r2->Ok_0@.sample_rate
            &&& r1->Ok_0@.channels == r2->Ok_0@.channels
            &&& r1->Ok_0@.samples_per_channel == r2->Ok_0@.samples_per_channel
            &&& r1->Ok_0@.params.sample_rate == r2->Ok_0@.params.sample_rate
            &&& r1->Ok_0@.params.channels == r2->Ok_0@.params.channels
        },
{
}

/// What a decoder tells of itself is what it holds.
pub proof fn decoder_tells_its_state(
    decoder: &OpusDecoder,
    params: &CodecParams,
    sample_rate: u32,
    channels: usize,
    samples_per_channel: usize,
    pre_skip: usize,
)
    requires
        call_ensures(OpusDecoder::codec_params, (decoder,), params),
        call_ensures(OpusDecoder::sample_rate, (decoder,), sample_rate),
        call_ensures(OpusDecoder::channels, (decoder,), channels),
        call_ensures(OpusDecoder::samples_per_channel, (decoder,), samples_per_channel),
        call_ensures(OpusDecoder::pre_skip, (decoder,), pre_skip),
    ensures
        params@ == decoder@.params,
        sample_rate == decoder@.sample_rate,
        channels == decoder@.channels,
        samples_per_channel == decoder@.samples_per_channel,
        pre_skip == decoder@.pre_skip,
{
}

/// The number of samples to discard is read off the eleventh and twelfth byte of a header, the less
/// significant one first; a header that is shorter is an error.
pub proof fn pre_skip_is_read(head: &[u8], r: Result<usize, Error>)
    requires
        call_ensures(parse_pre_skip, (head,), r),
    ensures
        call_requires(parse_pre_skip, (head,)),
        head@.len() >= 12 ==> r is Ok && r->Ok_0 == head@[10] + 256 * head@[11],
        head@.len() < 12 ==> r == Err::<usize, Error>(Error::IoError),
{
}

/// There is room for 120 ms at 48 kHz in stereo, and for twice as much in mono. That is told
/// beforehand, and every packet that there is room for is taken.
pub proof fn room_is_told(decoder: &OpusDecoder, samples_per_channel: usize, has: bool)
    requires
        decoder@.wf(),
        call_ensures(OpusDecoder::has_room, (decoder, samples_per_channel), has),
    ensures
        decoder@.channels == 1 || decoder@.channels == 2,
        decoder@.channels == 1 ==> (has <==> samples_per_channel <= 11520),
        decoder@.channels == 2 ==> (has <==> samples_per_channel <= 5760),
{
    let n = samples_per_channel as int;
    let c = decoder@.channels as int;
    assert((c == 1 ==> n * c == n) && (c == 2 ==> n * c == 2 * n)) by (nonlinear_arith);
}

/// Every packet that there is room for is taken.
pub proof fn packets_with_room_are_taken(decoder: &mut OpusDecoder, samples_per_channel: usize)
    requires
        old(decoder)@.wf(),
        samples_per_channel <= if old(decoder)@.channels == 1 {
            11520int
        } else {
            5760int
        },
    ensures
        call_requires(OpusDecoder::accept_frame, (decoder, samples_per_channel)),
{
    let n = samples_per_channel as int;
    let c = old(decoder)@.channels as int;
    assert((c == 1 ==> n * c == n) && (c == 2 ==> n * c == 2 * n)) by (nonlinear_arith);
}

/// As many frames are discarded as take the time of the samples that the header counts at 48 kHz, to
/// the frame below, but no more than the packet has.
pub proof fn discarded_frames_last_as_long(
    decoder: &OpusDecoder,
    samples_per_channel: usize,
    frames: usize,
)
    requires
        decoder@.wf(),
        call_ensures(OpusDecoder::to_discard, (decoder, samples_per_channel), frames),
    ensures
        call_requires(OpusDecoder::to_discard, (decoder, samples_per_channel)),
        frames <= samples_per_channel,
        frames * 48000 <= decoder@.pre_skip * decoder@.sample_rate,
        frames == samples_per_channel || decoder@.pre_skip * decoder@.sample_rate < (frames + 1)
            * 48000,
        decoder@.sample_rate == 48000 ==> frames == if decoder@.pre_skip < samples_per_channel {
            decoder@.pre_skip
        } else {
            samples_per_channel
        },
        decoder@.pre_skip == 0 ==> frames == 0,
{
    pre_skip_lasts_as_long(decoder@);
    let p = decoder@.pre_skip as int;
    let r = decoder@.sample_rate as int;
    assert(p == 0 ==> p * r == 0) by (nonlinear_arith);
    assert(0 <= p * r) by (nonlinear_arith)
        requires
            0 <= p,
            0 <= r,
    ;
}

/// A packet is taken as it was decoded. All of its frames are shown but those that are discarded,
/// which is what was told before it came, and all samples of them: `first` skips the samples of the
/// frames that are discarded, over all channels, and `samples` ends with the last one. After it
/// nothing is left to discard, and the rest of what is known stays.
pub proof fn packet_is_taken_as_decoded(
    decoder: &mut OpusDecoder,
    samples_per_channel: usize,
    plan: FramePlan,
    discarded: usize,
)
    requires
        old(decoder)@.wf(),
        samples_per_channel * old(decoder)@.channels <= 11520,
        call_ensures(OpusDecoder::to_discard, (&*old(decoder), samples_per_channel), discarded),
        call_ensures(OpusDecoder::accept_frame, (decoder, samples_per_channel), plan),
    ensures
        plan.frames + discarded == samples_per_channel,
        plan.first == discarded * old(decoder)@.channels,
        plan.samples == samples_per_channel * old(decoder)@.channels,
        plan.samples - plan.first == plan.frames * old(decoder)@.channels,
        final(decoder)@.pre_skip == 0,
        final(decoder)@.sample_rate == old(decoder)@.sample_rate,
        final(decoder)@.channels == old(decoder)@.channels,
        final(decoder)@.params == old(decoder)@.params,
        final(decoder)@.wf(),
{
    lemma_plan_fits(old(decoder)@, samples_per_channel);
}

/// The buffer has the room that is noted. Take a buffer with room for as many frames as are noted,
/// and make it anew where the plan for a packet says so: then it has room for as many frames as are
/// noted afterwards, and so for all frames of the packet. It never shrinks, and it is made anew only
/// where the packet is longer than it.
pub proof fn buffer_has_the_room_that_is_noted(
    decoder: &mut OpusDecoder,
    samples_per_channel: usize,
    plan: FramePlan,
    room: usize,
)
    requires
        old(decoder)@.wf(),
        room == old(decoder)@.samples_per_channel,
        call_ensures(OpusDecoder::accept_frame, (decoder, samples_per_channel), plan),
    ensures
        ({
            let room_after = match plan.grow_to {
                Some(n) => n,
                None => room,
            };
            &&& room_after == final(decoder)@.samples_per_channel
            &&& room_after >= samples_per_channel
            &&& room_after >= plan.frames
            &&& room_after >= room
            &&& plan.grow_to is Some <==> samples_per_channel > room
            &&& plan.grow_to is Some ==> room_after == samples_per_channel
        }),
{
    pre_skip_lasts_as_long(old(decoder)@);
    lemma_skip_bound(old(decoder)@);
}

/// Only the first of two packets loses anything: all frames of the second one are shown, from its
/// first sample on.
pub proof fn second_packet_is_whole(
    first: &mut OpusDecoder,
    second: &mut OpusDecoder,
    n1: usize,
    n2: usize,
    plan1: FramePlan,
    plan2: FramePlan,
)
    requires
        old(first)@.wf(),
        call_ensures(OpusDecoder::accept_frame, (first, n1), plan1),
        *old(second) == *final(first),
        n2 * old(first)@.channels <= 11520,
        call_ensures(OpusDecoder::accept_frame, (second, n2), plan2),
    ensures
        plan2.frames == n2,
        plan2.first == 0,
        plan2.samples == n2 * old(first)@.channels,
{
    let state = old(second)@;
    assert(state.wf());
    lemma_skip_bound(state);
    lemma_plan_fits(state, n2);
}

/// The samples of a single channel are copied in order.
pub proof fn mono_samples_are_copied<T: Copy>(pcm: &[T], plane: &mut [T])
    requires
        pcm@.len() == old(plane)@.len(),
        call_ensures(copy_mono::<T>, (pcm, plane), ()),
    ensures
        call_requires(copy_mono::<T>, (pcm, plane)),
        final(plane)@.len() == pcm@.len(),
        forall|i: int| 0 <= i < pcm@.len() ==> #[trigger] final(plane)@[i] == pcm@[i],
{
}

/// The samples of two channels go in turn to the left and to the right, in order; what lies behind
/// them stays.
pub proof fn stereo_samples_are_split<T: Copy>(pcm: &[T], left: &mut [T], right: &mut [T])
    requires
        pcm@.len() % 2 == 0,
        pcm@.len() / 2 <= old(left)@.len(),
        pcm@.len() / 2 <= old(right)@.len(),
        call_ensures(split_stereo::<T>, (pcm, left, right), ()),
    ensures
        call_requires(split_stereo::<T>, (pcm, left, right)),
        final(left)@.len() == old(left)@.len(),
        final(right)@.len() == old(right)@.len(),
        forall|i: int|
            0 <= i < old(left)@.len() ==> #[trigger] final(left)@[i] == if 2 * i < pcm@.len() {
                pcm@[2 * i]
            } else {
                old(left)@[i]
            },
        forall|i: int|
            0 <= i < old(right)@.len() ==> #[trigger] final(right)@[i] == if 2 * i < pcm@.len() {
                pcm@[2 * i + 1]
            } else {
                old(right)@[i]
            },
{
}

/// A packet of two channels is shown: where the samples that its plan says are split over planes of
/// as many frames as it says, each plane has the samples of its channel, from the first frame on that
/// is not discarded, and no other ones.
pub proof fn stereo_packet_is_shown<T: Copy>(
    decoder: &mut OpusDecoder,
    samples_per_channel: usize,
    plan: FramePlan,
    discarded: usize,
    pcm: Seq<T>,
    kept: &[T],
    left: &mut [T],
    right: &mut [T],
)
    requires
        old(decoder)@.wf(),
        old(decoder)@.channels == 2,
        samples_per_channel <= 5760,
        2 * samples_per_channel <= pcm.len(),
        call_ensures(OpusDecoder::to_discard, (&*old(decoder), samples_per_channel), discarded),
        call_ensures(OpusDecoder::accept_frame, (decoder, samples_per_channel), plan),
        kept@ == pcm.subrange(plan.first as int, plan.samples as int),
        old(left)@.len() == plan.frames,
        old(right)@.len() == plan.frames,
        call_ensures(split_stereo::<T>, (kept, left, right), ()),
    ensures
        call_requires(split_stereo::<T>, (kept, left, right)),
        final(left)@.len() == samples_per_channel - discarded,
        final(right)@.len() == samples_per_channel - discarded,
        forall|i: int|
            0 <= i < final(left)@.len() ==> #[trigger] final(left)@[i] == pcm[2 * (discarded + i)],
        forall|i: int|
            0 <= i < final(right)@.len() ==> #[trigger] final(right)@[i] == pcm[2 * (discarded + i)
                + 1],
{
    lemma_plan_fits(old(decoder)@, samples_per_channel);
}

/// A packet of one channel is shown in the same way.
pub proof fn mono_packet_is_shown<T: Copy>(
    decoder: &mut OpusDecoder,
    samples_per_channel: usize,
    plan: FramePlan,
    discarded: usize,
    pcm: Seq<T>,
    kept: &[T],
    plane: &mut [T],
)
    requires
        old(decoder)@.wf(),
        old(decoder)@.channels == 1,
        samples_per_channel <= 11520,
        samples_per_channel <= pcm.len(),
        call_ensures(OpusDecoder::to_discard, (&*old(decoder), samples_per_channel), discarded),
        call_ensures(OpusDecoder::accept_frame, (decoder, samples_per_channel), plan),
        kept@ == pcm.subrange(plan.first as int, plan.samples as int),
        old(plane)@.len() == plan.frames,
        call_ensures(copy_mono::<T>, (kept, plane), ()),
    ensures
        call_requires(copy_mono::<T>, (kept, plane)),
        final(plane)@.len() == samples_per_channel - discarded,
        forall|i: int|
            0 <= i < final(plane)@.len() ==> #[trigger] final(plane)@[i] == pcm[discarded + i],
{
    lemma_plan_fits(old(decoder)@, samples_per_channel);
}

} // verus!
