//! Laws on AAC streams.

use crate::aac::{audio_buffer, AacDecoder, AacStream, AacView};
use crate::buffer::{
    buffer_rate, committed_frames, discrete_channels, shown_discrete_channels, shown_planes,
    shown_rate, stored_planes, PcmBuffer,
};
use crate::error::Error;
use crate::fdk::{DecoderFault, StreamFacts};
use crate::laws::format::{lemma_header_bytes, lemma_some_type_is_numbered};
use crate::meta::{sample_rate_index, M4AInfo, M4AType};
use crate::params::{ChannelLayout, CodecParams};
use symphonia_core::audio::GenericAudioBufferRef;
use vstd::prelude::*;

verus! {

// What a first frame comes to, channel by channel.
proof fn lemma_first_frame(stream: AacView, facts: StreamFacts, pcm: Seq<i16>, start: int, end: int)
    requires
        stream.wf(),
        !stream.validated,
        1 <= facts.num_channels <= 2,
        0 < facts.frame_size,
        facts.num_channels * facts.frame_size <= pcm.len(),
        pcm.len() <= 8192,
        0 <= facts.aot < 45,
        0 <= start,
        0 <= end,
    ensures
        ({
            let n = facts.num_channels as int;
            let left = facts.frame_size - start - end;
            let (next, r) = stream.accepted(facts, n * facts.frame_size, pcm, start, end);
            &&& r == Ok::<(), Error>(())
            &&& next.validated
            &&& next.planes.len() == n
            &&& next.frames == if left > 0 { left } else { 0 }
            &&& next.rate == facts.sample_rate as u32
            &&& next.discrete == Some(n as u16)
            &&& next.info.otype.number() == facts.aot
            &&& next.info.channels == n
            &&& next.info.sample_rate == facts.aac_sample_rate as u32
            &&& next.info.samples == facts.frame_size
            &&& next.params.sample_rate == Some(facts.aac_sample_rate as u32)
            &&& next.params.channels == Some(ChannelLayout::Discrete(n as u16))
            &&& next.params.extra_data == stream.params.extra_data
            &&& forall|c: int, i: int|
                0 <= c < n && 0 <= i < next.frames ==> #[trigger] next.planes[c][i] == pcm[(start
                    + i) * n + c]
        }),
{
    let n = facts.num_channels as int;
    let f = facts.frame_size as int;
    let capacity = n * f;
    vstd::arithmetic::div_mod::lemma_div_multiples_vanish(f, n);
    assert(n == 1 ==> n * f == f) by (nonlinear_arith);
    assert(n == 2 ==> n * f == 2 * f) by (nonlinear_arith);
    let settled = stream.configured(facts, capacity).0;
    let planes = settled.written(pcm.take(capacity));
    let (next, r) = stream.accepted(facts, capacity, pcm, start, end);
    assert(M4AType::numbered(facts.aot as int)->0.number() == facts.aot) by {
        lemma_some_type_is_numbered(facts.aot as int);
    }
    assert forall|c: int, i: int| 0 <= c < n && 0 <= i < next.frames implies #[trigger]
        next.planes[c][i] == pcm[(start + i) * n + c] by {
        assert(n == 1 ==> (start + i) * n == start + i) by (nonlinear_arith);
        assert(n == 2 ==> (start + i) * n == 2 * (start + i)) by (nonlinear_arith);
        assert(next.planes[c][i] == planes[c][start + i]);
    }
}

// What a frame of a settled stream comes to, channel by channel.
proof fn lemma_later_frame(
    stream: AacView,
    facts: StreamFacts,
    capacity: int,
    pcm: Seq<i16>,
    start: int,
    end: int,
)
    requires
        stream.wf(),
        stream.validated,
        0 <= capacity <= pcm.len(),
        0 <= start,
        0 <= end,
    ensures
        ({
            let n = stream.info.channels as int;
            let room = stream.info.samples as int;
            let (next, r) = stream.accepted(facts, capacity, pcm, start, end);
            let fits = if n == 1 {
                capacity == room
            } else {
                capacity % 2 == 0 && capacity / 2 <= room
            };
            &&& n == 1 || n == 2
            &&& stream.planes.len() == n
            &&& forall|c: int| 0 <= c < n ==> (#[trigger] stream.planes[c]).len() == room
            &&& next.validated
            &&& next.planes.len() == n
            &&& next.info == stream.info
            &&& next.params == stream.params
            &&& next.rate == stream.rate
            &&& next.discrete == stream.discrete
            &&& !fits ==> {
                &&& r == Err::<(), Error>(Error::FrameMismatch)
                &&& next.frames == 0
                &&& next.planes == stream.planes
            }
            &&& fits ==> {
                let left = room - start - end;
                &&& r == Ok::<(), Error>(())
                &&& next.frames == if left > 0 { left } else { 0 }
                &&& forall|c: int, i: int|
                    0 <= c < n && 0 <= i < next.frames ==> #[trigger] next.planes[c][i] == if (start
                        + i) * n + c < capacity {
                        pcm[(start + i) * n + c]
                    } else {
                        stream.planes[c][start + i]
                    }
            }
        }),
{
    let n = stream.info.channels as int;
    let (next, r) = stream.accepted(facts, capacity, pcm, start, end);
    let planes = stream.written(pcm.take(capacity));
    if stream.fits(capacity) {
        assert forall|c: int, i: int| 0 <= c < n && 0 <= i < next.frames implies #[trigger]
            next.planes[c][i] == if (start + i) * n + c < capacity {
            pcm[(start + i) * n + c]
        } else {
            stream.planes[c][start + i]
        } by {
            assert(n == 1 ==> (start + i) * n == start + i) by (nonlinear_arith);
            assert(n == 2 ==> (start + i) * n == 2 * (start + i)) by (nonlinear_arith);
            assert(next.planes[c][i] == planes[c][start + i]);
            assert(stream.planes[c].len() == stream.info.samples);
        }
    }
}

/// A packet can be decoded unless the object type has no place in a header or the length of the
/// frame overflows 16 bits. Nothing else is asked of it.
pub proof fn packets_that_can_be_decoded(
    decoder: &mut AacDecoder,
    data: &[u8],
    trim_start: u64,
    trim_end: u64,
)
    requires
        old(decoder)@.wf(),
        old(decoder)@.stream.info.otype != M4AType::Null,
        data@.len() % 0x1_0000 <= 0xfff8,
    ensures
        call_requires(AacDecoder::decode, (decoder, data, trim_start, trim_end)),
{
}

/// Whether a packet can be decoded is told beforehand.
pub proof fn packets_that_can_be_decoded_are_told(decoder: &AacDecoder, num_bytes: usize, can: bool)
    requires
        call_ensures(AacDecoder::can_frame, (decoder, num_bytes), can),
    ensures
        can <==> decoder@.stream.info.otype != M4AType::Null && num_bytes % 0x1_0000 <= 0xfff8,
{
}

/// A first frame that is good is shown. Where the library behind the decoder has taken a packet in
/// and decoded it, to one or two channels and with an object type that has a name, then there is no
/// error, whatever the length of the packet and of the frame. The reference that comes back has one
/// plane per channel, the samples of that channel, in order, but for those that are trimmed, and the
/// sample rate of the decoded signal.
pub proof fn first_good_frame_is_shown<'a>(
    decoder: &'a mut AacDecoder,
    data: &[u8],
    trim_start: u64,
    trim_end: u64,
    r: Result<GenericAudioBufferRef<'a>, Error>,
)
    requires
        old(decoder)@.wf(),
        !old(decoder)@.stream.validated,
        call_ensures(AacDecoder::decode, (decoder, data, trim_start, trim_end), r),
        final(decoder)@.refused is None,
        final(decoder)@.outcome is Ok,
        1 <= final(decoder)@.facts.num_channels <= 2,
        0 <= final(decoder)@.facts.aot < 45,
    ensures
        r is Ok,
        ({
            let facts = final(decoder)@.facts;
            let samples = final(decoder)@.outcome->Ok_0;
            let n = facts.num_channels as int;
            let start = (trim_start as usize) as int;
            let left = facts.frame_size - start - (trim_end as usize);
            let frames = if left > 0 { left } else { 0 };
            let planes = shown_planes(r->Ok_0);
            &&& shown_rate(r->Ok_0) == facts.sample_rate as u32
            &&& shown_discrete_channels(r->Ok_0) == Some(n as u16)
            &&& samples.len() == facts.num_channels * facts.frame_size
            &&& planes.len() == n
            &&& forall|c: int| 0 <= c < n ==> (#[trigger] planes[c]).len() == frames
            &&& forall|c: int, i: int|
                0 <= c < n && 0 <= i < frames ==> #[trigger] planes[c][i] == samples[(start + i) * n
                    + c]
        }),
        final(decoder)@.wf(),
{
    let after = final(decoder)@;
    let n = after.facts.num_channels as int;
    let start = (trim_start as usize) as int;
    let end = (trim_end as usize) as int;
    lemma_first_frame(old(decoder)@.stream, after.facts, after.pcm, start, end);
    let planes = shown_planes(r->Ok_0);
    let samples = after.outcome->Ok_0;
    let f = after.facts.frame_size as int;
    assert forall|c: int, i: int| 0 <= c < n && 0 <= i < after.stream.frames implies #[trigger]
        planes[c][i] == samples[(start + i) * n + c] by {
        assert(planes[c][i] == after.stream.planes[c][i]);
        assert(n == 1 ==> (start + i) * n == start + i && n * f == f) by (nonlinear_arith);
        assert(n == 2 ==> (start + i) * n == 2 * (start + i) && n * f == 2 * f)
            by (nonlinear_arith);
    }
}

/// With a first good frame the stream is settled on what the library behind the decoder reports:
/// the channels and the frames of what was decoded, the object type and the rate of what was coded,
/// and the sampling frequency index of that rate.
pub proof fn first_good_frame_settles_the_stream<'a>(
    decoder: &'a mut AacDecoder,
    data: &[u8],
    trim_start: u64,
    trim_end: u64,
    r: Result<GenericAudioBufferRef<'a>, Error>,
    index: u8,
)
    requires
        old(decoder)@.wf(),
        !old(decoder)@.stream.validated,
        call_ensures(AacDecoder::decode, (decoder, data, trim_start, trim_end), r),
        final(decoder)@.refused is None,
        final(decoder)@.outcome is Ok,
        1 <= final(decoder)@.facts.num_channels <= 2,
        0 <= final(decoder)@.facts.aot < 45,
        call_ensures(
            sample_rate_index,
            (final(decoder)@.facts.aac_sample_rate as u32,),
            index,
        ),
    ensures
        ({
            let facts = final(decoder)@.facts;
            let stream = final(decoder)@.stream;
            &&& stream.validated
            &&& stream.info.otype.number() == facts.aot
            &&& stream.info.channels == facts.num_channels
            &&& stream.info.sample_rate == facts.aac_sample_rate as u32
            &&& stream.info.sample_rate_index == index
            &&& stream.info.samples == facts.frame_size
            &&& stream.rate == facts.sample_rate as u32
            &&& stream.params.sample_rate == Some(facts.aac_sample_rate as u32)
            &&& stream.params.channels == Some(ChannelLayout::Discrete(facts.num_channels as u16))
            &&& stream.params.extra_data == old(decoder)@.stream.params.extra_data
        }),
{
    let after = final(decoder)@;
    let start = (trim_start as usize) as int;
    let end = (trim_end as usize) as int;
    lemma_first_frame(old(decoder)@.stream, after.facts, after.pcm, start, end);
}

/// A later frame that is good is shown as well, as the first one was: with the channels, the rate
/// and the length that the first one has settled. Where two channels have fewer frames than that,
/// the samples that were there before follow on theirs. A frame that does not fit is an error.
pub proof fn later_good_frame_is_shown<'a>(
    decoder: &'a mut AacDecoder,
    data: &[u8],
    trim_start: u64,
    trim_end: u64,
    r: Result<GenericAudioBufferRef<'a>, Error>,
)
    requires
        old(decoder)@.wf(),
        old(decoder)@.stream.validated,
        call_ensures(AacDecoder::decode, (decoder, data, trim_start, trim_end), r),
        final(decoder)@.refused is None,
        final(decoder)@.outcome is Ok,
    ensures
        ({
            let before = old(decoder)@.stream;
            let after = final(decoder)@.stream;
            let samples = final(decoder)@.outcome->Ok_0;
            let n = before.info.channels as int;
            let length = before.info.samples as int;
            let start = (trim_start as usize) as int;
            let left = length - start - (trim_end as usize);
            let frames = if left > 0 { left } else { 0 };
            let planes = shown_planes(r->Ok_0);
            &&& samples.len() == length * n ==> r is Ok
            &&& r is Ok <==> if n == 1 {
                samples.len() == length
            } else {
                samples.len() % 2 == 0 && samples.len() <= 2 * length
            }
            &&& r is Err ==> r == Err::<GenericAudioBufferRef<'a>, Error>(Error::FrameMismatch)
            &&& r is Ok ==> {
                &&& shown_rate(r->Ok_0) == before.rate
                &&& shown_discrete_channels(r->Ok_0) == Some(n as u16)
                &&& planes.len() == n
                &&& forall|c: int| 0 <= c < n ==> (#[trigger] planes[c]).len() == frames
                &&& forall|c: int, i: int|
                    0 <= c < n && 0 <= i < frames ==> #[trigger] planes[c][i] == if (start + i) * n
                        + c < samples.len() {
                        samples[(start + i) * n + c]
                    } else {
                        before.planes[c][start + i]
                    }
            }
            &&& after.validated
            &&& after.info == before.info
            &&& after.params == before.params
            &&& after.rate == before.rate
        }),
        final(decoder)@.wf(),
{
    let before = old(decoder)@.stream;
    let after = final(decoder)@;
    let n = before.info.channels as int;
    let length = before.info.samples as int;
    let start = (trim_start as usize) as int;
    let end = (trim_end as usize) as int;
    let samples = after.outcome->Ok_0;
    assert(after.capacity() >= 0) by (nonlinear_arith)
        requires
            after.capacity() == after.facts.num_channels * after.facts.frame_size,
            after.facts.num_channels > 0,
            after.facts.frame_size > 0,
    ;
    lemma_later_frame(before, after.facts, after.capacity(), after.pcm, start, end);
    assert(n == 1 ==> length * n == length) by (nonlinear_arith);
    assert(n == 2 ==> length * n == 2 * length) by (nonlinear_arith);
    if r is Ok {
        let planes = shown_planes(r->Ok_0);
        assert forall|c: int, i: int| 0 <= c < n && 0 <= i < after.stream.frames implies #[trigger]
            planes[c][i] == if (start + i) * n + c < samples.len() {
            samples[(start + i) * n + c]
        } else {
            before.planes[c][start + i]
        } by {
            assert(planes[c][i] == after.stream.planes[c][i]);
            assert((start + i) * n + c >= 0) by (nonlinear_arith)
                requires
                    start >= 0,
                    i >= 0,
                    n >= 0,
                    c >= 0,
            ;
        }
    }
}

/// A first frame that cannot be shown is an error: one of another number of channels, which is noted
/// all the same, or one of an object type without a name. The buffer and what it shows stay.
pub proof fn first_bad_frame_is_an_error<'a>(
    decoder: &'a mut AacDecoder,
    data: &[u8],
    trim_start: u64,
    trim_end: u64,
    r: Result<GenericAudioBufferRef<'a>, Error>,
)
    requires
        old(decoder)@.wf(),
        !old(decoder)@.stream.validated,
        call_ensures(AacDecoder::decode, (decoder, data, trim_start, trim_end), r),
        final(decoder)@.refused is None,
        final(decoder)@.outcome is Ok,
    ensures
        ({
            let facts = final(decoder)@.facts;
            let before = old(decoder)@.stream;
            let after = final(decoder)@.stream;
            let named = 0 <= facts.aot < 45;
            &&& !named ==> {
                &&& r == Err::<GenericAudioBufferRef<'a>, Error>(Error::UnknownObjectType)
                &&& after == before
            }
            &&& named && 3 <= facts.num_channels <= 255 ==> {
                &&& r == Err::<GenericAudioBufferRef<'a>, Error>(
                    Error::Unsupported("aac: unsupported number of channels"),
                )
                &&& !after.validated
                &&& after.info.otype.number() == facts.aot
                &&& after.info.channels == facts.num_channels
                &&& after.info.sample_rate == facts.aac_sample_rate as u32
                &&& after.params.extra_data == before.params.extra_data
                &&& after.params.channels == Some(
                    ChannelLayout::Discrete(facts.num_channels as u16),
                )
                &&& after.params.sample_rate == Some(facts.aac_sample_rate as u32)
                &&& after.planes == before.planes
                &&& after.frames == before.frames
                &&& after.rate == before.rate
                &&& after.discrete == before.discrete
            }
            &&& facts.num_channels > 2 ==> r is Err
        }),
{
    let facts = final(decoder)@.facts;
    if 0 <= facts.aot < 45 {
        lemma_some_type_is_numbered(facts.aot as int);
    }
    let n = facts.num_channels as int;
    let f = facts.frame_size as int;
    vstd::arithmetic::div_mod::lemma_div_multiples_vanish(f, n);
    assert(n > 2 ==> n * f > 2 * f) by (nonlinear_arith)
        requires
            f > 0,
    ;
    assert(f <= n * f) by (nonlinear_arith)
        requires
            n > 0,
            f > 0,
    ;
}

/// A packet that the library behind the decoder refuses is an error with the words of that library.
/// No frame is decoded, and nothing that is shown or known changes.
pub proof fn refused_packet_is_an_error<'a>(
    decoder: &'a mut AacDecoder,
    data: &[u8],
    trim_start: u64,
    trim_end: u64,
    r: Result<GenericAudioBufferRef<'a>, Error>,
)
    requires
        old(decoder)@.wf(),
        call_ensures(AacDecoder::decode, (decoder, data, trim_start, trim_end), r),
        final(decoder)@.refused is Some,
    ensures
        r == Err::<GenericAudioBufferRef<'a>, Error>(
            Error::DecodeError(final(decoder)@.refused->0.message),
        ),
        final(decoder)@.stream == old(decoder)@.stream,
        final(decoder)@.pcm == old(decoder)@.pcm,
        final(decoder)@.outcome == old(decoder)@.outcome,
        final(decoder)@.facts == old(decoder)@.facts,
        final(decoder)@.history.len() == old(decoder)@.history.len() + 1,
{
}

/// Where the library behind the decoder fails to decode a packet, that is an error with its words,
/// and nothing that is shown or known changes. The one exception is a lost start of a frame: that is
/// no error, and a buffer without a frame comes back.
pub proof fn failed_packet_is_an_error<'a>(
    decoder: &'a mut AacDecoder,
    data: &[u8],
    trim_start: u64,
    trim_end: u64,
    r: Result<GenericAudioBufferRef<'a>, Error>,
)
    requires
        old(decoder)@.wf(),
        call_ensures(AacDecoder::decode, (decoder, data, trim_start, trim_end), r),
        final(decoder)@.refused is None,
        final(decoder)@.outcome is Err,
    ensures
        ({
            let fault = final(decoder)@.outcome->Err_0;
            let before = old(decoder)@.stream;
            let after = final(decoder)@.stream;
            &&& !fault.sync_lost ==> {
                &&& r == Err::<GenericAudioBufferRef<'a>, Error>(Error::DecodeError(fault.message))
                &&& after == before
            }
            &&& fault.sync_lost ==> {
                let planes = shown_planes(r->Ok_0);
                &&& r is Ok
                &&& planes.len() == before.planes.len()
                &&& forall|c: int| 0 <= c < planes.len() ==> (#[trigger] planes[c]).len() == 0
                &&& shown_rate(r->Ok_0) == before.rate
                &&& after.frames == 0
                &&& after.planes == before.planes
                &&& after.info == before.info
                &&& after.validated == before.validated
                &&& after.params == before.params
                &&& after.rate == before.rate
            }
        }),
        final(decoder)@.wf(),
{
}

/// One packet is one frame. What is done with the library behind the decoder is: it is handed a
/// header of seven bytes and the packet, in one piece; and unless it refuses them, it is asked for
/// one frame. The header has the object type, the sampling frequency index and the channels of the
/// stream, and the length of header and packet.
pub proof fn packet_is_handed_over_as_one_frame<'a>(
    decoder: &'a mut AacDecoder,
    data: &[u8],
    trim_start: u64,
    trim_end: u64,
    r: Result<GenericAudioBufferRef<'a>, Error>,
)
    requires
        old(decoder)@.wf(),
        old(decoder)@.stream.info.otype != M4AType::Null,
        data@.len() % 0x1_0000 <= 0xfff8,
        call_ensures(AacDecoder::decode, (decoder, data, trim_start, trim_end), r),
    ensures
        ({
            let info = old(decoder)@.stream.info;
            let before = old(decoder)@.history;
            let after = final(decoder)@.history;
            let n = before.len() as int;
            let frame = after[n]->Fill_0;
            let length = data@.len() % 0x1_0000 + 7;
            let c = info.channels as int;
            &&& after.len() == n + if final(decoder)@.refused is Some { 1int } else { 2int }
            &&& forall|i: int| 0 <= i < n ==> after[i] == before[i]
            &&& after[n] is Fill
            &&& final(decoder)@.refused is None ==> after[n + 1] is DecodeFrame
            &&& frame.len() == data@.len() + 7
            &&& forall|i: int| 0 <= i < data@.len() ==> #[trigger] frame[7 + i] == data@[i]
            &&& frame[0] == 0xff
            &&& frame[1] == 0xf1
            &&& frame[2] == ((info.otype.number() - 1) % 4) * 64 + info.sample_rate_index * 4 + 2
                + (c / 4) % 2
            &&& frame[3] == (c % 4) * 64 + 0x3c + (length / 2048) % 4
            &&& frame[4] == (length / 8) % 256
            &&& frame[5] == (length % 8) * 32 + 31
            &&& frame[6] == 0xfc
        }),
{
    let info = old(decoder)@.stream.info;
    lemma_header_bytes(
        info.otype,
        info.sample_rate_index,
        info.channels,
        data@.len() as int,
    );
}

/// A first frame that is handed to a stream is spread over its channels, in order, but for what is
/// trimmed, and settles the stream: of one or two channels, of any length, and of any object type
/// that has a name. The buffer is labelled with the rate of the decoded signal.
pub proof fn stream_takes_over_first_frame(
    stream: &mut AacStream,
    facts: StreamFacts,
    capacity: usize,
    pcm: &[i16],
    trim_start: u64,
    trim_end: u64,
    r: Result<(), Error>,
    index: u8,
)
    requires
        old(stream)@.wf(),
        !old(stream)@.validated,
        1 <= facts.num_channels <= 2,
        0 < facts.frame_size,
        0 <= facts.aot < 45,
        capacity == facts.num_channels * facts.frame_size,
        capacity <= pcm@.len(),
        capacity <= 8192,
        call_ensures(
            AacStream::accept_frame,
            (stream, facts, capacity, pcm, trim_start, trim_end),
            r,
        ),
        call_ensures(sample_rate_index, (facts.aac_sample_rate as u32,), index),
    ensures
        call_requires(
            AacStream::accept_frame,
            (stream, facts, capacity, pcm, trim_start, trim_end),
        ),
        r == Ok::<(), Error>(()),
        ({
            let after = final(stream)@;
            let n = facts.num_channels as int;
            let start = (trim_start as usize) as int;
            let left = facts.frame_size - start - (trim_end as usize);
            &&& after.frames == if left > 0 { left } else { 0 }
            &&& after.planes.len() == n
            &&& forall|c: int, i: int|
                0 <= c < n && 0 <= i < after.frames ==> #[trigger] after.planes[c][i] == pcm@[(start
                    + i) * n + c]
            &&& after.rate == facts.sample_rate as u32
            &&& after.discrete == Some(n as u16)
            &&& after.validated
            &&& after.info.otype.number() == facts.aot
            &&& after.info.channels == n
            &&& after.info.sample_rate == facts.aac_sample_rate as u32
            &&& after.info.sample_rate_index == index
            &&& after.info.samples == facts.frame_size
            &&& after.params.sample_rate == Some(facts.aac_sample_rate as u32)
            &&& after.params.channels == Some(ChannelLayout::Discrete(n as u16))
            &&& after.params.extra_data == old(stream)@.params.extra_data
        }),
        final(stream)@.wf(),
{
    let start = (trim_start as usize) as int;
    let end = (trim_end as usize) as int;
    let n = facts.num_channels as int;
    let f = facts.frame_size as int;
    let samples = pcm@.take(capacity as int);
    lemma_first_frame(old(stream)@, facts, samples, start, end);
    assert(samples.take(capacity as int) =~= samples);
    let after = final(stream)@;
    assert forall|c: int, i: int| 0 <= c < n && 0 <= i < after.frames implies #[trigger]
        after.planes[c][i] == pcm@[(start + i) * n + c] by {
        assert(n == 1 ==> (start + i) * n == start + i && n * f == f) by (nonlinear_arith);
        assert(n == 2 ==> (start + i) * n == 2 * (start + i) && n * f == 2 * f)
            by (nonlinear_arith);
    }
}

/// A first frame of a number of channels that cannot be shown, or of an object type without a name,
/// is an error, and leaves the buffer of the stream as it is.
pub proof fn stream_refuses_first_frame(
    stream: &mut AacStream,
    facts: StreamFacts,
    capacity: usize,
    pcm: &[i16],
    trim_start: u64,
    trim_end: u64,
    r: Result<(), Error>,
)
    requires
        old(stream)@.wf(),
        !old(stream)@.validated,
        3 <= facts.num_channels <= 255 || (facts.num_channels > 0 && !(0 <= facts.aot < 45)),
        call_ensures(
            AacStream::accept_frame,
            (stream, facts, capacity, pcm, trim_start, trim_end),
            r,
        ),
    ensures
        r == Err::<(), Error>(
            if 0 <= facts.aot < 45 {
                Error::Unsupported("aac: unsupported number of channels")
            } else {
                Error::UnknownObjectType
            },
        ),
        final(stream)@.planes == old(stream)@.planes,
        final(stream)@.frames == old(stream)@.frames,
        final(stream)@.rate == old(stream)@.rate,
        final(stream)@.discrete == old(stream)@.discrete,
        !final(stream)@.validated,
        !(0 <= facts.aot < 45) ==> final(stream)@ == old(stream)@,
        0 <= facts.aot < 45 ==> {
            &&& final(stream)@.info.channels == facts.num_channels
            &&& final(stream)@.params.sample_rate == Some(facts.aac_sample_rate as u32)
            &&& final(stream)@.params.channels == Some(
                ChannelLayout::Discrete(facts.num_channels as u16),
            )
        },
{
    if 0 <= facts.aot < 45 {
        lemma_some_type_is_numbered(facts.aot as int);
    }
}

/// A later frame is spread over the channels that the stream was settled on, whatever is reported
/// with it. It has to fill the plane of a single channel; of two channels it may be short, and the
/// samples that were there before follow. One that does not fit is an error, and shows nothing.
pub proof fn stream_takes_over_later_frame(
    stream: &mut AacStream,
    facts: StreamFacts,
    capacity: usize,
    pcm: &[i16],
    trim_start: u64,
    trim_end: u64,
    r: Result<(), Error>,
)
    requires
        old(stream)@.wf(),
        old(stream)@.validated,
        capacity <= pcm@.len(),
        capacity <= 8192,
        call_ensures(
            AacStream::accept_frame,
            (stream, facts, capacity, pcm, trim_start, trim_end),
            r,
        ),
    ensures
        call_requires(
            AacStream::accept_frame,
            (stream, facts, capacity, pcm, trim_start, trim_end),
        ),
        ({
            let before = old(stream)@;
            let after = final(stream)@;
            let n = before.info.channels as int;
            let length = before.info.samples as int;
            let start = (trim_start as usize) as int;
            let left = length - start - (trim_end as usize);
            &&& r is Ok <==> if n == 1 {
                capacity == length
            } else {
                capacity % 2 == 0 && capacity <= 2 * length
            }
            &&& r is Err ==> r == Err::<(), Error>(Error::FrameMismatch) && after.frames == 0
            &&& r is Ok ==> {
                &&& after.frames == if left > 0 { left } else { 0 }
                &&& forall|c: int, i: int|
                    0 <= c < n && 0 <= i < after.frames ==> #[trigger] after.planes[c][i] == if (
                    start + i) * n + c < capacity {
                        pcm@[(start + i) * n + c]
                    } else {
                        before.planes[c][start + i]
                    }
            }
            &&& after.planes.len() == n
            &&& after.validated
            &&& after.info == before.info
            &&& after.params == before.params
            &&& after.rate == before.rate
            &&& after.discrete == before.discrete
        }),
        final(stream)@.wf(),
{
    let start = (trim_start as usize) as int;
    let end = (trim_end as usize) as int;
    lemma_later_frame(old(stream)@, facts, capacity as int, pcm@, start, end);
}

/// A stream deals with a failure of the decoder: a lost start of a frame empties what is shown and
/// is no error, any other failure is an error with its words and changes nothing.
pub proof fn stream_deals_with_failures(
    stream: &mut AacStream,
    fault: DecoderFault,
    r: Result<(), Error>,
)
    requires
        old(stream)@.wf(),
        call_ensures(AacStream::recover, (stream, fault), r),
    ensures
        call_requires(AacStream::recover, (stream, fault)),
        fault.sync_lost ==> r == Ok::<(), Error>(()) && final(stream)@.frames == 0,
        !fault.sync_lost ==> r == Err::<(), Error>(Error::DecodeError(fault.message))
            && final(stream)@.frames == old(stream)@.frames,
        final(stream)@.planes == old(stream)@.planes,
        final(stream)@.info == old(stream)@.info,
        final(stream)@.validated == old(stream)@.validated,
        final(stream)@.params == old(stream)@.params,
        final(stream)@.rate == old(stream)@.rate,
        final(stream)@.discrete == old(stream)@.discrete,
        final(stream)@.wf(),
{
}

/// A stream shows the frames of its buffer that are committed, one plane per channel, with the rate
/// and the layout of the buffer. A decoder shows what its stream shows.
pub proof fn committed_frames_are_shown(
    stream: &AacStream,
    by_stream: GenericAudioBufferRef<'_>,
    decoder: &AacDecoder,
    by_decoder: GenericAudioBufferRef<'_>,
)
    requires
        call_ensures(AacStream::last_decoded, (stream,), by_stream),
        call_ensures(AacDecoder::last_decoded, (decoder,), by_decoder),
        stream@.wf(),
        decoder@.wf(),
        stream@ == decoder@.stream,
    ensures
        shown_planes(by_stream).len() == stream@.planes.len(),
        forall|c: int|
            0 <= c < stream@.planes.len() ==> (#[trigger] shown_planes(by_stream)[c]).len()
                == stream@.frames,
        forall|c: int, i: int|
            0 <= c < stream@.planes.len() && 0 <= i < stream@.frames
                ==> #[trigger] shown_planes(by_stream)[c][i] == stream@.planes[c][i],
        shown_rate(by_stream) == stream@.rate,
        shown_discrete_channels(by_stream) == stream@.discrete,
        shown_planes(by_decoder) == shown_planes(by_stream),
        shown_rate(by_decoder) == shown_rate(by_stream),
        shown_discrete_channels(by_decoder) == shown_discrete_channels(by_stream),
{
    assert forall|c: int| 0 <= c < stream@.planes.len() implies (#[trigger] shown_planes(
        by_stream,
    )[c]).len() == stream@.frames by {
        assert(stream@.planes[c].len() == stream@.planes[0].len());
    }
}

/// What a decoder tells of itself is what it holds.
pub proof fn decoder_tells_its_state(
    decoder: &AacDecoder,
    params: &CodecParams,
    info: M4AInfo,
    validated: bool,
    pcm: &[i16],
)
    requires
        call_ensures(AacDecoder::codec_params, (decoder,), params),
        call_ensures(AacDecoder::m4a_info, (decoder,), info),
        call_ensures(AacDecoder::m4a_info_validated, (decoder,), validated),
        call_ensures(AacDecoder::pcm, (decoder,), pcm),
    ensures
        params.sample_rate == decoder@.stream.params.sample_rate,
        params.channels == decoder@.stream.params.channels,
        params@ == decoder@.stream.params,
        info == decoder@.stream.info,
        validated == decoder@.stream.validated,
        pcm@ == decoder@.pcm,
{
}

/// What a stream tells of itself is what it holds.
pub proof fn stream_tells_its_state(stream: &AacStream, params: &CodecParams, info: M4AInfo)
    requires
        call_ensures(AacStream::codec_params, (stream,), params),
        call_ensures(AacStream::m4a_info, (stream,), info),
    ensures
        params.sample_rate == stream@.params.sample_rate,
        params.channels == stream@.params.channels,
        params@ == stream@.params,
        info == stream@.info,
{
}

/// Resetting a decoder leaves it as it is.
pub proof fn reset_changes_nothing(decoder: &mut AacDecoder)
    requires
        call_ensures(AacDecoder::reset, (decoder,), ()),
    ensures
        *final(decoder) == *old(decoder),
{
}

/// A buffer can be made for one or two channels, and for no other number. It holds silence, with the
/// room that is known of the stream, and has the rate that is asked for, whatever else is known.
pub proof fn buffers_are_made_for_one_or_two_channels(
    info: &M4AInfo,
    sample_rate: u32,
    r: Result<PcmBuffer, Error>,
)
    requires
        call_ensures(audio_buffer, (info, sample_rate), r),
    ensures
        r is Ok <==> info.channels == 1 || info.channels == 2,
        r is Err ==> r == Err::<PcmBuffer, Error>(
            Error::Unsupported("aac: unsupported number of channels"),
        ),
        r matches Ok(buf) ==> {
            &&& stored_planes(buf).len() == info.channels
            &&& forall|c: int|
                0 <= c < info.channels ==> (#[trigger] stored_planes(buf)[c]).len() == info.samples
            &&& forall|c: int, i: int|
                0 <= c < info.channels && 0 <= i < info.samples ==> #[trigger] stored_planes(
                    buf,
                )[c][i] == 0
            &&& committed_frames(buf) == 0
            &&& buffer_rate(buf) == sample_rate
            &&& discrete_channels(buf) == Some(info.channels as u16)
        },
{
}

/// Without a configuration a stream is opened as the container describes it: as AAC-LC, with its
/// rate, or 0 where it gives none, and with its channels, of which there have to be one or two when
/// they are counted in eight bits.
pub proof fn stream_opens_as_the_container_says(
    params: &CodecParams,
    r: Result<AacStream, Error>,
    index: u8,
)
    requires
        params.extra_data is None,
        call_ensures(AacStream::open, (params,), r),
        call_ensures(
            sample_rate_index,
            (if params.sample_rate is Some {
                params.sample_rate->0
            } else {
                0
            },),
            index,
        ),
    ensures
        params.channels is None ==> r == Err::<AacStream, Error>(
            Error::Unsupported("aac: channels or channel layout is required"),
        ),
        params.channels is Some ==> {
            let count = match params.channels->0 {
                ChannelLayout::Declared(count) => count as int,
                ChannelLayout::Discrete(count) => count as int,
            } % 256;
            &&& r is Ok <==> count == 1 || count == 2
            &&& r is Err ==> r == Err::<AacStream, Error>(
                Error::Unsupported("aac: unsupported number of channels"),
            )
            &&& r matches Ok(stream) ==> {
                &&& stream@.info.otype == M4AType::Lc
                &&& stream@.info.channels == count
                &&& params.sample_rate is Some ==> stream@.info.sample_rate
                    == params.sample_rate->0
                &&& params.sample_rate is None ==> stream@.info.sample_rate == 0
                &&& stream@.info.sample_rate_index == index
                &&& stream@.info.samples == 0
            }
        },
{
    if params.channels is Some {
        match params.channels->0 {
            ChannelLayout::Declared(count) => {
                assert(count as u8 == count % 256) by (bit_vector);
            },
            ChannelLayout::Discrete(count) => {
                let wide = count as usize;
                assert(wide as u8 == wide % 256) by (bit_vector);
            },
        }
    }
}

/// With a configuration a stream is opened as that says: with what is read from it, whatever else
/// the container gives. It has to be of two bytes or more, to be valid, and to name one or two
/// channels.
pub proof fn stream_opens_as_the_configuration_says(
    params: &CodecParams,
    r: Result<AacStream, Error>,
    info: &mut M4AInfo,
    data: &[u8],
    read: Result<(), Error>,
)
    requires
        params.extra_data is Some,
        params.extra_data->0@ == data@,
        call_ensures(AacStream::open, (params,), r),
        call_ensures(M4AInfo::default, (), *old(info)),
        call_ensures(M4AInfo::read, (info, data), read),
    ensures
        data@.len() < 2 || read is Err ==> r == Err::<AacStream, Error>(
            Error::DecodeError("aac: invalid data"),
        ),
        data@.len() >= 2 && read is Ok ==> {
            &&& r is Ok <==> final(info).channels == 1 || final(info).channels == 2
            &&& r is Err ==> r == Err::<AacStream, Error>(
                Error::Unsupported("aac: unsupported number of channels"),
            )
            &&& r is Ok ==> r->Ok_0@.info == *final(info)
        },
{
}

/// A stream that is opened is not settled yet. Its buffer is laid out for what is known of it, holds
/// silence, and shows nothing; its parameters are those that it was opened with.
pub proof fn opened_stream_is_silent(params: &CodecParams, r: Result<AacStream, Error>)
    requires
        call_ensures(AacStream::open, (params,), r),
        r is Ok,
    ensures
        ({
            let stream = r->Ok_0@;
            &&& stream.wf()
            &&& !stream.validated
            &&& stream.frames == 0
            &&& stream.planes.len() == stream.info.channels
            &&& forall|c: int|
                0 <= c < stream.planes.len() ==> (#[trigger] stream.planes[c]).len()
                    == stream.info.samples
            &&& forall|c: int, i: int|
                0 <= c < stream.planes.len() && 0 <= i < stream.info.samples
                    ==> #[trigger] stream.planes[c][i] == 0
            &&& stream.rate == stream.info.sample_rate
            &&& stream.discrete == Some(stream.info.channels as u16)
            &&& stream.params.sample_rate == params.sample_rate
            &&& stream.params.channels == params.channels
            &&& stream.params.extra_data is Some <==> params.extra_data is Some
            &&& params.extra_data is Some ==> stream.params.extra_data->0 == params.extra_data->0@
        }),
{
}

/// A decoder is opened exactly where a stream is, and on the same stream; it fails as that fails.
/// Nothing was done yet with the library behind it, and there is room for 8192 samples.
pub proof fn decoder_opens_on_its_stream(
    params: &CodecParams,
    stream: Result<AacStream, Error>,
    decoder: Result<AacDecoder, Error>,
)
    requires
        call_ensures(AacStream::open, (params,), stream),
        call_ensures(AacDecoder::try_registry_new, (params,), decoder),
    ensures
        decoder is Ok <==> stream is Ok,
        decoder is Err ==> decoder->Err_0 == stream->Err_0,
        decoder is Ok ==> {
            &&& decoder->Ok_0@.stream == stream->Ok_0@
            &&& decoder->Ok_0@.wf()
            &&& decoder->Ok_0@.pcm.len() == 8192
            &&& forall|i: int| 0 <= i < 8192 ==> #[trigger] decoder->Ok_0@.pcm[i] == 0
            &&& decoder->Ok_0@.history.len() == 0
            &&& decoder->Ok_0@.taken_in.len() == 0
        },
{
}

/// Every stream can be opened, or is told why it cannot be.
pub proof fn any_stream_can_be_tried(params: &CodecParams)
    ensures
        call_requires(AacStream::open, (params,)),
        call_requires(AacDecoder::try_registry_new, (params,)),
{
}

} // verus!
