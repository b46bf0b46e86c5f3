//! Opus decoding: what it takes around the decoding of a packet into samples.

use crate::error::Error;
use crate::params::{CodecNames, CodecParams, ParamsView};
use crate::planes::{channel_of, overwrite};
use crate::reader::{open, read_buf_exact, read_byte, read_u16};
use symphonia_core::io::BufReader;
use vstd::prelude::*;

verus! {

/// The highest sample rate of an Opus stream, in Hz.
pub const MAX_SAMPLE_RATE: usize = 48000;

/// The usual sample rate of an Opus stream, in Hz.
pub const DEFAULT_SAMPLE_RATE: usize = 48000;

/// The frames of a packet of 20 ms, which is the usual duration, at the usual sample rate.
pub const DEFAULT_SAMPLES_PER_CHANNEL: usize = DEFAULT_SAMPLE_RATE * 20 / 1000;

/// The frames of a packet of 120 ms, which is the longest duration, at the highest sample rate.
pub const MAX_SAMPLES_PER_CHANNEL: usize = MAX_SAMPLE_RATE * 120 / 1000;

/// The sample rate at which the samples to discard are counted, in Hz.
pub const PRE_SKIP_RATE: u32 = 48000;

/// The number of samples that there is room for when a packet is decoded.
pub const PCM_LENGTH: usize = MAX_SAMPLES_PER_CHANNEL * 2;

/// The number of samples at 48 kHz to discard from the start of the stream, which stands in the
/// header of an Opus stream behind a signature of 8 bytes, a version and a number of channels.
pub open spec fn pre_skip_field(head: Seq<u8>) -> Option<int> {
    if head.len() >= 12 {
        Some(head[10] + 256 * head[11])
    } else {
        None
    }
}

/// Reads the number of samples at 48 kHz to discard from the start of the stream off the header of
/// an Opus stream.
pub fn parse_pre_skip(buf: &[u8]) -> (r: Result<usize, Error>)
    ensures
        match pre_skip_field(buf@) {
            Some(pre_skip) => r is Ok && r->Ok_0 == pre_skip,
            None => r == Err::<usize, Error>(Error::IoError),
        },
{
    let mut reader: BufReader<'_> = open(buf);

    // The signature.
    let mut header: [u8; 8] = [0; 8];
    match read_buf_exact(&mut reader, &mut header) {
        Ok(()) => {},
        Err(_) => return Err(Error::IoError),
    }

    // The version.
    match read_byte(&mut reader) {
        Ok(_) => {},
        Err(_) => return Err(Error::IoError),
    }

    // The number of channels, which the parameters of the stream give as well.
    match read_byte(&mut reader) {
        Ok(_) => {},
        Err(_) => return Err(Error::IoError),
    }

    match read_u16(&mut reader) {
        Ok(pre_skip) => Ok(pre_skip as usize),
        Err(_) => Err(Error::IoError),
    }
}

/// The state of an Opus stream.
pub struct OpusView {
    /// The parameters of the stream.
    pub params: ParamsView,
    /// The number of frames that the buffer has room for.
    pub samples_per_channel: usize,
    /// The sample rate, in Hz.
    pub sample_rate: u32,
    /// The number of channels.
    pub channels: usize,
    /// The number of samples at 48 kHz to discard from the start of the stream.
    pub pre_skip: usize,
}

impl OpusView {
    /// Whether there are one or two channels, no packet was longer than there is room for, and the
    /// number of samples to discard is one of 16 bits.
    pub open spec fn wf(self) -> bool {
        &&& 1 <= self.channels <= 2
        &&& DEFAULT_SAMPLES_PER_CHANNEL <= self.samples_per_channel <= PCM_LENGTH
        &&& self.pre_skip <= u16::MAX
    }

    /// A stream that was opened, or why it could not be. A header that is too short is as good as
    /// none.
    pub open spec fn opened(params: ParamsView) -> Result<OpusView, Error> {
        if params.channels is None {
            Err(Error::Unsupported("opus: channels or channel layout is required"))
        } else if params.sample_rate is None {
            Err(Error::Unsupported("opus: sample rate required"))
        } else if !(1 <= params.channels->0.spec_count() <= 2) {
            Err(Error::Unsupported("opus: unsupported number of channels"))
        } else {
            Ok(
                OpusView {
                    params,
                    samples_per_channel: DEFAULT_SAMPLES_PER_CHANNEL,
                    sample_rate: params.sample_rate->0,
                    channels: params.channels->0.spec_count(),
                    pre_skip: match params.extra_data {
                        Some(head) => match pre_skip_field(head) {
                            Some(pre_skip) => pre_skip as usize,
                            None => 0,
                        },
                        None => 0,
                    },
                },
            )
        }
    }

    /// Whether there is room for the samples of a packet of so many frames.
    pub open spec fn has_room(self, samples_per_channel: int) -> bool {
        samples_per_channel * self.channels <= PCM_LENGTH
    }

    /// The number of frames to discard from the start of the stream, at the rate of the stream.
    pub open spec fn frames_to_skip(self) -> int {
        (self.pre_skip * self.sample_rate) / PRE_SKIP_RATE as int
    }

    /// The number of frames at the front of a packet of so many frames that are to be discarded.
    pub open spec fn to_discard(self, samples_per_channel: usize) -> usize {
        if self.frames_to_skip() < samples_per_channel {
            self.frames_to_skip() as usize
        } else {
            samples_per_channel
        }
    }

    /// What is to be done with a packet of so many frames.
    pub open spec fn plan(self, samples_per_channel: usize) -> FramePlan {
        FramePlan {
            grow_to: if samples_per_channel > self.samples_per_channel {
                Some(samples_per_channel)
            } else {
                None
            },
            frames: (samples_per_channel - self.to_discard(samples_per_channel)) as usize,
            first: (self.to_discard(samples_per_channel) * self.channels) as usize,
            samples: (samples_per_channel * self.channels) as usize,
        }
    }

    /// The stream after a packet of so many frames: the buffer has grown where it had to, and from
    /// now on nothing is discarded.
    pub open spec fn accepted(self, samples_per_channel: usize) -> OpusView {
        OpusView {
            samples_per_channel: if samples_per_channel > self.samples_per_channel {
                samples_per_channel
            } else {
                self.samples_per_channel
            },
            pre_skip: 0,
            ..self
        }
    }
}

/// An Opus decoder: all of the state of its decoding but what turns a packet into samples.
pub struct OpusDecoder {
    params: CodecParams,
    samples_per_channel: usize,
    sample_rate: u32,
    channels: usize,
    pre_skip: usize,
}

/// What is to be done with the samples of a decoded packet.
#[derive(Clone, Copy, Debug, PartialEq, Eq, Structural)]
pub struct FramePlan {
    /// The number of frames that the buffer has to be made anew for, if it is too small.
    pub grow_to: Option<usize>,
    /// The number of frames that are shown: those that are not discarded.
    pub frames: usize,
    /// The number of samples to discard, over all channels. The first sample that is shown stands
    /// behind them.
    pub first: usize,
    /// The number of samples that were decoded, over all channels.
    pub samples: usize,
}

impl View for OpusDecoder {
    type V = OpusView;

    closed spec fn view(&self) -> OpusView {
        OpusView {
            params: self.params@,
            samples_per_channel: self.samples_per_channel,
            sample_rate: self.sample_rate,
            channels: self.channels,
            pre_skip: self.pre_skip,
        }
    }
}

impl OpusDecoder {
    /// Opens a stream.
    pub fn try_registry_new(params: &CodecParams) -> (r: Result<OpusDecoder, Error>)
        ensures
            match OpusView::opened(params@) {
                Ok(stream) => r is Ok && r->Ok_0@ == stream && stream.wf(),
                Err(e) => r == Err::<OpusDecoder, Error>(e),
            },
    {
        let channels: usize = match &params.channels {
            Some(layout) => layout.count(),
            None => return Err(
                Error::Unsupported("opus: channels or channel layout is required"),
            ),
        };
        let sample_rate: u32 = match params.sample_rate {
            Some(sample_rate) => sample_rate,
            None => return Err(Error::Unsupported("opus: sample rate required")),
        };
        if channels < 1 || channels > 2 {
            return Err(Error::Unsupported("opus: unsupported number of channels"));
        }
        let pre_skip: usize = match &params.extra_data {
            Some(head) => match parse_pre_skip(head.as_slice()) {
                Ok(pre_skip) => pre_skip,
                Err(_) => 0,
            },
            None => 0,
        };
        Ok(
            OpusDecoder {
                params: params.duplicate(),
                samples_per_channel: DEFAULT_SAMPLES_PER_CHANNEL,
                sample_rate,
                channels,
                pre_skip,
            },
        )
    }

    /// Whether there is room for the samples of a packet of so many frames.
    pub fn has_room(&self, samples_per_channel: usize) -> (has: bool)
        requires
            self@.wf(),
        ensures
            has == self@.has_room(samples_per_channel as int),
    {
        let ghost n = samples_per_channel as int;
        let ghost c = self.channels as int;
        assert((c == 1 ==> n * c == n) && (c == 2 ==> n * c == 2 * n)) by (nonlinear_arith);
        if self.channels == 1 {
            samples_per_channel <= PCM_LENGTH
        } else {
            samples_per_channel <= MAX_SAMPLES_PER_CHANNEL
        }
    }

    /// The number of frames at the front of a packet of so many frames that are to be discarded.
    pub fn to_discard(&self, samples_per_channel: usize) -> (frames: usize)
        requires
            self@.wf(),
        ensures
            frames == self@.to_discard(samples_per_channel),
            frames <= samples_per_channel,
    {
        proof {
            lemma_skip_bound(self@);
        }
        let skipped: u64 = self.pre_skip as u64 * self.sample_rate as u64 / PRE_SKIP_RATE as u64;
        if skipped < samples_per_channel as u64 {
            skipped as usize
        } else {
            samples_per_channel
        }
    }

    /// Takes note of a decoded packet of so many frames, and says what is to be done with it.
    pub fn accept_frame(&mut self, samples_per_channel: usize) -> (plan: FramePlan)
        requires
            old(self)@.wf(),
            old(self)@.has_room(samples_per_channel as int),
        ensures
            final(self)@ == old(self)@.accepted(samples_per_channel),
            final(self)@.wf(),
            plan == old(self)@.plan(samples_per_channel),
            plan.first == old(self)@.to_discard(samples_per_channel) * old(self)@.channels,
            plan.samples == samples_per_channel * old(self)@.channels,
    {
        proof {
            buffer_keeps_up(self@, samples_per_channel);
            lemma_plan_fits(self@, samples_per_channel);
        }
        let mut grow_to: Option<usize> = None;
        if samples_per_channel > self.samples_per_channel {
            grow_to = Some(samples_per_channel);
            self.samples_per_channel = samples_per_channel;
        }
        let samples: usize = samples_per_channel * self.channels;
        let discarded: usize = self.to_discard(samples_per_channel);
        let first: usize = discarded * self.channels;

        // Only the first packet has anything to discard.
        self.pre_skip = 0;
        FramePlan { grow_to, frames: samples_per_channel - discarded, first, samples }
    }

    /// The parameters of the stream.
    pub fn codec_params(&self) -> (params: &CodecParams)
        ensures
            params@ == self@.params,
    {
        &self.params
    }

    /// The sample rate, in Hz.
    pub fn sample_rate(&self) -> (sample_rate: u32)
        ensures
            sample_rate == self@.sample_rate,
    {
        self.sample_rate
    }

    /// The number of channels.
    pub fn channels(&self) -> (channels: usize)
        ensures
            channels == self@.channels,
    {
        self.channels
    }

    /// The number of frames that the buffer has room for.
    pub fn samples_per_channel(&self) -> (samples_per_channel: usize)
        ensures
            samples_per_channel == self@.samples_per_channel,
    {
        self.samples_per_channel
    }

    /// The number of samples at 48 kHz to discard from the start of the stream.
    pub fn pre_skip(&self) -> (pre_skip: usize)
        ensures
            pre_skip == self@.pre_skip,
    {
        self.pre_skip
    }

    /// The names of the codec.
    pub fn codec_names() -> (names: CodecNames)
        ensures
            names.long_name@ == "Opus"@,
            names.short_name@ == "opus"@,
    {
        CodecNames { long_name: "Opus", short_name: "opus" }
    }
}

/// The buffer never shrinks and always has room for the packet that was decoded last, it grows only
/// where it has to, and after a packet nothing is left to discard.
pub proof fn buffer_keeps_up(stream: OpusView, samples_per_channel: usize)
    requires
        stream.wf(),
        stream.has_room(samples_per_channel as int),
    ensures
        stream.accepted(samples_per_channel).wf(),
        stream.accepted(samples_per_channel).samples_per_channel >= stream.samples_per_channel,
        stream.accepted(samples_per_channel).samples_per_channel >= samples_per_channel,
        stream.accepted(samples_per_channel).samples_per_channel == stream.samples_per_channel
            || stream.accepted(samples_per_channel).samples_per_channel == samples_per_channel,
        stream.accepted(samples_per_channel).pre_skip == 0,
        stream.accepted(samples_per_channel).sample_rate == stream.sample_rate,
        stream.accepted(samples_per_channel).channels == stream.channels,
        stream.accepted(samples_per_channel).params == stream.params,
{
    let n = samples_per_channel as int;
    let c = stream.channels as int;
    assert(n <= n * c) by (nonlinear_arith)
        requires
            n >= 0,
            c >= 1,
    ;
}

/// There is room for the longest packet that there can be, in mono and in stereo.
pub proof fn longest_packet_has_room(stream: OpusView, samples_per_channel: int)
    requires
        stream.wf(),
        0 <= samples_per_channel <= MAX_SAMPLES_PER_CHANNEL,
    ensures
        stream.has_room(samples_per_channel),
{
    let c = stream.channels as int;
    assert(samples_per_channel * c <= 0x1680 * 2) by (nonlinear_arith)
        requires
            0 <= samples_per_channel <= 0x1680,
            1 <= c <= 2,
    ;
}

// The samples to discard are counted without overflow.
pub(crate) proof fn lemma_skip_bound(stream: OpusView)
    requires
        stream.wf(),
    ensures
        0 <= stream.pre_skip * stream.sample_rate <= 0xffff * 0xffff_ffff,
        0 <= stream.frames_to_skip(),
        stream.pre_skip == 0 ==> stream.frames_to_skip() == 0,
{
    let p = stream.pre_skip as int;
    let r = stream.sample_rate as int;
    assert(0 <= p * r <= 0xffff * 0xffff_ffff) by (nonlinear_arith)
        requires
            0 <= p <= 0xffff,
            0 <= r <= 0xffff_ffff,
    ;
    assert(p == 0 ==> p * r == 0) by (nonlinear_arith);
}

/// At 48 kHz as many frames are discarded as the header says, and at another rate as many as take
/// the same time, to the frame below.
pub proof fn pre_skip_lasts_as_long(stream: OpusView)
    requires
        stream.wf(),
    ensures
        stream.sample_rate == PRE_SKIP_RATE ==> stream.frames_to_skip() == stream.pre_skip,
        stream.frames_to_skip() * PRE_SKIP_RATE <= stream.pre_skip * stream.sample_rate,
        stream.pre_skip * stream.sample_rate < (stream.frames_to_skip() + 1) * PRE_SKIP_RATE,
{
    lemma_skip_bound(stream);
    let p = stream.pre_skip as int;
    let r = stream.sample_rate as int;
    assert(r == 48000 ==> p * r == p * 48000) by (nonlinear_arith);
}

// The samples of a plan are numbers of whole frames.
pub(crate) proof fn lemma_plan_fits(stream: OpusView, samples_per_channel: usize)
    requires
        stream.wf(),
        stream.has_room(samples_per_channel as int),
    ensures
        ({
            let plan = stream.plan(samples_per_channel);
            &&& plan.first == stream.to_discard(samples_per_channel) * stream.channels
            &&& plan.samples == samples_per_channel * stream.channels
            &&& plan.first <= plan.samples <= PCM_LENGTH
            &&& plan.samples - plan.first == plan.frames * stream.channels
            &&& plan.frames <= stream.accepted(samples_per_channel).samples_per_channel
        }),
{
    lemma_skip_bound(stream);
    let n = samples_per_channel as int;
    let d = stream.to_discard(samples_per_channel) as int;
    let c = stream.channels as int;
    assert(c == 1 ==> n * c == n && d * c == d && (n - d) * c == n - d) by (nonlinear_arith);
    assert(c == 2 ==> n * c == 2 * n && d * c == 2 * d && (n - d) * c == 2 * (n - d))
        by (nonlinear_arith);
}

/// A packet is shown as it was decoded, and nothing else is: the planes that are rendered for it,
/// which the buffer has room for, are filled, with nothing left of what they held before. Each has
/// the samples of its channel, in order, from the first frame on that is not discarded.
pub proof fn packet_is_shown<T>(
    stream: OpusView,
    samples_per_channel: usize,
    pcm: Seq<T>,
    left: Seq<T>,
    right: Seq<T>,
)
    requires
        stream.wf(),
        stream.has_room(samples_per_channel as int),
        samples_per_channel * stream.channels <= pcm.len(),
        left.len() == stream.plan(samples_per_channel).frames,
        right.len() == stream.plan(samples_per_channel).frames,
    ensures
        ({
            let plan = stream.plan(samples_per_channel);
            let kept = pcm.subrange(plan.first as int, plan.samples as int);
            let d = stream.to_discard(samples_per_channel) as int;
            &&& plan.frames == samples_per_channel - d
            &&& plan.frames <= stream.accepted(samples_per_channel).samples_per_channel
            &&& plan.first <= plan.samples <= pcm.len()
            &&& stream.channels == 1 ==> {
                &&& kept.len() == left.len()
                &&& kept == pcm.take(samples_per_channel as int).skip(d)
            }
            &&& stream.channels == 2 ==> {
                let whole = pcm.take(2 * samples_per_channel);
                &&& kept.len() % 2 == 0
                &&& kept.len() / 2 == left.len()
                &&& overwrite(left, channel_of(kept, 0)) == channel_of(whole, 0).skip(d)
                &&& overwrite(right, channel_of(kept, 1)) == channel_of(whole, 1).skip(d)
            }
        }),
{
    lemma_skip_bound(stream);
    lemma_plan_fits(stream, samples_per_channel);
    let n = samples_per_channel as int;
    let d = stream.to_discard(samples_per_channel) as int;
    let c = stream.channels as int;
    assert(c == 1 ==> n * c == n && d * c == d) by (nonlinear_arith);
    assert(c == 2 ==> n * c == 2 * n && d * c == 2 * d) by (nonlinear_arith);
}

impl OpusView {
    /// The stream after packets of so many frames each.
    pub open spec fn accepted_all(self, packets: Seq<usize>) -> OpusView
        decreases packets.len(),
    {
        if packets.len() == 0 {
            self
        } else {
            self.accepted_all(packets.drop_last()).accepted(packets.last())
        }
    }
}

/// Only the first packet loses anything: after packets of any lengths, in any order, every frame of
/// the next one is shown, from the first sample on, and the buffer has room for it.
pub proof fn later_packets_are_whole(stream: OpusView, packets: Seq<usize>, next: usize)
    requires
        stream.wf(),
        packets.len() > 0,
        forall|i: int| 0 <= i < packets.len() ==> stream.has_room((#[trigger] packets[i]) as int),
        stream.has_room(next as int),
    ensures
        ({
            let state = stream.accepted_all(packets);
            let plan = state.plan(next);
            &&& state.wf()
            &&& state.pre_skip == 0
            &&& state.channels == stream.channels
            &&& state.to_discard(next) == 0
            &&& plan.frames == next
            &&& plan.first == 0
            &&& plan.samples == next * stream.channels
            &&& state.accepted(next).samples_per_channel >= next
            &&& state.accepted(next).pre_skip == 0
        }),
    decreases packets.len(),
{
    let earlier = packets.drop_last();
    let before = stream.accepted_all(earlier);
    assert(before.wf() && before.channels == stream.channels) by {
        if earlier.len() > 0 {
            assert forall|i: int| 0 <= i < earlier.len() implies stream.has_room(
                (#[trigger] earlier[i]) as int,
            ) by {
                assert(earlier[i] == packets[i]);
            }
            later_packets_are_whole(stream, earlier, next);
        }
    }
    assert(stream.has_room(packets[packets.len() - 1] as int));
    buffer_keeps_up(before, packets.last());
    lemma_skip_bound(stream.accepted_all(packets));
    lemma_plan_fits(stream.accepted_all(packets), next);
}

/// The number of samples to discard is read back from a header that it was written to, whatever
/// stands before and behind it.
pub proof fn pre_skip_is_read_back(before: Seq<u8>, pre_skip: u16, behind: Seq<u8>)
    requires
        before.len() == 10,
    ensures
        pre_skip_field(
            before + seq![(pre_skip % 256) as u8, (pre_skip / 256) as u8] + behind,
        ) == Some(pre_skip as int),
{
}

} // verus!
