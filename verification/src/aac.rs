//! AAC decoding.

use crate::adts::{
    adts_fields, adts_header, construct_adts_header, frame_length_fits, header_carries_its_fields,
    AdtsFields, ADTS_HEADER_LENGTH,
};
use crate::buffer::{
    buffer_rate, committed, committed_frames, discrete_channels, planes_of_length,
    shown_discrete_channels, shown_planes, shown_rate, stored_planes, trimmed_frames,
    trimmed_planes, PcmBuffer,
};
use crate::error::Error;
use crate::fdk::{
    decode_frame, decoded_frame_size, extended_by, fill, history, open_adts, outcome, refused, reported,
    room, stream_info, taken, taken_in, DecoderCall, DecoderFault, StreamFacts,
};
use crate::meta::{
    config_valid, rate_index, sample_rate_index, types_are_found_by_number, M4AInfo, M4AType,
};
use crate::params::{ChannelLayout, CodecNames, CodecParams, ParamsView};
use crate::planes::{channel_of, copy_mono, overwrite, split_stereo};
use fdk_aac::dec::Decoder;
use symphonia_core::audio::GenericAudioBufferRef;
use vstd::prelude::*;

verus! {

/// The number of samples that there is room for when a packet is decoded.
pub const MAX_SAMPLES: usize = 8192;

/// The planes of a buffer in which nothing has been written yet.
pub open spec fn silence(channels: int, length: int) -> Seq<Seq<i16>> {
    Seq::new(channels as nat, |c: int| Seq::new(length as nat, |i: int| 0i16))
}

/// Whether a stream with so many channels can be decoded.
pub open spec fn channels_supported(channels: u8) -> bool {
    1 <= channels <= 2
}

/// The state of an AAC stream.
pub struct AacView {
    /// What is known of the stream.
    pub info: M4AInfo,
    /// Whether that was reported by the decoder.
    pub validated: bool,
    /// The parameters of the stream.
    pub params: ParamsView,
    /// The samples of the buffer, by channel.
    pub planes: Seq<Seq<i16>>,
    /// The number of frames of the buffer that are committed.
    pub frames: nat,
    /// The sample rate of the buffer.
    pub rate: u32,
    /// The number of channels of the buffer, where they are discrete.
    pub discrete: Option<u16>,
}

/// Makes a buffer for a stream, with room for the frames of one packet.
pub fn audio_buffer(m4a_info: &M4AInfo, sample_rate: u32) -> (r: Result<PcmBuffer, Error>)
    requires
        channels_supported(m4a_info.channels) ==> 2 * m4a_info.channels * m4a_info.samples
            <= isize::MAX,
    ensures
        r is Ok <==> channels_supported(m4a_info.channels),
        r matches Err(e) ==> e == Error::Unsupported("aac: unsupported number of channels"),
        r matches Ok(buf) ==> {
            &&& stored_planes(buf) == silence(m4a_info.channels as int, m4a_info.samples as int)
            &&& committed_frames(buf) == 0
            &&& buffer_rate(buf) == sample_rate
            &&& discrete_channels(buf) == Some(m4a_info.channels as u16)
        },
{
    if m4a_info.channels < 1 || m4a_info.channels > 2 {
        return Err(Error::Unsupported("aac: unsupported number of channels"));
    }
    Ok(PcmBuffer::new(sample_rate, m4a_info.channels as u16, m4a_info.samples))
}

/// What is known of a stream when it is opened: what its configuration says, and without one, that
/// it is AAC-LC with the rate and the channels that the container gives.
pub open spec fn opening_info(params: ParamsView) -> Result<M4AInfo, Error> {
    match params.extra_data {
        Some(data) => if data.len() >= 2 && config_valid(data) {
            Ok(M4AInfo::unknown().configured_by(data))
        } else {
            Err(Error::DecodeError("aac: invalid data"))
        },
        None => match params.channels {
            Some(layout) => {
                let rate = match params.sample_rate {
                    Some(rate) => rate,
                    None => 0,
                };
                Ok(
                    M4AInfo {
                        otype: M4AType::Lc,
                        channels: layout.spec_count() as u8,
                        sample_rate: rate,
                        sample_rate_index: rate_index(rate as int) as u8,
                        samples: 0,
                    },
                )
            },
            None => Err(Error::Unsupported("aac: channels or channel layout is required")),
        },
    }
}

impl AacView {
    /// Whether the buffer is laid out as it should be: for one or two discrete channels, and once
    /// the decoder has reported on the stream, for the channels and the frames that it reported.
    pub open spec fn wf(self) -> bool {
        &&& 1 <= self.planes.len() <= 2
        &&& self.discrete == Some(self.planes.len() as u16)
        &&& planes_of_length(self.planes, self.planes[0].len() as int)
        &&& self.frames <= self.planes[0].len()
        &&& self.info.sample_rate_index <= 15
        &&& self.validated ==> {
            &&& self.info.channels == self.planes.len()
            &&& self.info.samples == self.planes[0].len()
        }
    }

    /// A stream that was opened.
    pub open spec fn opened(info: M4AInfo, params: ParamsView) -> AacView {
        AacView {
            info,
            validated: false,
            params,
            planes: silence(info.channels as int, info.samples as int),
            frames: 0,
            rate: info.sample_rate,
            discrete: Some(info.channels as u16),
        }
    }

    /// Whether a reference shows the committed samples of the buffer.
    pub open spec fn shown_by(self, shown: GenericAudioBufferRef<'_>) -> bool {
        &&& shown_planes(shown) == committed(self.planes, self.frames)
        &&& shown_rate(shown) == self.rate
        &&& shown_discrete_channels(shown) == self.discrete
    }

    /// Whether a packet of so many bytes can be framed.
    pub open spec fn can_frame(self, num_bytes: int) -> bool {
        &&& self.info.otype != M4AType::Null
        &&& frame_length_fits(num_bytes)
    }

    /// A packet with the header of a frame in front of it.
    pub open spec fn framed(self, data: Seq<u8>) -> Seq<u8> {
        adts_header(
            self.info.otype,
            self.info.sample_rate_index,
            self.info.channels,
            data.len() as int,
        ) + data
    }

    /// What is known of a stream from a report of the decoder on it and from the number of samples
    /// of a decoded frame.
    pub open spec fn reported_info(facts: StreamFacts, capacity: int) -> M4AInfo {
        M4AInfo {
            otype: M4AType::numbered(facts.aot as int)->0,
            channels: facts.num_channels as u8,
            sample_rate: facts.aac_sample_rate as u32,
            sample_rate_index: rate_index((facts.aac_sample_rate as u32) as int) as u8,
            samples: (capacity / facts.num_channels as int) as usize,
        }
    }

    /// The stream after the decoder has reported on it, and how that ended. A report with too many
    /// channels is noted, but does not count, and the buffer stays as it is.
    pub open spec fn configured(self, facts: StreamFacts, capacity: int) -> (
        AacView,
        Result<(), Error>,
    ) {
        let info = Self::reported_info(facts, capacity);
        let params = ParamsView {
            sample_rate: Some(info.sample_rate),
            channels: Some(ChannelLayout::Discrete((facts.num_channels as usize) as u16)),
            extra_data: self.params.extra_data,
        };
        if !channels_supported(info.channels) {
            (
                AacView { info, params, ..self },
                Err(Error::Unsupported("aac: unsupported number of channels")),
            )
        } else {
            (
                AacView {
                    info,
                    validated: true,
                    params,
                    planes: silence(info.channels as int, info.samples as int),
                    frames: 0,
                    rate: facts.sample_rate as u32,
                    discrete: Some(info.channels as u16),
                },
                Ok(()),
            )
        }
    }

    /// The stream after the decoder has failed, and what comes of it: where the decoder has lost
    /// the start of a frame, a buffer without a frame, else an error.
    pub open spec fn recovered(self, fault: DecoderFault) -> (AacView, Result<(), Error>) {
        if fault.sync_lost {
            (AacView { frames: 0, ..self }, Ok(()))
        } else {
            (self, Err(Error::DecodeError(fault.message)))
        }
    }

    /// Whether so many samples can be written to the planes: those of a single channel have to fill
    /// its plane, those of two channels have to be pairs that there is room for.
    pub open spec fn fits(self, capacity: int) -> bool {
        if self.planes.len() == 1 {
            capacity == self.planes[0].len()
        } else {
            capacity % 2 == 0 && capacity / 2 <= self.planes[0].len()
        }
    }

    /// The planes after samples have been written to them.
    pub open spec fn written(self, samples: Seq<i16>) -> Seq<Seq<i16>> {
        if self.planes.len() == 1 {
            seq![samples]
        } else {
            seq![
                overwrite(self.planes[0], channel_of(samples, 0)),
                overwrite(self.planes[1], channel_of(samples, 1)),
            ]
        }
    }

    /// The stream after a decoded frame of `capacity` samples, which stand at the front of `pcm`,
    /// and how that ended. The first frame settles what is known of the stream; where the object
    /// type that is reported with it has no name, the stream stays as it is.
    pub open spec fn accepted(
        self,
        facts: StreamFacts,
        capacity: int,
        pcm: Seq<i16>,
        trim_start: int,
        trim_end: int,
    ) -> (AacView, Result<(), Error>) {
        let (settled, r) = if self.validated {
            (self, Ok(()))
        } else if M4AType::numbered(facts.aot as int) is None {
            (self, Err(Error::UnknownObjectType))
        } else {
            self.configured(facts, capacity)
        };
        if r is Err {
            (settled, r)
        } else if !settled.fits(capacity) {
            (AacView { frames: 0, ..settled }, Err(Error::FrameMismatch))
        } else {
            let planes = settled.written(pcm.take(capacity));
            let frames = planes[0].len();
            (
                AacView {
                    planes: trimmed_planes(planes, frames, trim_start, trim_end),
                    frames: trimmed_frames(frames, trim_start, trim_end),
                    ..settled
                },
                Ok(()),
            )
        }
    }
}

/// An AAC stream: all of the state of its decoding but the decoder.
pub struct AacStream {
    buf: PcmBuffer,
    codec_params: CodecParams,
    m4a_info: M4AInfo,
    m4a_info_validated: bool,
}

impl View for AacStream {
    type V = AacView;

    closed spec fn view(&self) -> AacView {
        AacView {
            info: self.m4a_info,
            validated: self.m4a_info_validated,
            params: self.codec_params@,
            planes: stored_planes(self.buf),
            frames: committed_frames(self.buf),
            rate: buffer_rate(self.buf),
            discrete: discrete_channels(self.buf),
        }
    }
}

impl AacStream {
    /// Opens a stream.
    pub fn open(params: &CodecParams) -> (r: Result<AacStream, Error>)
        ensures
            match opening_info(params@) {
                Err(e) => r == Err::<AacStream, Error>(e),
                Ok(info) => if channels_supported(info.channels) {
                    &&& r is Ok
                    &&& r->Ok_0@ == AacView::opened(info, params@)
                    &&& r->Ok_0@.wf()
                } else {
                    r == Err::<AacStream, Error>(
                        Error::Unsupported("aac: unsupported number of channels"),
                    )
                },
            },
    {
        let mut m4a_info: M4AInfo = Default::default();
        match &params.extra_data {
            Some(data) => {
                if data.len() < 2 {
                    return Err(Error::DecodeError("aac: invalid data"));
                }
                match m4a_info.read(data.as_slice()) {
                    Ok(()) => {},
                    Err(e) => return Err(e),
                }
            },
            None => {
                m4a_info.otype = M4AType::Lc;
                m4a_info.sample_rate = match params.sample_rate {
                    Some(rate) => rate,
                    None => 0,
                };
                m4a_info.sample_rate_index = sample_rate_index(m4a_info.sample_rate);
                m4a_info.channels = match &params.channels {
                    Some(layout) => layout.count() as u8,
                    None => return Err(
                        Error::Unsupported("aac: channels or channel layout is required"),
                    ),
                };
            },
        }
        let buf: PcmBuffer = match audio_buffer(&m4a_info, m4a_info.sample_rate) {
            Ok(buf) => buf,
            Err(e) => return Err(e),
        };
        Ok(
            AacStream {
                buf,
                codec_params: params.duplicate(),
                m4a_info,
                // What the decoder reports is preferred to what the configuration says.
                m4a_info_validated: false,
            },
        )
    }

    /// Takes over what the decoder reports of the stream. `otype` is the object type that it
    /// reports, and `capacity` the number of samples of a decoded frame.
    fn configure_metadata(&mut self, facts: StreamFacts, otype: M4AType, capacity: usize) -> (r:
        Result<(), Error>)
        requires
            old(self)@.wf(),
            !old(self)@.validated,
            facts.num_channels > 0,
            M4AType::numbered(facts.aot as int) == Some(otype),
            capacity <= MAX_SAMPLES,
        ensures
            (final(self)@, r) == old(self)@.configured(facts, capacity as int),
            final(self)@.wf(),
            r is Ok ==> final(self)@.validated,
    {
        let channels: usize = facts.num_channels as usize;
        let sample_rate: u32 = facts.aac_sample_rate as u32;
        self.codec_params.sample_rate = Some(sample_rate);
        self.codec_params.channels = Some(ChannelLayout::Discrete(channels as u16));
        let samples: usize = capacity / channels;
        proof {
            vstd::arithmetic::div_mod::lemma_div_nonincreasing(capacity as int, channels as int);
        }
        self.m4a_info = M4AInfo {
            otype,
            channels: facts.num_channels as u8,
            sample_rate,
            sample_rate_index: sample_rate_index(sample_rate),
            samples,
        };
        let ghost count = self.m4a_info.channels;
        assert(count <= 2 ==> 2 * count * samples <= 0x8000) by (nonlinear_arith)
            requires
                samples <= 0x2000,
        ;
        self.buf = match audio_buffer(&self.m4a_info, facts.sample_rate as u32) {
            Ok(buf) => buf,
            Err(e) => return Err(e),
        };
        self.m4a_info_validated = true;
        Ok(())
    }

    /// Deals with a failure of the decoder.
    pub fn recover(&mut self, fault: DecoderFault) -> (r: Result<(), Error>)
        requires
            old(self)@.wf(),
        ensures
            (final(self)@, r) == old(self)@.recovered(fault),
            final(self)@.wf(),
    {
        if fault.sync_lost {
            self.buf.clear();
            Ok(())
        } else {
            Err(Error::DecodeError(fault.message))
        }
    }

    /// Takes over a decoded frame of `capacity` samples, which stand at the front of `pcm`.
    pub fn accept_frame(
        &mut self,
        facts: StreamFacts,
        capacity: usize,
        pcm: &[i16],
        trim_start: u64,
        trim_end: u64,
    ) -> (r: Result<(), Error>)
        requires
            old(self)@.wf(),
            old(self)@.validated || facts.num_channels > 0,
            capacity <= pcm@.len(),
            capacity <= MAX_SAMPLES,
        ensures
            (final(self)@, r) == old(self)@.accepted(
                facts,
                capacity as int,
                pcm@,
                (trim_start as usize) as int,
                (trim_end as usize) as int,
            ),
            final(self)@.wf(),
    {
        if !self.m4a_info_validated {
            let otype: M4AType = if facts.aot < 0 {
                return Err(Error::UnknownObjectType);
            } else {
                match M4AType::from_index(facts.aot as usize) {
                    Some(otype) => otype,
                    None => return Err(Error::UnknownObjectType),
                }
            };
            match self.configure_metadata(facts, otype, capacity) {
                Ok(()) => {},
                Err(e) => return Err(e),
            }
        }
        let ghost settled = self@;
        let pcm: &[i16] = vstd::slice::slice_subrange(pcm, 0, capacity);
        self.buf.clear();
        self.buf.render_uninit();
        match self.m4a_info.channels {
            1 => {
                match self.buf.plane_mut(0) {
                    Some(plane) => {
                        if plane.len() != capacity {
                            self.buf.clear();
                            proof {
                                let p = settled.planes[0];
                                assert(p.take(p.len() as int) + p.skip(p.len() as int) =~= p);
                                assert(stored_planes(self.buf) =~= settled.planes);
                            }
                            return Err(Error::FrameMismatch);
                        }
                        copy_mono(pcm, plane);
                    },
                    None => {},
                }
            },
            _ => {
                match self.buf.plane_pair_mut(0, 1) {
                    Some((left, right)) => {
                        if capacity % 2 != 0 || capacity / 2 > left.len() {
                            self.buf.clear();
                            proof {
                                let p = settled.planes[0];
                                let q = settled.planes[1];
                                assert(p.take(p.len() as int) + p.skip(p.len() as int) =~= p);
                                assert(q.take(q.len() as int) + q.skip(q.len() as int) =~= q);
                                assert(stored_planes(self.buf) =~= settled.planes);
                            }
                            return Err(Error::FrameMismatch);
                        }
                        split_stereo(pcm, left, right);
                    },
                    None => {},
                }
            },
        }
        proof {
            let wanted = settled.written(pcm@);
            let got = stored_planes(self.buf);
            if settled.planes.len() == 2 {
                assert(got[0] =~= wanted[0]);
                assert(got[1] =~= wanted[1]);
            }
            assert(got =~= wanted);
        }
        self.buf.trim(trim_start as usize, trim_end as usize);
        Ok(())
    }

    /// The parameters of the stream.
    pub fn codec_params(&self) -> (params: &CodecParams)
        ensures
            params@ == self@.params,
    {
        &self.codec_params
    }

    /// What is known of the stream.
    pub fn m4a_info(&self) -> (info: M4AInfo)
        ensures
            info == self@.info,
    {
        self.m4a_info
    }

    /// The samples of the last packet.
    pub fn last_decoded(&self) -> (shown: GenericAudioBufferRef<'_>)
        ensures
            self@.shown_by(shown),
    {
        self.buf.as_generic_audio_buffer_ref()
    }
}

/// An AAC decoder.
pub struct AacDecoder {
    decoder: Decoder,
    stream: AacStream,
    pcm: Vec<i16>,
}

/// The state of an AAC decoder.
pub struct AacDecoderView {
    /// The state of the stream.
    pub stream: AacView,
    /// Where decoded samples are written to.
    pub pcm: Seq<i16>,
    /// All bytes that the library behind the decoder has taken in.
    pub taken_in: Seq<u8>,
    /// All that was done with that library, in order.
    pub history: Seq<DecoderCall>,
    /// How it refused the bytes that it was handed last, if it did.
    pub refused: Option<DecoderFault>,
    /// What it made of the last frame: its samples, or how it failed.
    pub outcome: Result<Seq<i16>, DecoderFault>,
    /// The number of bytes that it has room for.
    pub room: nat,
    /// What that library reports of the stream.
    pub facts: StreamFacts,
}

impl AacDecoderView {
    /// Whether the stream is in order and there is room for decoded samples.
    pub open spec fn wf(self) -> bool {
        &&& self.stream.wf()
        &&& self.pcm.len() == MAX_SAMPLES
    }

    /// The number of samples of a decoded frame.
    pub open spec fn capacity(self) -> int {
        self.facts.num_channels * self.facts.frame_size
    }
}

impl View for AacDecoder {
    type V = AacDecoderView;

    closed spec fn view(&self) -> AacDecoderView {
        AacDecoderView {
            stream: self.stream@,
            pcm: self.pcm@,
            taken_in: taken_in(self.decoder),
            history: history(self.decoder),
            refused: refused(self.decoder),
            outcome: outcome(self.decoder),
            room: room(self.decoder),
            facts: reported(self.decoder),
        }
    }
}

impl AacDecoder {
    /// Opens a decoder for a stream. The FDK AAC library limits the peaks of what it decodes; that
    /// limiter stays on, since `fdk-aac` has no call to switch it off.
    pub fn try_registry_new(params: &CodecParams) -> (r: Result<AacDecoder, Error>)
        ensures
            match opening_info(params@) {
                Err(e) => r == Err::<AacDecoder, Error>(e),
                Ok(info) => if channels_supported(info.channels) {
                    &&& r is Ok
                    &&& r->Ok_0@.wf()
                    &&& r->Ok_0@.stream == AacView::opened(info, params@)
                    &&& r->Ok_0@.pcm == Seq::new(MAX_SAMPLES as nat, |i: int| 0i16)
                    &&& r->Ok_0@.history == Seq::<DecoderCall>::empty()
                    &&& r->Ok_0@.taken_in == Seq::<u8>::empty()
                } else {
                    r == Err::<AacDecoder, Error>(
                        Error::Unsupported("aac: unsupported number of channels"),
                    )
                },
            },
    {
        let stream: AacStream = match AacStream::open(params) {
            Ok(stream) => stream,
            Err(e) => return Err(e),
        };
        let pcm: Vec<i16> = vec![0i16; MAX_SAMPLES];
        Ok(AacDecoder { decoder: open_adts(), stream, pcm })
    }

    /// Whether a packet of so many bytes can be framed: the object type has to have a place in the
    /// header of a frame, and the length of the frame has to be computable.
    pub fn can_frame(&self, num_bytes: usize) -> (can: bool)
        ensures
            can == self@.stream.can_frame(num_bytes as int),
    {
        let payload: u16 = num_bytes as u16;
        assert(num_bytes as u16 == num_bytes % 0x1_0000) by (bit_vector);
        self.stream.m4a_info.otype != M4AType::Null && payload <= u16::MAX - ADTS_HEADER_LENGTH
    }

    /// Decodes a packet. The decoder is handed the packet with a header in front of it. Where it
    /// fails, the failure is dealt with; else the frame that it has decoded is taken over.
    pub fn decode(&mut self, data: &[u8], trim_start: u64, trim_end: u64) -> (r: Result<
        GenericAudioBufferRef<'_>,
        Error,
    >)
        requires
            old(self)@.wf(),
            old(self)@.stream.can_frame(data@.len() as int),
        ensures
            final(self)@.wf(),
            r matches Ok(shown) ==> final(self)@.stream.shown_by(shown),
            decoded(
                old(self)@,
                final(self)@,
                data@,
                match r {
                    Ok(_) => Ok(()),
                    Err(e) => Err(e),
                },
                trim_start,
                trim_end,
            ),
    {
        let mut frame: Vec<u8> = construct_adts_header(
            self.stream.m4a_info.otype,
            self.stream.m4a_info.sample_rate_index,
            self.stream.m4a_info.channels,
            data.len(),
        );
        frame.extend_from_slice(data);
        assert(frame@ =~= old(self)@.stream.framed(data@));
        match fill(&mut self.decoder, frame.as_slice()) {
            Ok(_) => {},
            Err(fault) => return Err(Error::DecodeError(fault.message)),
        }
        let done: Result<(), Error> = match decode_frame(&mut self.decoder, &mut self.pcm) {
            Ok(()) => {
                let facts: StreamFacts = stream_info(&self.decoder);
                let capacity: usize = decoded_frame_size(&self.decoder);
                self.stream.accept_frame(facts, capacity, self.pcm.as_slice(), trim_start, trim_end)
            },
            Err(fault) => self.stream.recover(fault),
        };
        match done {
            Ok(()) => Ok(self.stream.last_decoded()),
            Err(e) => Err(e),
        }
    }

    /// The parameters of the stream.
    pub fn codec_params(&self) -> (params: &CodecParams)
        ensures
            params@ == self@.stream.params,
    {
        self.stream.codec_params()
    }

    /// The library behind the decoder.
    pub fn decoder(&self) -> (decoder: &Decoder)
        ensures
            history(*decoder) == self@.history,
            taken_in(*decoder) == self@.taken_in,
            refused(*decoder) == self@.refused,
            outcome(*decoder) == self@.outcome,
            room(*decoder) == self@.room,
            reported(*decoder) == self@.facts,
    {
        &self.decoder
    }

    /// What is known of the stream.
    pub fn m4a_info(&self) -> (info: M4AInfo)
        ensures
            info == self@.stream.info,
    {
        self.stream.m4a_info()
    }

    /// Whether that was reported by the library behind the decoder.
    pub fn m4a_info_validated(&self) -> (validated: bool)
        ensures
            validated == self@.stream.validated,
    {
        self.stream.m4a_info_validated
    }

    /// Where decoded samples are written to.
    pub fn pcm(&self) -> (pcm: &[i16])
        ensures
            pcm@ == self@.pcm,
    {
        self.pcm.as_slice()
    }

    /// The samples of the last packet.
    pub fn last_decoded(&self) -> (shown: GenericAudioBufferRef<'_>)
        ensures
            self@.stream.shown_by(shown),
    {
        self.stream.last_decoded()
    }

    /// Prepares for a packet that does not follow the last one. Nothing is carried over that would
    /// have to be dropped.
    pub fn reset(&mut self)
        ensures
            *final(self) == *old(self),
    {
    }

    /// The names of the codec.
    pub fn codec_names() -> (names: CodecNames)
        ensures
            names.long_name@ == "Advanced Audio Coding"@,
            names.short_name@ == "AAC"@,
    {
        CodecNames { long_name: "Advanced Audio Coding", short_name: "AAC" }
    }
}

/// What decoding a packet comes to. The library behind the decoder is handed the packet with a
/// header in front of it. Where it refuses that, there is an error with its message, and no frame is
/// decoded: the stream and the samples of the last frame stay as they are. Else it has taken in as
/// much of it as there was room for, and is asked for one frame. Where it fails, the failure is
/// dealt with; else the samples of the frame are taken over. Nothing else is done with that library.
/// What it takes in of a packet of 4 GiB is left open.
pub open spec fn decoded(
    before: AacDecoderView,
    after: AacDecoderView,
    data: Seq<u8>,
    r: Result<(), Error>,
    trim_start: u64,
    trim_end: u64,
) -> bool {
    let frame = before.stream.framed(data);
    let filled = before.history.push(DecoderCall::Fill(frame));
    match after.refused {
        Some(fault) => {
            &&& after.history == filled
            &&& after.outcome == before.outcome
            &&& after.facts == before.facts
            &&& after.pcm == before.pcm
            &&& r == Err::<(), Error>(Error::DecodeError(fault.message))
            &&& after.stream == before.stream
            &&& frame.len() <= u32::MAX ==> extended_by(before.taken_in, after.taken_in, frame)
        },
        None => {
            &&& after.history == filled.push(DecoderCall::DecodeFrame)
            &&& frame.len() <= u32::MAX ==> after.taken_in == before.taken_in + taken(
                before.room,
                frame,
            )
            &&& match after.outcome {
                Err(fault) => (after.stream, r) == before.stream.recovered(fault),
                Ok(samples) => {
                    &&& after.facts.num_channels > 0
                    &&& after.facts.frame_size > 0
                    &&& after.facts.sample_rate > 0
                    &&& after.capacity() <= MAX_SAMPLES
                    &&& after.pcm.take(after.capacity()) == samples
                    &&& (after.stream, r) == before.stream.accepted(
                        after.facts,
                        after.capacity(),
                        after.pcm,
                        (trim_start as usize) as int,
                        (trim_end as usize) as int,
                    )
                },
            }
        },
    }
}

/// What is left of samples when `start` of them are cut off at the front and `end` at the end.
pub open spec fn trimmed(samples: Seq<i16>, start: int, end: int) -> Seq<i16> {
    if start < samples.len() - end {
        samples.subrange(start, samples.len() - end)
    } else {
        Seq::empty()
    }
}

/// The samples of each of one or two channels.
pub open spec fn by_channel(samples: Seq<i16>, channels: int) -> Seq<Seq<i16>> {
    if channels == 1 {
        seq![samples]
    } else {
        seq![channel_of(samples, 0), channel_of(samples, 1)]
    }
}

/// Once the decoder has reported on a stream, that is settled: neither a frame nor a failure of the
/// decoder changes what is known of the stream, its parameters, or the layout of its buffer.
pub proof fn metadata_is_settled_once(
    stream: AacView,
    facts: StreamFacts,
    capacity: int,
    pcm: Seq<i16>,
    trim_start: int,
    trim_end: int,
    fault: DecoderFault,
)
    requires
        stream.wf(),
        stream.validated,
        0 <= capacity <= pcm.len(),
        0 <= trim_start,
        0 <= trim_end,
    ensures
        ({
            let next = stream.accepted(facts, capacity, pcm, trim_start, trim_end).0;
            &&& next.wf()
            &&& next.validated
            &&& next.info == stream.info
            &&& next.params == stream.params
            &&& next.rate == stream.rate
            &&& next.discrete == stream.discrete
            &&& next.planes.len() == stream.planes.len()
            &&& next.planes[0].len() == stream.planes[0].len()
        }),
        ({
            let next = stream.recovered(fault).0;
            &&& next.wf()
            &&& next.validated
            &&& next.info == stream.info
            &&& next.params == stream.params
            &&& next.rate == stream.rate
            &&& next.discrete == stream.discrete
            &&& next.planes == stream.planes
        }),
{
}

/// A frame that is as large as the buffer is shown as it was decoded: each channel has its samples,
/// in order, but for those that are trimmed.
pub proof fn full_frame_is_shown(
    stream: AacView,
    facts: StreamFacts,
    capacity: int,
    pcm: Seq<i16>,
    trim_start: int,
    trim_end: int,
)
    requires
        stream.wf(),
        stream.validated,
        capacity == stream.info.channels * stream.info.samples,
        capacity <= pcm.len(),
        0 <= trim_start,
        0 <= trim_end,
    ensures
        ({
            let (next, r) = stream.accepted(facts, capacity, pcm, trim_start, trim_end);
            let channels = by_channel(pcm.take(capacity), stream.info.channels as int);
            &&& r == Ok::<(), Error>(())
            &&& committed(next.planes, next.frames) == channels.map_values(
                |samples: Seq<i16>| trimmed(samples, trim_start, trim_end),
            )
        }),
{
    let n = stream.info.samples as int;
    let samples = pcm.take(capacity);
    let (next, r) = stream.accepted(facts, capacity, pcm, trim_start, trim_end);
    let channels = by_channel(samples, stream.info.channels as int);
    let shown = channels.map_values(|samples: Seq<i16>| trimmed(samples, trim_start, trim_end));
    let planes = stream.written(samples);
    let count = stream.info.channels as int;
    assert(count == 1 ==> count * n == n) by (nonlinear_arith);
    assert(count == 2 ==> count * n == 2 * n) by (nonlinear_arith);
    assert(planes =~= channels);
    assert forall|c: int| 0 <= c < shown.len() implies committed(next.planes, next.frames)[c]
        =~= shown[c] by {}
}

/// The first frame of a stream is shown as it was decoded, whatever is known of the stream before,
/// and settles what is known of it.
pub proof fn first_frame_is_shown(
    stream: AacView,
    facts: StreamFacts,
    otype: M4AType,
    pcm: Seq<i16>,
    trim_start: int,
    trim_end: int,
)
    requires
        stream.wf(),
        !stream.validated,
        1 <= facts.num_channels <= 2,
        0 < facts.frame_size,
        facts.num_channels * facts.frame_size <= pcm.len(),
        pcm.len() <= MAX_SAMPLES,
        facts.aot == otype.number(),
        0 <= trim_start,
        0 <= trim_end,
    ensures
        ({
            let capacity = facts.num_channels * facts.frame_size;
            let (next, r) = stream.accepted(facts, capacity, pcm, trim_start, trim_end);
            let channels = by_channel(pcm.take(capacity), facts.num_channels as int);
            &&& r == Ok::<(), Error>(())
            &&& next.validated
            &&& next.info.channels == facts.num_channels
            &&& next.info.samples == facts.frame_size
            &&& next.info.otype == otype
            &&& committed(next.planes, next.frames) == channels.map_values(
                |samples: Seq<i16>| trimmed(samples, trim_start, trim_end),
            )
        }),
{
    let capacity = facts.num_channels * facts.frame_size;
    let settled = stream.configured(facts, capacity).0;
    assert(capacity / facts.num_channels as int == facts.frame_size) by {
        vstd::arithmetic::div_mod::lemma_div_multiples_vanish(
            facts.frame_size as int,
            facts.num_channels as int,
        );
    }
    types_are_found_by_number(otype);
    full_frame_is_shown(settled, facts, capacity, pcm, trim_start, trim_end);
    assert(stream.accepted(facts, capacity, pcm, trim_start, trim_end) == settled.accepted(
        facts,
        capacity,
        pcm,
        trim_start,
        trim_end,
    ));
}

/// Where the decoder has lost the start of a frame, decoding goes on: no error is returned, no
/// sample is shown, and the stream is otherwise as it was.
pub proof fn lost_sync_shows_nothing(stream: AacView, fault: DecoderFault)
    requires
        stream.wf(),
        fault.sync_lost,
    ensures
        stream.recovered(fault).1 == Ok::<(), Error>(()),
        committed(stream.recovered(fault).0.planes, stream.recovered(fault).0.frames) == Seq::new(
            stream.planes.len(),
            |c: int| Seq::<i16>::empty(),
        ),
        stream.recovered(fault).0 == (AacView { frames: 0, ..stream }),
{
    let next = stream.recovered(fault).0;
    assert forall|c: int| 0 <= c < stream.planes.len() implies committed(
        next.planes,
        next.frames,
    )[c] =~= Seq::<i16>::empty() by {}
    assert(committed(next.planes, next.frames) =~= Seq::new(
        stream.planes.len(),
        |c: int| Seq::<i16>::empty(),
    ));
}

/// A packet is handed to the decoder behind a header that describes the stream and gives the length
/// of the frame, for object types and packets that a header has room for.
pub proof fn packets_are_framed_for_the_stream(stream: AacView, data: Seq<u8>)
    requires
        stream.wf(),
        channels_supported(stream.info.channels),
        1 <= stream.info.otype.number() <= 4,
        data.len() + ADTS_HEADER_LENGTH <= 0x1fff,
    ensures
        stream.can_frame(data.len() as int),
        stream.framed(data).len() == data.len() + ADTS_HEADER_LENGTH,
        stream.framed(data).skip(ADTS_HEADER_LENGTH as int) == data,
        adts_fields(stream.framed(data)) == (AdtsFields {
            sync: 0xfff,
            version: 0,
            checksum_absent: true,
            object_type: stream.info.otype.number(),
            sample_freq_index: stream.info.sample_rate_index as int,
            channel_config: stream.info.channels as int,
            frame_length: stream.framed(data).len() as int,
            buffer_fullness: 0x7ff,
            extra_blocks: 0,
        }),
{
    header_carries_its_fields(
        stream.info.otype,
        stream.info.sample_rate_index,
        stream.info.channels,
        data.len() as int,
    );
}

/// A packet that is decoded, and how that ended.
pub struct AacCall {
    /// The packet.
    pub data: Seq<u8>,
    /// How many frames are trimmed at the front.
    pub trim_start: u64,
    /// How many frames are trimmed at the end.
    pub trim_end: u64,
    /// How decoding it ended.
    pub result: Result<(), Error>,
}

/// Whether a decoder has gone through these states by decoding these packets.
pub open spec fn decoded_all(states: Seq<AacDecoderView>, calls: Seq<AacCall>) -> bool {
    &&& states.len() == calls.len() + 1
    &&& forall|i: int| 0 <= i < states.len() ==> (#[trigger] states[i]).wf()
    &&& forall|i: int|
        0 <= i < calls.len() ==> decoded(
            states[i],
            states[i + 1],
            (#[trigger] calls[i]).data,
            calls[i].result,
            calls[i].trim_start,
            calls[i].trim_end,
        )
}

// What is known of a stream stays as it is from the state on in which it was reported.
proof fn lemma_info_stays(states: Seq<AacDecoderView>, calls: Seq<AacCall>, k: int)
    requires
        decoded_all(states, calls),
        1 <= k < states.len(),
        states[1].stream.validated,
    ensures
        states[k].stream.validated,
        states[k].stream.info == states[1].stream.info,
    decreases k,
{
    if k > 1 {
        lemma_info_stays(states, calls, k - 1);
        // The packet that leads from the state before to this one.
        let call = calls[k - 1];
    }
}

/// What the library behind the decoder reports wins over what the container says: once it has
/// decoded a frame, every later packet is handed to it behind a header that is built from its
/// report on that frame, whatever was known of the stream before and whatever came in between.
pub proof fn reported_info_wins(states: Seq<AacDecoderView>, calls: Seq<AacCall>, k: int)
    requires
        decoded_all(states, calls),
        1 <= k < calls.len(),
        !states[0].stream.validated,
        states[1].refused is None,
        states[1].outcome is Ok,
        calls[0].result is Ok,
    ensures
        ({
            let facts = states[1].facts;
            &&& M4AType::numbered(facts.aot as int) is Some
            &&& states[k + 1].history[states[k].history.len() as int] == DecoderCall::Fill(
                adts_header(
                    M4AType::numbered(facts.aot as int)->0,
                    rate_index((facts.aac_sample_rate as u32) as int) as u8,
                    facts.num_channels as u8,
                    calls[k].data.len() as int,
                ) + calls[k].data,
            )
        }),
{
    lemma_info_stays(states, calls, k);
}

/// A good frame is shown: where the library behind the decoder has taken in a packet and decoded it,
/// there is no error, and each channel has its samples of the frame that was made of it, in order,
/// but for those that are trimmed. The first frame has to have one or two channels and an object type
/// with a name, a later one the length of the first.
pub proof fn good_frame_is_shown(
    before: AacDecoderView,
    after: AacDecoderView,
    data: Seq<u8>,
    r: Result<(), Error>,
    trim_start: u64,
    trim_end: u64,
)
    requires
        before.wf(),
        after.wf(),
        decoded(before, after, data, r, trim_start, trim_end),
        after.refused is None,
        after.outcome is Ok,
        !before.stream.validated ==> 1 <= after.facts.num_channels <= 2 && M4AType::numbered(
            after.facts.aot as int,
        ) is Some,
        before.stream.validated ==> after.capacity() == before.stream.info.channels
            * before.stream.info.samples,
    ensures
        r == Ok::<(), Error>(()),
        committed(after.stream.planes, after.stream.frames) == by_channel(
            after.outcome->Ok_0,
            after.stream.info.channels as int,
        ).map_values(
            |samples: Seq<i16>|
                trimmed(samples, (trim_start as usize) as int, (trim_end as usize) as int),
        ),
{
    let facts = after.facts;
    let capacity = after.capacity();
    let start = (trim_start as usize) as int;
    let end = (trim_end as usize) as int;
    if before.stream.validated {
        full_frame_is_shown(before.stream, facts, capacity, after.pcm, start, end);
    } else {
        let settled = before.stream.configured(facts, capacity).0;
        let n = facts.num_channels as int;
        let f = facts.frame_size as int;
        assert(capacity / n == f) by {
            vstd::arithmetic::div_mod::lemma_div_multiples_vanish(f, n);
        }
        assert(f <= capacity) by (nonlinear_arith)
            requires
                capacity == n * f,
                n > 0,
                f > 0,
        ;
        full_frame_is_shown(settled, facts, capacity, after.pcm, start, end);
    }
}

} // verus!
