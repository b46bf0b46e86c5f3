use fdk_aac::dec::{Decoder, Transport as DecTransport};
use fdk_aac::enc::{
    AudioObjectType, BitRate, ChannelMode, Encoder, EncoderParams, Transport as EncTransport,
};
use symphonia_adapters::aac::{AacDecoder, AacStream, MAX_SAMPLES};
use symphonia_adapters::error::Error;
use symphonia_adapters::fdk::{DecoderFault, StreamFacts};
use symphonia_adapters::meta::M4AType;
use symphonia_adapters::params::{ChannelLayout, CodecParams};
use symphonia_core::audio::{Audio, Channels, GenericAudioBufferRef};

fn params(channels: usize) -> CodecParams {
    CodecParams {
        sample_rate: Some(44100),
        channels: Some(ChannelLayout::Declared(channels)),
        extra_data: None,
    }
}

fn configured(data: &[u8]) -> CodecParams {
    CodecParams { sample_rate: None, channels: None, extra_data: Some(data.to_vec()) }
}

fn open(params: &CodecParams) -> AacStream {
    AacStream::open(params).unwrap_or_else(|_| panic!("the stream was refused"))
}

fn refused(params: &CodecParams) -> Error {
    let by_stream = AacStream::open(params).err();
    let by_decoder = AacDecoder::try_registry_new(params).err();
    assert_eq!(by_stream, by_decoder);
    by_stream.unwrap_or_else(|| panic!("the stream was opened"))
}

fn facts(num_channels: i32, frame_size: i32) -> StreamFacts {
    StreamFacts { num_channels, frame_size, sample_rate: 44100, aac_sample_rate: 22050, aot: 2 }
}

fn planes(shown: GenericAudioBufferRef<'_>) -> Vec<Vec<i16>> {
    match shown {
        GenericAudioBufferRef::S16(buf) => buf.iter_planes().map(|p| p.to_vec()).collect(),
        _ => unreachable!(),
    }
}

fn spec(shown: GenericAudioBufferRef<'_>) -> (u32, Channels) {
    (shown.spec().rate(), shown.spec().channels().clone())
}

fn sine(channels: usize, frames: usize) -> Vec<i16> {
    let mut pcm = Vec::new();
    for i in 0..frames {
        for c in 0..channels {
            let step = if c == 0 { 0.05 } else { 0.031 };
            pcm.push(((i as f64 * step).sin() * 8000.0) as i16);
        }
    }
    pcm
}

fn encode(channels: usize, pcm: &[i16]) -> (Vec<u8>, Vec<Vec<u8>>) {
    let encoder = Encoder::new(EncoderParams {
        bit_rate: BitRate::Cbr(96000),
        sample_rate: 44100,
        transport: EncTransport::Raw,
        channels: if channels == 1 { ChannelMode::Mono } else { ChannelMode::Stereo },
        audio_object_type: AudioObjectType::Mpeg4LowComplexity,
    })
    .unwrap();
    let info = encoder.info().unwrap();
    let config = info.confBuf[..info.confSize as usize].to_vec();
    let mut packets = Vec::new();
    for chunk in pcm.chunks_exact(1024 * channels) {
        let mut out = vec![0u8; 8192];
        let done = encoder.encode(chunk, &mut out).unwrap();
        if done.output_size > 0 {
            packets.push(out[..done.output_size].to_vec());
        }
    }
    (config, packets)
}

/// Decodes AAC-LC packets at 44100 Hz with the outside decoder alone.
fn decode_plainly(channels: usize, packets: &[Vec<u8>]) -> Vec<Vec<i16>> {
    let mut decoder = Decoder::new(DecTransport::Adts);
    let mut frames = Vec::new();
    for packet in packets {
        let length = packet.len() + 7;
        let mut frame = vec![0xff, 0xf1, 0x50];
        frame.push((channels << 6 | length >> 11) as u8);
        frame.push((length >> 3) as u8);
        frame.push((length << 5 | 0x1f) as u8);
        frame.push(0xfc);
        frame.extend_from_slice(packet);
        decoder.fill(&frame).unwrap();
        let mut pcm = vec![0i16; MAX_SAMPLES];
        decoder.decode_frame(&mut pcm).unwrap();
        pcm.truncate(decoder.decoded_frame_size());
        frames.push(pcm);
    }
    frames
}

fn interleaved(planes: &[Vec<i16>]) -> Vec<i16> {
    let mut pcm = Vec::new();
    for i in 0..planes[0].len() {
        for plane in planes {
            pcm.push(plane[i]);
        }
    }
    pcm
}

fn decodes_like_the_library(channels: usize) {
    let pcm = sine(channels, 1024 * 12);
    let (config, raw) = encode(channels, &pcm);
    let expected = decode_plainly(channels, &raw);
    assert!(raw.len() >= 10);
    assert_eq!(raw.len(), expected.len());

    for p in [configured(&config), params(channels)] {
        let mut decoder =
            AacDecoder::try_registry_new(&p).unwrap_or_else(|_| panic!("the stream was refused"));
        let mut loud = false;
        for (packet, frame) in raw.iter().zip(&expected) {
            assert!(decoder.can_frame(packet.len()));
            let shown = decoder.decode(packet, 0, 0).unwrap_or_else(|_| panic!("not decoded"));
            assert_eq!(spec(shown.clone()), (44100, Channels::Discrete(channels as u16)));
            let shown = planes(shown);
            assert_eq!(shown.len(), channels);
            assert_eq!(shown[0].len(), 1024);
            assert!(&interleaved(&shown) == frame);
            loud = loud || frame.iter().any(|s| *s > 4000);
            assert_eq!(planes(decoder.last_decoded()), shown);
        }
        assert!(loud);
        assert_eq!(decoder.codec_params().sample_rate, Some(44100));
        assert_eq!(
            decoder.codec_params().channels,
            Some(ChannelLayout::Discrete(channels as u16))
        );
    }
}

#[test]
fn a_mono_stream_is_decoded() {
    decodes_like_the_library(1);
}

#[test]
fn a_stereo_stream_is_decoded() {
    decodes_like_the_library(2);
}

#[test]
fn decoded_packets_are_trimmed() {
    let (config, raw) = encode(2, &sine(2, 1024 * 8));
    let p = configured(&config);
    let mut whole = AacDecoder::try_registry_new(&p).unwrap_or_else(|_| unreachable!());
    let mut cut = AacDecoder::try_registry_new(&p).unwrap_or_else(|_| unreachable!());
    for packet in &raw {
        let all = planes(whole.decode(packet, 0, 0).unwrap_or_else(|_| unreachable!()));
        let some = planes(cut.decode(packet, 100, 24).unwrap_or_else(|_| unreachable!()));
        assert_eq!(some[0], all[0][100..1000]);
        assert_eq!(some[1], all[1][100..1000]);
    }
}

#[test]
fn broken_packets_do_not_stop_the_stream() {
    let (config, raw) = encode(2, &sine(2, 1024 * 8));
    let p = configured(&config);
    let mut decoder = AacDecoder::try_registry_new(&p).unwrap_or_else(|_| unreachable!());
    assert!(decoder.decode(&raw[0], 0, 0).is_ok());
    match decoder.decode(&[0xff; 40], 0, 0) {
        Ok(shown) => assert!(shown.frames() == 0 || shown.frames() == 1024),
        Err(e) => assert!(matches!(e, Error::DecodeError(_))),
    }
    decoder.reset();
    let mut good = 0;
    for packet in &raw {
        if let Ok(shown) = decoder.decode(packet, 0, 0) {
            if shown.frames() == 1024 {
                good += 1;
            }
        }
    }
    assert!(good > 0);
}

#[test]
fn an_empty_packet_gives_no_samples() {
    let mut decoder =
        AacDecoder::try_registry_new(&params(2)).unwrap_or_else(|_| unreachable!());
    match decoder.decode(&[], 0, 0) {
        Ok(shown) => assert_eq!(shown.frames(), 0),
        Err(e) => assert!(matches!(e, Error::DecodeError(_))),
    }
}

#[test]
fn packets_that_can_be_framed() {
    let decoder = AacDecoder::try_registry_new(&params(2)).unwrap_or_else(|_| unreachable!());
    assert!(decoder.can_frame(0));
    assert!(decoder.can_frame(65528));
    assert!(!decoder.can_frame(65529));
    assert!(!decoder.can_frame(65535));
    assert!(decoder.can_frame(65536));
    // The null object type, at 44100 Hz, in stereo.
    let null = AacDecoder::try_registry_new(&configured(&[0x02, 0x10]));
    let null = null.unwrap_or_else(|_| unreachable!());
    assert!(!null.can_frame(100));
}

#[test]
fn a_stream_without_a_configuration() {
    let stream = open(&params(2));
    let info = stream.m4a_info();
    assert_eq!(info.otype, M4AType::Lc);
    assert_eq!(info.sample_rate, 44100);
    assert_eq!(info.sample_rate_index, 4);
    assert_eq!(info.channels, 2);
    assert_eq!(planes(stream.last_decoded()), vec![vec![], vec![]]);
    assert_eq!(spec(stream.last_decoded()), (44100, Channels::Discrete(2)));

    let mut p = params(1);
    p.sample_rate = None;
    let info = open(&p).m4a_info();
    assert_eq!(info.sample_rate, 0);
    assert_eq!(info.sample_rate_index, 15);
}

#[test]
fn a_stream_with_a_configuration() {
    // AAC-LC, 48000 Hz, mono.
    let stream = open(&configured(&[0x11, 0x88]));
    let info = stream.m4a_info();
    assert_eq!(info.otype, M4AType::Lc);
    assert_eq!(info.sample_rate, 48000);
    assert_eq!(info.channels, 1);
    assert_eq!(info.samples, 1024);
    assert_eq!(planes(stream.last_decoded()), vec![vec![]]);
    assert_eq!(spec(stream.last_decoded()), (48000, Channels::Discrete(1)));
}

#[test]
fn aac_streams_that_are_refused() {
    let invalid = Error::DecodeError("aac: invalid data");
    let unsupported = Error::Unsupported("aac: unsupported number of channels");
    assert_eq!(refused(&configured(&[0x12])), invalid);
    assert_eq!(refused(&configured(&[0x16, 0x90])), invalid);
    assert_eq!(refused(&configured(&[0x12, 0x30])), unsupported);
    assert_eq!(refused(&params(0)), unsupported);
    assert_eq!(refused(&params(3)), unsupported);
    let mut p = params(2);
    p.channels = None;
    assert_eq!(
        refused(&p),
        Error::Unsupported("aac: channels or channel layout is required")
    );
}

#[test]
fn channel_counts_are_taken_in_eight_bits() {
    assert_eq!(open(&params(257)).m4a_info().channels, 1);
    assert_eq!(
        refused(&params(256)),
        Error::Unsupported("aac: unsupported number of channels")
    );
}

#[test]
fn the_first_frame_settles_the_stream() {
    let mut stream = open(&params(1));
    let pcm: Vec<i16> = (1..=10).collect();
    assert_eq!(stream.accept_frame(facts(2, 4), 8, &pcm, 0, 0), Ok(()));
    assert_eq!(planes(stream.last_decoded()), vec![vec![1, 3, 5, 7], vec![2, 4, 6, 8]]);
    assert_eq!(spec(stream.last_decoded()), (44100, Channels::Discrete(2)));
    let info = stream.m4a_info();
    assert_eq!(info.otype, M4AType::Lc);
    assert_eq!(info.channels, 2);
    assert_eq!(info.sample_rate, 22050);
    assert_eq!(info.sample_rate_index, 7);
    assert_eq!(info.samples, 4);
    assert_eq!(stream.codec_params().sample_rate, Some(22050));
    assert_eq!(stream.codec_params().channels, Some(ChannelLayout::Discrete(2)));

    // What is reported later does not count.
    let mut later = facts(1, 8);
    later.aot = 999;
    later.sample_rate = 1;
    assert_eq!(stream.accept_frame(later, 8, &[9, 8, 7, 6, 5, 4, 3, 2], 0, 0), Ok(()));
    assert_eq!(planes(stream.last_decoded()), vec![vec![9, 7, 5, 3], vec![8, 6, 4, 2]]);
    assert_eq!(stream.m4a_info(), info);
    assert_eq!(spec(stream.last_decoded()), (44100, Channels::Discrete(2)));
}

#[test]
fn a_mono_frame_is_copied() {
    let mut stream = open(&params(2));
    assert_eq!(stream.accept_frame(facts(1, 3), 3, &[4, 5, 6, 7], 0, 0), Ok(()));
    assert_eq!(planes(stream.last_decoded()), vec![vec![4, 5, 6]]);
    assert_eq!(stream.m4a_info().samples, 3);
}

#[test]
fn frames_are_trimmed_at_both_ends() {
    let pcm: [i16; 8] = [0, 10, 1, 11, 2, 12, 3, 13];
    for (start, end, left) in [
        (0, 0, vec![0, 1, 2, 3]),
        (1, 0, vec![1, 2, 3]),
        (0, 1, vec![0, 1, 2]),
        (1, 2, vec![1]),
        (2, 2, vec![]),
        (4, 0, vec![]),
        (0, 9, vec![]),
        (u64::MAX, u64::MAX, vec![]),
    ] {
        let mut stream = open(&params(2));
        assert_eq!(stream.accept_frame(facts(2, 4), 8, &pcm, start, end), Ok(()));
        let shown = planes(stream.last_decoded());
        assert_eq!(shown[0], left);
        let right: Vec<i16> = left.iter().map(|s| s + 10).collect();
        assert_eq!(shown[1], right);
    }
}

#[test]
fn a_short_stereo_frame_leaves_the_rest() {
    let mut stream = open(&params(2));
    assert_eq!(stream.accept_frame(facts(2, 3), 6, &[1, 2, 3, 4, 5, 6], 0, 0), Ok(()));
    assert_eq!(stream.accept_frame(facts(2, 1), 2, &[7, 8], 0, 0), Ok(()));
    assert_eq!(planes(stream.last_decoded()), vec![vec![7, 3, 5], vec![8, 4, 6]]);
}

#[test]
fn frames_that_do_not_fit() {
    let pcm = [1i16; 16];
    let mut stereo = open(&params(2));
    assert_eq!(stereo.accept_frame(facts(2, 3), 6, &pcm, 0, 0), Ok(()));
    assert_eq!(stereo.accept_frame(facts(2, 4), 8, &pcm, 0, 0), Err(Error::FrameMismatch));
    assert_eq!(planes(stereo.last_decoded()), vec![vec![], vec![]]);
    assert_eq!(stereo.accept_frame(facts(2, 2), 5, &pcm, 0, 0), Err(Error::FrameMismatch));
    assert_eq!(stereo.accept_frame(facts(2, 3), 6, &pcm, 0, 0), Ok(()));

    let mut mono = open(&params(1));
    assert_eq!(mono.accept_frame(facts(1, 3), 3, &pcm, 0, 0), Ok(()));
    assert_eq!(mono.accept_frame(facts(1, 2), 2, &pcm, 0, 0), Err(Error::FrameMismatch));
    assert_eq!(mono.accept_frame(facts(2, 3), 6, &pcm, 0, 0), Err(Error::FrameMismatch));
}

#[test]
fn reports_that_are_refused() {
    let pcm = [1i16; 64];
    let mut stream = open(&params(2));
    assert_eq!(
        stream.accept_frame(facts(6, 4), 24, &pcm, 0, 0),
        Err(Error::Unsupported("aac: unsupported number of channels"))
    );
    // The report is noted all the same, but does not count.
    assert_eq!(stream.m4a_info().channels, 6);
    assert_eq!(stream.codec_params().channels, Some(ChannelLayout::Discrete(6)));
    assert_eq!(stream.codec_params().sample_rate, Some(22050));
    assert_eq!(planes(stream.last_decoded()).len(), 2);
    assert_eq!(stream.accept_frame(facts(1, 4), 4, &pcm, 0, 0), Ok(()));
    assert_eq!(stream.m4a_info().channels, 1);

    for aot in [-1, 45, 129] {
        let mut stream = open(&params(2));
        let mut report = facts(2, 4);
        report.aot = aot;
        assert_eq!(
            stream.accept_frame(report, 8, &pcm, 0, 0),
            Err(Error::UnknownObjectType)
        );
        assert_eq!(stream.m4a_info().channels, 2);
        assert_eq!(stream.codec_params().sample_rate, Some(44100));
    }
}

#[test]
fn failures_of_the_decoder() {
    let mut stream = open(&params(2));
    assert_eq!(stream.accept_frame(facts(2, 1), 2, &[7, 8], 0, 0), Ok(()));
    let broken = DecoderFault { sync_lost: false, message: "broken" };
    assert_eq!(stream.recover(broken), Err(Error::DecodeError("broken")));
    assert_eq!(planes(stream.last_decoded()), vec![vec![7], vec![8]]);
    let lost = DecoderFault { sync_lost: true, message: "lost" };
    assert_eq!(stream.recover(lost), Ok(()));
    assert_eq!(planes(stream.last_decoded()), vec![vec![], vec![]]);
    assert_eq!(stream.accept_frame(facts(2, 1), 2, &[5, 6], 0, 0), Ok(()));
    assert_eq!(planes(stream.last_decoded()), vec![vec![5], vec![6]]);
}

#[test]
fn a_decoded_packet_settles_the_stream() {
    let (config, raw) = encode(2, &sine(2, 1024 * 8));
    let mut decoder =
        AacDecoder::try_registry_new(&configured(&config)).unwrap_or_else(|_| unreachable!());
    assert!(!decoder.m4a_info_validated());
    assert_eq!(decoder.pcm(), vec![0i16; MAX_SAMPLES]);
    for packet in &raw {
        let shown = planes(decoder.decode(packet, 0, 0).unwrap_or_else(|_| unreachable!()));
        assert_eq!(decoder.pcm()[..2048], interleaved(&shown));
    }
    assert!(decoder.m4a_info_validated());
    let info = decoder.m4a_info();
    assert_eq!((info.otype, info.channels, info.sample_rate), (M4AType::Lc, 2, 44100));
    assert_eq!(info.samples, 1024);
}

#[test]
fn aac_names() {
    let names = AacDecoder::codec_names();
    assert_eq!(names.long_name, "Advanced Audio Coding");
    assert_eq!(names.short_name, "AAC");
}
