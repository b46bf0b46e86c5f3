use symphonia_adapters::error::Error;
use symphonia_adapters::opus::{
    parse_pre_skip, FramePlan, OpusDecoder, MAX_SAMPLES_PER_CHANNEL, PCM_LENGTH,
};
use symphonia_adapters::params::{ChannelLayout, CodecParams};
use symphonia_adapters::planes::{copy_mono, split_stereo};

fn head(pre_skip: u16) -> Vec<u8> {
    let mut head = b"OpusHead".to_vec();
    head.push(1);
    head.push(2);
    head.extend_from_slice(&pre_skip.to_le_bytes());
    head.extend_from_slice(&[0x80, 0xbb, 0, 0, 0, 0, 0]);
    head
}

fn params(channels: usize) -> CodecParams {
    CodecParams {
        sample_rate: Some(48000),
        channels: Some(ChannelLayout::Declared(channels)),
        extra_data: Some(head(312)),
    }
}

fn refused(params: &CodecParams) -> Error {
    match OpusDecoder::try_registry_new(params) {
        Ok(_) => panic!("the stream was opened"),
        Err(e) => e,
    }
}

#[test]
fn pre_skip_is_little_endian() {
    assert_eq!(parse_pre_skip(&head(312)), Ok(312));
    assert_eq!(parse_pre_skip(&head(0xabcd)), Ok(0xabcd));
    assert_eq!(parse_pre_skip(&[9, 9, 9, 9, 9, 9, 9, 9, 9, 9, 0x38, 0x01]), Ok(0x138));
}

#[test]
fn short_heads_are_refused() {
    let head = head(312);
    for len in 0..12 {
        assert_eq!(parse_pre_skip(&head[..len]), Err(Error::IoError));
    }
    assert_eq!(parse_pre_skip(&head[..12]), Ok(312));
}

#[test]
fn an_opus_stream_is_opened() {
    let decoder = OpusDecoder::try_registry_new(&params(2)).unwrap_or_else(|_| unreachable!());
    assert_eq!(decoder.sample_rate(), 48000);
    assert_eq!(decoder.channels(), 2);
    assert_eq!(decoder.samples_per_channel(), 960);
    assert_eq!(decoder.pre_skip(), 312);
    assert_eq!(decoder.codec_params().sample_rate, Some(48000));
    assert_eq!(decoder.codec_params().extra_data, Some(head(312)));
}

#[test]
fn a_bad_head_is_as_good_as_none() {
    let mut p = params(1);
    p.extra_data = Some(vec![1, 2, 3]);
    let decoder = OpusDecoder::try_registry_new(&p).unwrap_or_else(|_| unreachable!());
    assert_eq!(decoder.pre_skip(), 0);
    p.extra_data = None;
    let decoder = OpusDecoder::try_registry_new(&p).unwrap_or_else(|_| unreachable!());
    assert_eq!(decoder.pre_skip(), 0);
}

#[test]
fn opus_streams_that_are_refused() {
    let mut p = params(2);
    p.sample_rate = None;
    assert_eq!(refused(&p), Error::Unsupported("opus: sample rate required"));
    p.channels = None;
    assert_eq!(refused(&p), Error::Unsupported("opus: channels or channel layout is required"));
    assert_eq!(
        refused(&params(0)),
        Error::Unsupported("opus: unsupported number of channels")
    );
    assert_eq!(
        refused(&params(3)),
        Error::Unsupported("opus: unsupported number of channels")
    );
}

fn open(channels: usize, pre_skip: u16) -> OpusDecoder {
    let mut p = params(channels);
    p.extra_data = Some(head(pre_skip));
    OpusDecoder::try_registry_new(&p).unwrap_or_else(|_| unreachable!())
}

#[test]
fn the_opus_buffer_keeps_up() {
    let mut decoder = open(2, 312);
    let plan = decoder.accept_frame(960);
    assert_eq!(plan, FramePlan { grow_to: None, frames: 648, first: 624, samples: 1920 });
    assert_eq!(decoder.pre_skip(), 0);

    let plan = decoder.accept_frame(2880);
    assert_eq!(plan, FramePlan { grow_to: Some(2880), frames: 2880, first: 0, samples: 5760 });
    assert_eq!(decoder.samples_per_channel(), 2880);

    let plan = decoder.accept_frame(120);
    assert_eq!(plan, FramePlan { grow_to: None, frames: 120, first: 0, samples: 240 });
    assert_eq!(decoder.samples_per_channel(), 2880);
    assert_eq!(decoder.pre_skip(), 0);
}

#[test]
fn only_the_first_packet_loses_frames() {
    let mut decoder = open(1, 3);
    assert_eq!(decoder.to_discard(0), 0);
    assert_eq!(decoder.to_discard(2), 2);
    assert_eq!(decoder.to_discard(3), 3);
    assert_eq!(decoder.to_discard(8), 3);
    let pcm: Vec<f32> = (0..8).map(|i| i as f32).collect();

    let plan = decoder.accept_frame(8);
    let mut plane = vec![9.5f32; plan.frames];
    copy_mono(&pcm[plan.first..plan.samples], &mut plane);
    assert_eq!(plane, vec![3.0, 4.0, 5.0, 6.0, 7.0]);

    assert_eq!(decoder.to_discard(8), 0);
    let plan = decoder.accept_frame(8);
    let mut plane = vec![9.5f32; plan.frames];
    copy_mono(&pcm[plan.first..plan.samples], &mut plane);
    assert_eq!(plane, pcm);
}

#[test]
fn pre_skip_is_counted_at_48_khz() {
    let mut p = params(1);
    for (rate, skipped) in [(48000, 312), (24000, 156), (16000, 104), (12000, 78), (8000, 52)] {
        p.sample_rate = Some(rate);
        let mut decoder = OpusDecoder::try_registry_new(&p).unwrap_or_else(|_| unreachable!());
        assert_eq!(decoder.pre_skip(), 312);
        assert_eq!(decoder.to_discard(480), skipped);
        let plan = decoder.accept_frame(480);
        assert_eq!((plan.frames, plan.first), (480 - skipped, skipped));
        assert_eq!(decoder.to_discard(480), 0);
    }
    // What does not come out even is rounded down, and nothing overflows.
    p.extra_data = Some(head(5));
    p.sample_rate = Some(16000);
    let decoder = OpusDecoder::try_registry_new(&p).unwrap_or_else(|_| unreachable!());
    assert_eq!(decoder.to_discard(480), 1);
    p.extra_data = Some(head(u16::MAX));
    p.sample_rate = Some(u32::MAX);
    let decoder = OpusDecoder::try_registry_new(&p).unwrap_or_else(|_| unreachable!());
    assert_eq!(decoder.to_discard(480), 480);
}

#[test]
fn a_first_packet_that_is_all_discarded() {
    let mut decoder = open(2, 312);
    let plan = decoder.accept_frame(120);
    assert_eq!(plan, FramePlan { grow_to: None, frames: 0, first: 240, samples: 240 });
    let plan = decoder.accept_frame(120);
    assert_eq!(plan, FramePlan { grow_to: None, frames: 120, first: 0, samples: 240 });
}

#[test]
fn opus_samples_fill_their_planes() {
    let pcm: Vec<f32> = (0..16).map(|i| i as f32).collect();
    let mut stereo = open(2, 1);
    let plan = stereo.accept_frame(4);
    let (mut left, mut right) = ([9.5f32; 3], [9.5f32; 3]);
    split_stereo(&pcm[plan.first..plan.samples], &mut left, &mut right);
    assert_eq!(left, [2.0, 4.0, 6.0]);
    assert_eq!(right, [3.0, 5.0, 7.0]);

    let mut mono = open(1, 0);
    let plan = mono.accept_frame(4);
    let mut plane = [9.5f32; 4];
    copy_mono(&pcm[plan.first..plan.samples], &mut plane);
    assert_eq!(plane, [0.0, 1.0, 2.0, 3.0]);
}

#[test]
fn room_for_opus_packets() {
    assert_eq!(MAX_SAMPLES_PER_CHANNEL, 5760);
    assert_eq!(PCM_LENGTH, 11520);
    let stereo = OpusDecoder::try_registry_new(&params(2)).unwrap_or_else(|_| unreachable!());
    assert!(stereo.has_room(MAX_SAMPLES_PER_CHANNEL));
    assert!(!stereo.has_room(MAX_SAMPLES_PER_CHANNEL + 1));
    let mono = OpusDecoder::try_registry_new(&params(1)).unwrap_or_else(|_| unreachable!());
    assert!(mono.has_room(PCM_LENGTH));
    assert!(!mono.has_room(PCM_LENGTH + 1));
}

#[test]
fn opus_names() {
    let names = OpusDecoder::codec_names();
    assert_eq!(names.long_name, "Opus");
    assert_eq!(names.short_name, "opus");
}
