//! The FDK AAC decoder.
//!
//! Each function here makes one call into `fdk-aac`. What is claimed of it is not proved.

use fdk_aac::dec::{Decoder, DecoderError, Transport};
use vstd::prelude::*;

verus! {

/// A handle of the FDK AAC library.
#[verifier::external_type_specification]
#[verifier::external_body]
pub struct ExDecoder(Decoder);

/// What the FDK AAC library reports when it fails.
#[derive(Clone, Copy, Debug, PartialEq, Eq)]
pub struct DecoderFault {
    /// Whether the start of a frame was not found where it should be.
    pub sync_lost: bool,
    /// What went wrong, in words.
    pub message: &'static str,
}

/// What the FDK AAC library reports of the stream that it decodes.
#[derive(Clone, Copy, Debug, PartialEq, Eq, Structural)]
pub struct StreamFacts {
    /// The number of decoded channels.
    pub num_channels: i32,
    /// The number of samples of each channel in a decoded frame.
    pub frame_size: i32,
    /// The sample rate of the decoded signal, in Hz.
    pub sample_rate: i32,
    /// The sample rate of the coded stream, in Hz.
    pub aac_sample_rate: i32,
    /// The number of the audio object type.
    pub aot: i32,
}

/// What is done with a decoder.
pub enum DecoderCall {
    /// It is handed bytes, whether it takes them in or not.
    Fill(Seq<u8>),
    /// It is asked for a frame.
    DecodeFrame,
}

/// All that was done with a decoder since it was opened, in order.
pub uninterp spec fn history(decoder: Decoder) -> Seq<DecoderCall>;

/// All bytes that a decoder has taken in since it was opened.
pub uninterp spec fn taken_in(decoder: Decoder) -> Seq<u8>;

/// How a decoder refused the bytes that were last handed to it, if it did.
pub uninterp spec fn refused(decoder: Decoder) -> Option<DecoderFault>;

/// What a decoder made of the last frame that it was asked for: its samples, over all channels, or
/// how it failed.
pub uninterp spec fn outcome(decoder: Decoder) -> Result<Seq<i16>, DecoderFault>;

/// How many bytes a decoder has room for.
pub uninterp spec fn room(decoder: Decoder) -> nat;

/// What a decoder reports of its stream.
pub uninterp spec fn reported(decoder: Decoder) -> StreamFacts;

/// What a decoder with room for so many bytes takes in of `data`.
pub open spec fn taken(room: nat, data: Seq<u8>) -> Seq<u8> {
    if room < data.len() {
        data.take(room as int)
    } else {
        data
    }
}

/// Whether `after` is `before` and then the first bytes of `data`, none to all of them.
pub open spec fn extended_by(before: Seq<u8>, after: Seq<u8>, data: Seq<u8>) -> bool {
    let n = after.len() - before.len();
    &&& 0 <= n <= data.len()
    &&& after == before + data.take(n)
}

/// Calls `Decoder::new` for streams of ADTS frames. Nothing was done with the new decoder, and it
/// has taken nothing in.
#[verifier::external_body]
pub(crate) fn open_adts() -> (decoder: Decoder)
    ensures
        history(decoder) == Seq::<DecoderCall>::empty(),
        taken_in(decoder) == Seq::<u8>::empty(),
{
    Decoder::new(Transport::Adts)
}

/// Calls `Decoder::fill`, which takes in as many of the bytes as there is room for, from the first
/// on, and returns how many these are. Where it fails, it may have taken some in. It decodes
/// nothing: what was made of the last frame and what is reported of the stream stay. The length is
/// handed on as 32 bits; what is taken in of longer data is left open.
#[verifier::external_body]
pub(crate) fn fill(decoder: &mut Decoder, data: &[u8]) -> (r: Result<usize, DecoderFault>)
    ensures
        history(*final(decoder)) == history(*old(decoder)).push(DecoderCall::Fill(data@)),
        outcome(*final(decoder)) == outcome(*old(decoder)),
        reported(*final(decoder)) == reported(*old(decoder)),
        refused(*final(decoder)) == match r {
            Ok(_) => None,
            Err(fault) => Some(fault),
        },
        data@.len() <= u32::MAX && r is Ok ==> r->Ok_0 == taken(room(*old(decoder)), data@).len(),
        data@.len() <= u32::MAX && r is Ok ==> taken_in(*final(decoder)) == taken_in(*old(decoder))
            + taken(room(*old(decoder)), data@),
        data@.len() <= u32::MAX && r is Err ==> extended_by(
            taken_in(*old(decoder)),
            taken_in(*final(decoder)),
            data@,
        ),
{
    match decoder.fill(data) {
        Ok(count) => Ok(count),
        Err(e) => Err(
            DecoderFault {
                sync_lost: e == DecoderError::TRANSPORT_SYNC_ERROR,
                message: e.message(),
            },
        ),
    }
}

/// Calls `Decoder::decode_frame`, which decodes the next frame of what was taken in and writes its
/// samples to the front of `pcm`. It takes nothing in. Where it succeeds, there is a channel and a
/// sample, the rate is positive, and all samples had room in `pcm`. What comes of the call is named
/// by what it leaves behind in the decoder, not by the bytes that were taken in: the library rounds
/// differently on different processors.
#[verifier::external_body]
pub(crate) fn decode_frame(decoder: &mut Decoder, pcm: &mut Vec<i16>) -> (r: Result<
    (),
    DecoderFault,
>)
    requires
        old(pcm)@.len() <= i32::MAX,
    ensures
        final(pcm)@.len() == old(pcm)@.len(),
        taken_in(*final(decoder)) == taken_in(*old(decoder)),
        history(*final(decoder)) == history(*old(decoder)).push(DecoderCall::DecodeFrame),
        refused(*final(decoder)) == refused(*old(decoder)),
        outcome(*final(decoder)) == match r {
            Ok(()) => Ok(
                final(pcm)@.take(
                    reported(*final(decoder)).num_channels * reported(*final(decoder)).frame_size,
                ),
            ),
            Err(fault) => Err(fault),
        },
        r is Ok ==> {
            let facts = reported(*final(decoder));
            &&& facts.num_channels > 0
            &&& facts.frame_size > 0
            &&& facts.sample_rate > 0
            &&& facts.num_channels * facts.frame_size <= final(pcm)@.len()
        },
{
    match decoder.decode_frame(pcm) {
        Ok(()) => Ok(()),
        Err(e) => Err(
            DecoderFault {
                sync_lost: e == DecoderError::TRANSPORT_SYNC_ERROR,
                message: e.message(),
            },
        ),
    }
}

/// Calls `Decoder::stream_info`, and picks some of its fields.
#[verifier::external_body]
pub(crate) fn stream_info(decoder: &Decoder) -> (facts: StreamFacts)
    ensures
        facts == reported(*decoder),
{
    let info = decoder.stream_info();
    StreamFacts {
        num_channels: info.numChannels,
        frame_size: info.frameSize,
        sample_rate: info.sampleRate,
        aac_sample_rate: info.aacSampleRate,
        aot: info.aot,
    }
}

/// Calls `Decoder::decoded_frame_size`, which is the number of channels times the number of samples
/// of each. It panics where the product does not fit.
#[verifier::external_body]
pub(crate) fn decoded_frame_size(decoder: &Decoder) -> (size: usize)
    requires
        reported(*decoder).num_channels >= 0,
        reported(*decoder).frame_size >= 0,
        reported(*decoder).num_channels * reported(*decoder).frame_size <= usize::MAX,
    ensures
        size == reported(*decoder).num_channels * reported(*decoder).frame_size,
{
    decoder.decoded_frame_size()
}

} // verus!
