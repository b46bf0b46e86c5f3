//! What a container says of an audio stream.

use vstd::prelude::*;

verus! {

/// The channels of a stream.
#[derive(Clone, Copy, Debug, PartialEq, Eq, Structural)]
pub enum ChannelLayout {
    /// So many channels, in a layout that the container declares.
    Declared(usize),
    /// So many channels that are independent of each other.
    Discrete(u16),
}

impl ChannelLayout {
    /// The number of channels.
    pub open spec fn spec_count(self) -> usize {
        match self {
            ChannelLayout::Declared(count) => count,
            ChannelLayout::Discrete(count) => count as usize,
        }
    }

    /// The number of channels.
    pub fn count(&self) -> (count: usize)
        ensures
            count == self.spec_count(),
    {
        match self {
            ChannelLayout::Declared(count) => *count,
            ChannelLayout::Discrete(count) => *count as usize,
        }
    }
}

/// The parameters of a stream, as far as the decoders read or change them.
#[derive(Debug)]
pub struct CodecParams {
    /// The sample rate, in Hz.
    pub sample_rate: Option<u32>,
    /// The channels.
    pub channels: Option<ChannelLayout>,
    /// Data that is defined by the codec.
    pub extra_data: Option<Vec<u8>>,
}

/// The parameters of a stream, with the data as a sequence.
pub struct ParamsView {
    /// The sample rate, in Hz.
    pub sample_rate: Option<u32>,
    /// The channels.
    pub channels: Option<ChannelLayout>,
    /// Data that is defined by the codec.
    pub extra_data: Option<Seq<u8>>,
}

impl View for CodecParams {
    type V = ParamsView;

    open spec fn view(&self) -> ParamsView {
        ParamsView {
            sample_rate: self.sample_rate,
            channels: self.channels,
            extra_data: match self.extra_data {
                Some(data) => Some(data@),
                None => None,
            },
        }
    }
}

impl CodecParams {
    /// A copy of the parameters.
    pub(crate) fn duplicate(&self) -> (copy: CodecParams)
        ensures
            copy@ == self@,
    {
        let extra_data: Option<Vec<u8>> = match &self.extra_data {
            Some(data) => {
                let copy: Vec<u8> = vstd::slice::slice_to_vec(data.as_slice());
                Some(copy)
            },
            None => None,
        };
        CodecParams { sample_rate: self.sample_rate, channels: self.channels, extra_data }
    }
}

/// The names of a codec.
#[derive(Clone, Copy, Debug, PartialEq, Eq)]
pub struct CodecNames {
    /// A descriptive name.
    pub long_name: &'static str,
    /// A short name.
    pub short_name: &'static str,
}

} // verus!
