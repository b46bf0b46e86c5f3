//! What is known of an AAC stream: its object type, sample rate and channels.

use crate::error::Error;
use vstd::prelude::*;

verus! {

/// MPEG-4 audio object types, in the order of their numbers.
#[derive(Clone, Copy, Debug, PartialEq, Eq, Structural)]
pub enum M4AType {
    Null,
    Main,
    Lc,
    Ssr,
    Ltp,
    Sbr,
    Scalable,
    TwinVq,
    Celp,
    Hvxc,
    Reserved10,
    Reserved11,
    Ttsi,
    MainSynth,
    WavetableSynth,
    GeneralMidi,
    Algorithmic,
    ErAacLc,
    Reserved18,
    ErAacLtp,
    ErAacScalable,
    ErTwinVq,
    ErBsac,
    ErAacLd,
    ErCelp,
    ErHvxc,
    ErHiln,
    ErParametric,
    Ssc,
    Ps,
    MpegSurround,
    Escape,
    Layer1,
    Layer2,
    Layer3,
    Dst,
    Als,
    Sls,
    SlsNonCore,
    ErAacEld,
    SmrSimple,
    SmrMain,
    Usac,
    Saoc,
    LdMpegSurround,
}

/// How many object types are named.
pub const M4A_TYPE_COUNT: usize = 45;

impl M4AType {
    /// The number of an object type.
    pub open spec fn number(self) -> int {
        self as int
    }

    /// The object type with the given number, if it is named.
    pub open spec fn numbered(index: int) -> Option<M4AType> {
        if 0 <= index < M4A_TYPE_COUNT {
            Some(choose|t: M4AType| #[trigger] t.number() == index)
        } else {
            None
        }
    }

    /// Looks an object type up by its number.
    pub fn from_index(index: usize) -> (r: Option<M4AType>)
        ensures
            r == Self::numbered(index as int),
            r is Some <==> index < M4A_TYPE_COUNT,
            r matches Some(t) ==> t.number() == index,
    {
        let t = match index {
            0 => M4AType::Null,
            1 => M4AType::Main,
            2 => M4AType::Lc,
            3 => M4AType::Ssr,
            4 => M4AType::Ltp,
            5 => M4AType::Sbr,
            6 => M4AType::Scalable,
            7 => M4AType::TwinVq,
            8 => M4AType::Celp,
            9 => M4AType::Hvxc,
            10 => M4AType::Reserved10,
            11 => M4AType::Reserved11,
            12 => M4AType::Ttsi,
            13 => M4AType::MainSynth,
            14 => M4AType::WavetableSynth,
            15 => M4AType::GeneralMidi,
            16 => M4AType::Algorithmic,
            17 => M4AType::ErAacLc,
            18 => M4AType::Reserved18,
            19 => M4AType::ErAacLtp,
            20 => M4AType::ErAacScalable,
            21 => M4AType::ErTwinVq,
            22 => M4AType::ErBsac,
            23 => M4AType::ErAacLd,
            24 => M4AType::ErCelp,
            25 => M4AType::ErHvxc,
            26 => M4AType::ErHiln,
            27 => M4AType::ErParametric,
            28 => M4AType::Ssc,
            29 => M4AType::Ps,
            30 => M4AType::MpegSurround,
            31 => M4AType::Escape,
            32 => M4AType::Layer1,
            33 => M4AType::Layer2,
            34 => M4AType::Layer3,
            35 => M4AType::Dst,
            36 => M4AType::Als,
            37 => M4AType::Sls,
            38 => M4AType::SlsNonCore,
            39 => M4AType::ErAacEld,
            40 => M4AType::SmrSimple,
            41 => M4AType::SmrMain,
            42 => M4AType::Usac,
            43 => M4AType::Saoc,
            44 => M4AType::LdMpegSurround,
            _ => return None,
        };
        assert(t.number() == index);
        Some(t)
    }
}

/// The sample rate that a sampling frequency index stands for; 0 where it stands for none.
pub open spec fn standard_rate(index: int) -> int {
    if index == 0 {
        96000
    } else if index == 1 {
        88200
    } else if index == 2 {
        64000
    } else if index == 3 {
        48000
    } else if index == 4 {
        44100
    } else if index == 5 {
        32000
    } else if index == 6 {
        24000
    } else if index == 7 {
        22050
    } else if index == 8 {
        16000
    } else if index == 9 {
        12000
    } else if index == 10 {
        11025
    } else if index == 11 {
        8000
    } else if index == 12 {
        7350
    } else {
        0
    }
}

/// The index that says that a sample rate is not one of the standard ones.
pub const EXPLICIT_RATE_INDEX: u8 = 15;

/// The sample rate of a sampling frequency index, or 0.
fn sample_rate_of_index(index: u32) -> (rate: u32)
    ensures
        rate == standard_rate(index as int),
{
    match index {
        0 => 96000,
        1 => 88200,
        2 => 64000,
        3 => 48000,
        4 => 44100,
        5 => 32000,
        6 => 24000,
        7 => 22050,
        8 => 16000,
        9 => 12000,
        10 => 11025,
        11 => 8000,
        12 => 7350,
        _ => 0,
    }
}

/// The sampling frequency index of a sample rate: the one that stands for it, else the one that
/// says that none does.
pub open spec fn rate_index(sample_rate: int) -> int {
    if exists|i: int| 0 <= i <= 12 && #[trigger] standard_rate(i) == sample_rate {
        choose|i: int| 0 <= i <= 12 && #[trigger] standard_rate(i) == sample_rate
    } else {
        EXPLICIT_RATE_INDEX as int
    }
}

/// The sampling frequency index of a sample rate.
pub fn sample_rate_index(sample_rate: u32) -> (index: u8)
    ensures
        index == rate_index(sample_rate as int),
        index <= 12 || index == EXPLICIT_RATE_INDEX,
        index <= 12 ==> standard_rate(index as int) == sample_rate,
        index == EXPLICIT_RATE_INDEX <==> forall|i: int|
            0 <= i <= 12 ==> #[trigger] standard_rate(i) != sample_rate,
{
    let index: u8 = match sample_rate {
        96000 => 0,
        88200 => 1,
        64000 => 2,
        48000 => 3,
        44100 => 4,
        32000 => 5,
        24000 => 6,
        22050 => 7,
        16000 => 8,
        12000 => 9,
        11025 => 10,
        8000 => 11,
        7350 => 12,
        _ => EXPLICIT_RATE_INDEX,
    };
    assert(index <= 12 ==> standard_rate(index as int) == sample_rate);
    index
}

/// Facts about an AAC stream.
#[derive(Clone, Copy, Debug, PartialEq, Eq, Structural)]
pub struct M4AInfo {
    /// The audio object type.
    pub otype: M4AType,
    /// The number of channels.
    pub channels: u8,
    /// The sample rate of the coded stream, in Hz.
    pub sample_rate: u32,
    /// The sampling frequency index of that rate.
    pub sample_rate_index: u8,
    /// The number of frames that a packet decodes to.
    pub samples: usize,
}

impl Default for M4AInfo {
    fn default() -> (info: Self)
        ensures
            info == M4AInfo::unknown(),
    {
        M4AInfo {
            otype: M4AType::Null,
            channels: 0,
            sample_rate: 0,
            sample_rate_index: 0,
            samples: 0,
        }
    }
}

/// The bit at position `i`, counted from the most significant bit of the first byte.
pub open spec fn bit_at(data: Seq<u8>, i: int) -> int {
    ((data[i / 8] >> ((7 - i % 8) as u8)) & 1u8) as int
}

/// The `n` bits from position `pos` on, read as a number, most significant bit first.
pub open spec fn bits_at(data: Seq<u8>, pos: int, n: nat) -> int
    decreases n,
{
    if n == 0 {
        0
    } else {
        2 * bits_at(data, pos, (n - 1) as nat) + bit_at(data, pos + n - 1)
    }
}

/// The object type number that stands at `pos`, and the position behind it.
pub open spec fn object_type_field(data: Seq<u8>, pos: int) -> (int, int) {
    let short = bits_at(data, pos, 5);
    if short == 31 {
        (32 + bits_at(data, pos + 5, 6), pos + 11)
    } else {
        (short, pos + 5)
    }
}

/// The sample rate that stands at `pos`, and the position behind it.
pub open spec fn sample_rate_field(data: Seq<u8>, pos: int) -> (int, int) {
    let index = bits_at(data, pos, 4);
    if index == EXPLICIT_RATE_INDEX {
        (bits_at(data, pos + 4, 24), pos + 28)
    } else {
        (standard_rate(index), pos + 4)
    }
}

/// The number of channels of a channel configuration.
pub open spec fn channel_count(config: int) -> int {
    if config == 7 {
        8
    } else {
        config
    }
}

/// The numbers of frames that a packet of an object type can decode to: a flag behind the rest of
/// the configuration chooses between them, the second one where it is set. Only the general audio
/// types have that flag, and enhanced low delay.
pub open spec fn frame_lengths(otype: int) -> Option<(int, int)> {
    if otype == M4AType::ErAacLd.number() || otype == M4AType::ErAacEld.number() {
        Some((512, 480))
    } else if 1 <= otype <= 4 || 6 <= otype <= 7 || otype == 17 || 19 <= otype <= 22 {
        Some((1024, 960))
    } else {
        None
    }
}

/// What an audio specific configuration says.
pub struct ConfigFields {
    /// The object type number.
    pub otype: int,
    /// The sample rate.
    pub rate: int,
    /// The number of channels.
    pub channels: int,
    /// The number of frames that a packet decodes to, if that is said.
    pub samples: Option<int>,
    /// The number of bits that say all this.
    pub end: int,
}

/// Reads the fields of an audio specific configuration. With spectral band replication the object
/// type is that of the core stream, which stands behind the rate of the extension.
pub open spec fn config_fields(data: Seq<u8>) -> ConfigFields {
    let (first, p1) = object_type_field(data, 0);
    let (rate, p2) = sample_rate_field(data, p1);
    let channels = channel_count(bits_at(data, p2, 4));
    let p3 = p2 + 4;
    let (otype, p4) = if first == M4AType::Sbr.number() || first == M4AType::Ps.number() {
        object_type_field(data, sample_rate_field(data, p3).1)
    } else {
        (first, p3)
    };
    match frame_lengths(otype) {
        Some((long, short)) => {
            let samples = if bits_at(data, p4, 1) == 1 {
                short
            } else {
                long
            };
            ConfigFields { otype, rate, channels, samples: Some(samples), end: p4 + 1 }
        },
        None => ConfigFields { otype, rate, channels, samples: None, end: p4 },
    }
}

/// Whether an audio specific configuration is complete, gives a sample rate, and names a known
/// object type.
pub open spec fn config_valid(data: Seq<u8>) -> bool {
    let fields = config_fields(data);
    &&& fields.end <= 8 * data.len()
    &&& fields.rate > 0
    &&& fields.otype < M4A_TYPE_COUNT
}

proof fn lemma_bits_bound(data: Seq<u8>, pos: int, n: nat)
    requires
        n <= 24,
    ensures
        0 <= bits_at(data, pos, n) < vstd::arithmetic::power2::pow2(n),
    decreases n,
{
    vstd::arithmetic::power2::lemma2_to64();
    if n > 0 {
        lemma_bits_bound(data, pos, (n - 1) as nat);
        vstd::arithmetic::power2::lemma_pow2_unfold(n);
        let i = pos + n - 1;
        let byte = data[i / 8];
        let shift = (7 - i % 8) as u8;
        assert(((byte >> shift) & 1u8) <= 1u8) by (bit_vector);
    }
}

/// Reads `n` bits from position `pos` on; there is nothing to read where the data ends before.
fn read_bits(data: &[u8], pos: usize, n: usize) -> (r: Option<u32>)
    requires
        n <= 24,
        pos <= 1000,
    ensures
        r is Some <==> pos + n <= 8 * data@.len(),
        r matches Some(v) ==> v == bits_at(data@, pos as int, n as nat),
        r matches Some(v) ==> v < vstd::arithmetic::power2::pow2(n as nat),
{
    if (pos + n + 7) / 8 > data.len() {
        return None;
    }
    let mut value: u32 = 0;
    for k in 0..n
        invariant
            n <= 24,
            pos <= 1000,
            pos + n <= 8 * data@.len(),
            value == bits_at(data@, pos as int, k as nat),
    {
        proof {
            lemma_bits_bound(data@, pos as int, k as nat);
            vstd::arithmetic::power2::lemma2_to64();
            if k < 24 {
                vstd::arithmetic::power2::lemma_pow2_strictly_increases(k as nat, 24);
            }
        }
        let i: usize = pos + k;
        let byte: u8 = data[i / 8];
        let shift: u8 = 7 - (i % 8) as u8;
        let bit: u8 = (byte >> shift) & 1u8;
        assert(((byte >> shift) & 1u8) <= 1u8) by (bit_vector);
        value = 2 * value + bit as u32;
    }
    proof {
        lemma_bits_bound(data@, pos as int, n as nat);
    }
    Some(value)
}

/// Reads the object type number at `pos`.
fn read_object_type(data: &[u8], pos: usize) -> (r: Option<(u32, usize)>)
    requires
        pos <= 500,
    ensures
        r is Some <==> object_type_field(data@, pos as int).1 <= 8 * data@.len(),
        r matches Some(f) ==> (f.0 as int, f.1 as int) == object_type_field(data@, pos as int),
        r matches Some(f) ==> f.1 <= pos + 11 && f.0 < 96,
{
    proof {
        vstd::arithmetic::power2::lemma2_to64();
    }
    match read_bits(data, pos, 5) {
        None => None,
        Some(31) => match read_bits(data, pos + 5, 6) {
            None => None,
            Some(rest) => Some((32 + rest, pos + 11)),
        },
        Some(short) => Some((short, pos + 5)),
    }
}

/// Reads the sample rate at `pos`.
fn read_sample_rate(data: &[u8], pos: usize) -> (r: Option<(u32, usize)>)
    requires
        pos <= 500,
    ensures
        r is Some <==> sample_rate_field(data@, pos as int).1 <= 8 * data@.len(),
        r matches Some(f) ==> (f.0 as int, f.1 as int) == sample_rate_field(data@, pos as int),
        r matches Some(f) ==> f.1 <= pos + 28,
{
    match read_bits(data, pos, 4) {
        None => None,
        Some(15) => match read_bits(data, pos + 4, 24) {
            None => None,
            Some(rate) => Some((rate, pos + 28)),
        },
        Some(index) => Some((sample_rate_of_index(index), pos + 4)),
    }
}

/// Reads the number of frames that a packet of this object type decodes to, if that is said at
/// `pos`.
fn read_frame_length(data: &[u8], pos: usize, otype: u32) -> (r: Option<Option<usize>>)
    requires
        pos <= 500,
    ensures
        match frame_lengths(otype as int) {
            Some((long, short)) => {
                &&& r is Some <==> pos + 1 <= 8 * data@.len()
                &&& r matches Some(samples) ==> {
                    &&& samples is Some
                    &&& samples->0 == if bits_at(data@, pos as int, 1) == 1 {
                        short
                    } else {
                        long
                    }
                }
            },
            None => r == Some(None::<usize>),
        },
{
    let (long, short): (usize, usize) = match otype {
        23 | 39 => (512, 480),
        1..=4 | 6..=7 | 17 | 19..=22 => (1024, 960),
        _ => return Some(None),
    };
    match read_bits(data, pos, 1) {
        None => None,
        Some(1) => Some(Some(short)),
        Some(_) => Some(Some(long)),
    }
}

/// Reads the object type number, sample rate, channels and frame length of a configuration.
fn read_config(data: &[u8]) -> (r: Option<(u32, u32, u8, Option<usize>)>)
    ensures
        r is Some <==> config_fields(data@).end <= 8 * data@.len(),
        r matches Some(f) ==> {
            let fields = config_fields(data@);
            &&& f.0 == fields.otype
            &&& f.1 == fields.rate
            &&& f.2 == fields.channels
            &&& match f.3 {
                Some(samples) => fields.samples == Some(samples as int),
                None => fields.samples is None,
            }
        },
{
    proof {
        vstd::arithmetic::power2::lemma2_to64();
    }
    let (first, p1): (u32, usize) = match read_object_type(data, 0) {
        None => return None,
        Some(f) => f,
    };
    let (rate, p2): (u32, usize) = match read_sample_rate(data, p1) {
        None => return None,
        Some(f) => f,
    };
    let channels: u8 = match read_bits(data, p2, 4) {
        None => return None,
        Some(7) => 8,
        Some(config) => config as u8,
    };
    let (otype, p4): (u32, usize) = if first == M4AType::Sbr as u32 || first == M4AType::Ps as u32 {
        let p3: usize = match read_sample_rate(data, p2 + 4) {
            None => return None,
            Some((_, p3)) => p3,
        };
        match read_object_type(data, p3) {
            None => return None,
            Some(f) => f,
        }
    } else {
        (first, p2 + 4)
    };
    match read_frame_length(data, p4, otype) {
        None => None,
        Some(samples) => Some((otype, rate, channels, samples)),
    }
}

impl M4AInfo {
    /// What is known before anything has been read.
    pub open spec fn unknown() -> M4AInfo {
        M4AInfo {
            otype: M4AType::Null,
            channels: 0,
            sample_rate: 0,
            sample_rate_index: 0,
            samples: 0,
        }
    }

    /// These facts with those that an audio specific configuration gives in their place.
    pub open spec fn configured_by(self, data: Seq<u8>) -> M4AInfo {
        let fields = config_fields(data);
        M4AInfo {
            otype: M4AType::numbered(fields.otype)->0,
            channels: fields.channels as u8,
            sample_rate: fields.rate as u32,
            sample_rate_index: rate_index(fields.rate) as u8,
            samples: match fields.samples {
                Some(samples) => samples as usize,
                None => self.samples,
            },
        }
    }

    /// Takes the facts from an audio specific configuration.
    pub fn read(&mut self, buf: &[u8]) -> (r: Result<(), Error>)
        ensures
            r is Ok <==> config_valid(buf@),
            r is Ok ==> *final(self) == old(self).configured_by(buf@),
            r is Err ==> r == Err::<(), Error>(Error::DecodeError("aac: invalid data")),
            r is Err ==> *final(self) == *old(self),
    {
        let (number, rate, channels, samples): (u32, u32, u8, Option<usize>) = match read_config(
            buf,
        ) {
            None => return Err(Error::DecodeError("aac: invalid data")),
            Some(f) => f,
        };
        if rate == 0 {
            return Err(Error::DecodeError("aac: invalid data"));
        }
        match M4AType::from_index(number as usize) {
            None => Err(Error::DecodeError("aac: invalid data")),
            Some(otype) => {
                self.otype = otype;
                self.channels = channels;
                self.sample_rate = rate;
                self.sample_rate_index = sample_rate_index(rate);
                match samples {
                    Some(samples) => self.samples = samples,
                    None => {},
                }
                Ok(())
            },
        }
    }
}

/// Each object type has a number of its own, and is found by it.
pub proof fn types_are_found_by_number(t: M4AType)
    ensures
        M4AType::numbered(t.number()) == Some(t),
{
}

/// A sampling frequency index stands for the sample rate that it was looked up for, where it stands
/// for one at all, and has room in the four bits of its field.
pub proof fn rate_index_stands_for_rate(sample_rate: int)
    ensures
        0 <= rate_index(sample_rate) <= 15,
        rate_index(sample_rate) != EXPLICIT_RATE_INDEX ==> standard_rate(rate_index(sample_rate))
            == sample_rate,
{
}

/// Every sample rate that an index stands for is found again by that index.
pub proof fn standard_rates_are_found(index: int)
    requires
        0 <= index <= 12,
    ensures
        rate_index(standard_rate(index)) == index,
{
}

} // verus!
