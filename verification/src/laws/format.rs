//! Laws on headers, configurations and sample rates.

use crate::aac::AacDecoder;
use crate::adts::{
    adts_header, bit_field, construct_adts_header, frame_length, get_bits_u16, get_bits_u8,
};
use crate::error::Error;
use crate::meta::{
    bits_at, config_fields, sample_rate_index, standard_rate, M4AInfo, M4AType,
};
use crate::opus::OpusDecoder;
use crate::params::{ChannelLayout, CodecNames};
use core::ops::Range;
use vstd::arithmetic::power2::pow2;
use vstd::prelude::*;

verus! {

/// The object types are numbered as MPEG-4 numbers them.
pub proof fn object_types_are_numbered()
    ensures
        M4AType::Null.number() == 0,
        M4AType::Main.number() == 1,
        M4AType::Lc.number() == 2,
        M4AType::Ssr.number() == 3,
        M4AType::Ltp.number() == 4,
        M4AType::Sbr.number() == 5,
        M4AType::Scalable.number() == 6,
        M4AType::TwinVq.number() == 7,
        M4AType::Celp.number() == 8,
        M4AType::Hvxc.number() == 9,
        M4AType::Reserved10.number() == 10,
        M4AType::Reserved11.number() == 11,
        M4AType::Ttsi.number() == 12,
        M4AType::MainSynth.number() == 13,
        M4AType::WavetableSynth.number() == 14,
        M4AType::GeneralMidi.number() == 15,
        M4AType::Algorithmic.number() == 16,
        M4AType::ErAacLc.number() == 17,
        M4AType::Reserved18.number() == 18,
        M4AType::ErAacLtp.number() == 19,
        M4AType::ErAacScalable.number() == 20,
        M4AType::ErTwinVq.number() == 21,
        M4AType::ErBsac.number() == 22,
        M4AType::ErAacLd.number() == 23,
        M4AType::ErCelp.number() == 24,
        M4AType::ErHvxc.number() == 25,
        M4AType::ErHiln.number() == 26,
        M4AType::ErParametric.number() == 27,
        M4AType::Ssc.number() == 28,
        M4AType::Ps.number() == 29,
        M4AType::MpegSurround.number() == 30,
        M4AType::Escape.number() == 31,
        M4AType::Layer1.number() == 32,
        M4AType::Layer2.number() == 33,
        M4AType::Layer3.number() == 34,
        M4AType::Dst.number() == 35,
        M4AType::Als.number() == 36,
        M4AType::Sls.number() == 37,
        M4AType::SlsNonCore.number() == 38,
        M4AType::ErAacEld.number() == 39,
        M4AType::SmrSimple.number() == 40,
        M4AType::SmrMain.number() == 41,
        M4AType::Usac.number() == 42,
        M4AType::Saoc.number() == 43,
        M4AType::LdMpegSurround.number() == 44,
{
}

// Every number below 45 is that of an object type.
pub(crate) proof fn lemma_some_type_is_numbered(index: int)
    requires
        0 <= index < 45,
    ensures
        M4AType::numbered(index) is Some,
        M4AType::numbered(index)->0.number() == index,
{
    object_types_are_numbered();
}

// The bytes of a header, as numbers.
pub(crate) proof fn lemma_header_bytes(otype: M4AType, index: u8, channels: u8, num_bytes: int)
    requires
        otype != M4AType::Null,
        0 <= num_bytes,
        num_bytes % 0x1_0000 <= 0xfff8,
    ensures
        ({
            let header = adts_header(otype, index, channels, num_bytes);
            let length = num_bytes % 0x1_0000 + 7;
            &&& header.len() == 7
            &&& header[0] == 0xff
            &&& header[1] == 0xf1
            &&& index <= 15 ==> header[2] == ((otype.number() - 1) % 4) * 64 + index * 4 + 2 + (
            channels as int / 4) % 2
            &&& header[3] == (channels as int % 4) * 64 + 0x3c + (length / 2048) % 4
            &&& header[4] == (length / 8) % 256
            &&& header[5] == (length % 8) * 32 + 31
            &&& header[6] == 0xfc
        }),
{
    let p = (otype as u8 - 1) as u8;
    let i = index;
    let c = channels;
    let n = frame_length(num_bytes);
    assert(index <= 15 ==> ((((p << 4u8) | i) << 2u8) | 2u8 | ((c >> 2u8) & 1u8)) == (p % 4) * 64 + i
        * 4 + 2 + (c / 4) % 2) by (bit_vector)
        requires
            index == i,
    ;
    assert(((c << 6u8) | 0x3cu8 | (((n >> 11u16) & 3u16) as u8)) == (c % 4) * 64 + 0x3c + (n / 2048)
        % 4) by (bit_vector);
    assert((((n >> 3u16) & 0xffu16) as u8) == (n / 8) % 256) by (bit_vector);
    assert((((n & 7u16) as u8) << 5u8 | 0x1fu8) == (n % 8) * 32 + 31) by (bit_vector);
}

/// A header is built of its fields, byte by byte: of the object type less one, in two bits, the
/// sampling frequency index, in four, the channel configuration, in three, and the number of bytes
/// of header and payload, in thirteen. A larger index spills into the object type.
pub proof fn header_is_built_of_its_fields(
    object_type: M4AType,
    sample_freq_index: u8,
    channel_config: u8,
    num_bytes: usize,
    header: Vec<u8>,
)
    requires
        object_type != M4AType::Null,
        num_bytes % 0x1_0000 <= 0xfff8,
        call_ensures(
            construct_adts_header,
            (object_type, sample_freq_index, channel_config, num_bytes),
            header,
        ),
    ensures
        call_requires(
            construct_adts_header,
            (object_type, sample_freq_index, channel_config, num_bytes),
        ),
        ({
            let length = num_bytes % 0x1_0000 + 7;
            let c = channel_config as int;
            let t = object_type.number() - 1;
            &&& header@.len() == 7
            &&& header@[0] == 0xff
            &&& header@[1] == 0xf1
            &&& sample_freq_index <= 15 ==> header@[2] == (t % 4) * 64 + sample_freq_index * 4 + 2
                + (c / 4) % 2
            &&& header@[2] == ((((t % 16) * 16) as u8 | sample_freq_index) as int % 64) * 4 + 2 + (c
                / 4) % 2
            &&& header@[3] == (c % 4) * 64 + 0x3c + (length / 2048) % 4
            &&& header@[4] == (length / 8) % 256
            &&& header@[5] == (length % 8) * 32 + 31
            &&& header@[6] == 0xfc
        }),
{
    lemma_header_bytes(object_type, sample_freq_index, channel_config, num_bytes as int);
    let p = (object_type as u8 - 1) as u8;
    let i = sample_freq_index;
    let c = channel_config;
    let high = (p % 16) * 16;
    let high8 = high as u8;
    assert(((((p << 4u8) | i) << 2u8) | 2u8 | ((c >> 2u8) & 1u8)) == ((high8 | i) % 64) * 4 + 2 + (c
        / 4) % 2) by (bit_vector)
        requires
            high8 == (p % 16) * 16,
    ;
}

// A bit field is a quotient, reduced.
proof fn lemma_field_is_reduced_quotient(value: int, width: nat, first: int, last: int)
    requires
        0 <= value,
        1 <= first <= width,
        1 <= last <= width,
    ensures
        first <= last ==> bit_field(value, width, first, last) == (value / pow2(
            (width - last) as nat,
        ) as int) % pow2((last - first + 1) as nat) as int,
        first > last ==> bit_field(value, width, first, last) == 0,
{
    let a = pow2((width - last) as nat) as int;
    vstd::arithmetic::power2::lemma_pow2_pos((width - last) as nat);
    vstd::arithmetic::power2::lemma_pow2_pos((width - first + 1) as nat);
    if first <= last {
        let b = pow2((last - first + 1) as nat) as int;
        vstd::arithmetic::power2::lemma_pow2_pos((last - first + 1) as nat);
        vstd::arithmetic::power2::lemma_pow2_adds(
            (width - last) as nat,
            (last - first + 1) as nat,
        );
        vstd::arithmetic::div_mod::lemma_breakdown(value, a, b);
        let rest = value % a;
        let q = (value / a) % b;
        vstd::arithmetic::div_mod::lemma_mod_bound(value, a);
        assert(value % (a * b) == q * a + rest) by (nonlinear_arith)
            requires
                value % (a * b) == a * q + rest,
        ;
        vstd::arithmetic::div_mod::lemma_fundamental_div_mod_converse(
            value % (a * b),
            a,
            q,
            rest,
        );
    } else {
        let x = value % pow2((width - first + 1) as nat) as int;
        vstd::arithmetic::div_mod::lemma_mod_bound(value, pow2((width - first + 1) as nat) as int);
        if width - first + 1 < width - last {
            vstd::arithmetic::power2::lemma_pow2_strictly_increases(
                (width - first + 1) as nat,
                (width - last) as nat,
            );
        }
        vstd::arithmetic::div_mod::lemma_basic_div(x, a);
    }
}

/// The bits that are taken out of 16 are those that stand there: what is left of the number when the
/// bits behind them are dropped, reduced to as many bits as are asked for.
pub proof fn bits_of_16_are_taken_out(value: u16, range: Range<u16>, bits: u16)
    requires
        1 <= range.start <= 16,
        1 <= range.end <= 16,
        call_ensures(get_bits_u16, (value, range), bits),
    ensures
        call_requires(get_bits_u16, (value, range)),
        range.start <= range.end ==> bits == (value as int / pow2(
            (16 - range.end) as nat,
        ) as int) % pow2((range.end - range.start + 1) as nat) as int,
        range.start > range.end ==> bits == 0,
{
    lemma_field_is_reduced_quotient(value as int, 16, range.start as int, range.end as int);
}

/// The bits that are taken out of 8 are those that stand there, as with 16.
pub proof fn bits_of_8_are_taken_out(value: u8, range: Range<u8>, bits: u8)
    requires
        1 <= range.start <= 8,
        1 <= range.end <= 8,
        call_ensures(get_bits_u8, (value, range), bits),
    ensures
        call_requires(get_bits_u8, (value, range)),
        range.start <= range.end ==> bits == (value as int / pow2(
            (8 - range.end) as nat,
        ) as int) % pow2((range.end - range.start + 1) as nat) as int,
        range.start > range.end ==> bits == 0,
{
    lemma_field_is_reduced_quotient(value as int, 8, range.start as int, range.end as int);
}

/// Each of the thirteen standard sample rates has its index, and every other rate has 15.
pub proof fn rates_have_their_indices(sample_rate: u32, index: u8)
    requires
        call_ensures(sample_rate_index, (sample_rate,), index),
    ensures
        call_requires(sample_rate_index, (sample_rate,)),
        index == 0 <==> sample_rate == 96000,
        index == 1 <==> sample_rate == 88200,
        index == 2 <==> sample_rate == 64000,
        index == 3 <==> sample_rate == 48000,
        index == 4 <==> sample_rate == 44100,
        index == 5 <==> sample_rate == 32000,
        index == 6 <==> sample_rate == 24000,
        index == 7 <==> sample_rate == 22050,
        index == 8 <==> sample_rate == 16000,
        index == 9 <==> sample_rate == 12000,
        index == 10 <==> sample_rate == 11025,
        index == 11 <==> sample_rate == 8000,
        index == 12 <==> sample_rate == 7350,
        index <= 12 || index == 15,
{
    assert(standard_rate(0) == 96000 && standard_rate(1) == 88200 && standard_rate(2) == 64000);
    assert(standard_rate(3) == 48000 && standard_rate(4) == 44100 && standard_rate(5) == 32000);
    assert(standard_rate(6) == 24000 && standard_rate(7) == 22050 && standard_rate(8) == 16000);
    assert(standard_rate(9) == 12000 && standard_rate(10) == 11025 && standard_rate(11) == 8000);
    assert(standard_rate(12) == 7350);
}

/// An object type is looked up by its number: there is one for each number below 45, and it is the
/// one that has that number.
pub proof fn types_are_looked_up_by_number(index: usize, r: Option<M4AType>)
    requires
        call_ensures(M4AType::from_index, (index,), r),
    ensures
        call_requires(M4AType::from_index, (index,)),
        r is Some <==> index < 45,
        r is Some ==> r->0.number() == index,
{
}

/// Before anything was read, nothing is known.
pub proof fn nothing_is_known_at_first(info: M4AInfo)
    requires
        call_ensures(M4AInfo::default, (), info),
    ensures
        info.otype == M4AType::Null,
        info.channels == 0,
        info.sample_rate == 0,
        info.sample_rate_index == 0,
        info.samples == 0,
{
}

/// The channels of a layout are counted, whatever its kind.
pub proof fn channels_are_counted(layout: &ChannelLayout, count: usize)
    requires
        call_ensures(ChannelLayout::count, (layout,), count),
    ensures
        match *layout {
            ChannelLayout::Declared(n) => count == n,
            ChannelLayout::Discrete(n) => count == n,
        },
{
}

/// The codecs have their names.
pub proof fn codecs_have_their_names(aac: CodecNames, opus: CodecNames)
    requires
        call_ensures(AacDecoder::codec_names, (), aac),
        call_ensures(OpusDecoder::codec_names, (), opus),
    ensures
        aac.long_name@ == "Advanced Audio Coding"@,
        aac.short_name@ == "AAC"@,
        opus.long_name@ == "Opus"@,
        opus.short_name@ == "opus"@,
{
}

// Bits that do not leave a byte.
proof fn lemma_bits_in_byte(data: Seq<u8>, k: int, o: u8, n: u8)
    requires
        0 <= k,
        1 <= n,
        o + n <= 8,
    ensures
        bits_at(data, 8 * k + o, n as nat) == (data[k] << o) >> ((8 - n) as u8),
    decreases n,
{
    let b = data[k];
    let pos = 8 * k + o;
    let i = pos + n - 1;
    let t = (8 - o - n) as u8;
    let s = (8 - n) as u8;
    assert(i / 8 == k && i % 8 == o + n - 1);
    if n == 1 {
        assert(bits_at(data, pos, 0) == 0);
        assert((b >> t) & 1u8 == (b << o) >> s) by (bit_vector)
            requires
                s == 7,
                o <= 7,
                t == 7 - o,
        ;
    } else {
        lemma_bits_in_byte(data, k, o, (n - 1) as u8);
        let s1 = (9 - n) as u8;
        assert(2 * ((b << o) >> s1) + ((b >> t) & 1u8) == (b << o) >> s) by (bit_vector)
            requires
                2 <= n,
                o + n <= 8,
                s1 == 9 - n,
                s == 8 - n,
                t == 8 - o - n,
        ;
    }
}

// Bits in two parts.
proof fn lemma_bits_in_parts(data: Seq<u8>, pos: int, m: nat, n: nat)
    ensures
        bits_at(data, pos, m + n) == bits_at(data, pos, m) * pow2(n) + bits_at(data, pos + m, n),
    decreases n,
{
    vstd::arithmetic::power2::lemma2_to64();
    if n > 0 {
        lemma_bits_in_parts(data, pos, m, (n - 1) as nat);
        vstd::arithmetic::power2::lemma_pow2_unfold(n);
        let x = bits_at(data, pos, m);
        let p = pow2((n - 1) as nat) as int;
        assert(2 * (x * p) == x * (2 * p)) by (nonlinear_arith);
    } else {
        assert(bits_at(data, pos, m) * 1 == bits_at(data, pos, m));
    }
}

// The fields that stand in the first two bytes of a configuration.
proof fn lemma_first_two_bytes(data: Seq<u8>)
    ensures
        bits_at(data, 0, 5) == data[0] / 8,
        bits_at(data, 5, 4) == (data[0] % 8) * 2 + data[1] / 128,
        bits_at(data, 9, 4) == (data[1] / 8) % 16,
        bits_at(data, 13, 1) == (data[1] / 4) % 2,
{
    vstd::arithmetic::power2::lemma2_to64();
    let a = data[0];
    let b = data[1];
    lemma_bits_in_byte(data, 0, 0, 5);
    assert((a << 0u8) >> 3u8 == a / 8) by (bit_vector);
    lemma_bits_in_byte(data, 0, 5, 3);
    assert((a << 5u8) >> 5u8 == a % 8) by (bit_vector);
    lemma_bits_in_byte(data, 1, 0, 1);
    assert((b << 0u8) >> 7u8 == b / 128) by (bit_vector);
    lemma_bits_in_parts(data, 5, 3, 1);
    lemma_bits_in_byte(data, 1, 1, 4);
    assert((b << 1u8) >> 4u8 == (b / 8) % 16) by (bit_vector);
    lemma_bits_in_byte(data, 1, 5, 1);
    assert((b << 5u8) >> 7u8 == (b / 4) % 2) by (bit_vector);
}

/// A configuration is read off its bytes: five bits of object type, four of sampling frequency
/// index, four of channel configuration, and where the object type has it, one that says whether the
/// frames are short. It is valid where the index stands for a sample rate.
pub proof fn plain_configuration_is_read(
    info: &mut M4AInfo,
    data: &[u8],
    r: Result<(), Error>,
    index: u8,
)
    requires
        data@.len() >= 2,
        !(data@[0] / 8 == 5 || data@[0] / 8 == 29 || data@[0] / 8 == 31),
        (data@[0] % 8) * 2 + data@[1] / 128 != 15,
        call_ensures(M4AInfo::read, (info, data), r),
        call_ensures(sample_rate_index, (final(info).sample_rate,), index),
    ensures
        call_requires(M4AInfo::read, (info, data)),
        ({
            let otype = data@[0] as int / 8;
            let channels = (data@[1] as int / 8) % 16;
            let short = (data@[1] as int / 4) % 2 == 1;
            &&& r is Ok <==> (data@[0] % 8) * 2 + data@[1] / 128 <= 12
            &&& r is Ok ==> {
                &&& final(info).otype.number() == otype
                &&& index == (data@[0] % 8) * 2 + data@[1] / 128
                &&& final(info).sample_rate_index == index
                &&& final(info).channels == if channels == 7 { 8 } else { channels }
                &&& final(info).samples == if otype == 23 {
                    if short { 480int } else { 512int }
                } else if 1 <= otype <= 4 || 6 <= otype <= 7 || otype == 17 || 19 <= otype <= 22 {
                    if short { 960int } else { 1024int }
                } else {
                    old(info).samples as int
                }
            }
            &&& r is Err ==> *final(info) == *old(info)
        }),
{
    lemma_first_two_bytes(data@);
    let fields = config_fields(data@);
    if r is Ok {
        lemma_some_type_is_numbered(fields.otype);
        rates_have_their_indices(final(info).sample_rate, index);
    }
}

/// A configuration whose sampling frequency index is 15 gives the sample rate itself, in the 24 bits
/// that follow. It is valid where that is not 0.
pub proof fn explicit_rate_is_read(info: &mut M4AInfo, data: &[u8], r: Result<(), Error>)
    requires
        data@.len() >= 2,
        !(data@[0] / 8 == 5 || data@[0] / 8 == 29 || data@[0] / 8 == 31),
        (data@[0] % 8) * 2 + data@[1] / 128 == 15,
        call_ensures(M4AInfo::read, (info, data), r),
    ensures
        data@.len() < 5 ==> r is Err,
        data@.len() >= 5 ==> {
            let rate = (data@[1] % 128) * 0x2_0000 + data@[2] * 512 + data@[3] * 2 + data@[4] / 128;
            let channels = (data@[4] as int / 8) % 16;
            &&& r is Ok <==> rate > 0
            &&& r is Ok ==> {
                &&& final(info).otype.number() == data@[0] / 8
                &&& final(info).sample_rate == rate
                &&& final(info).channels == if channels == 7 { 8 } else { channels }
            }
        },
{
    let d = data@;
    lemma_first_two_bytes(d);
    if d.len() >= 5 {
        vstd::arithmetic::power2::lemma2_to64();
        let b = d[1];
        let e = d[4];
        let m2 = d[2];
        let m3 = d[3];
        lemma_bits_in_byte(d, 1, 1, 7);
        assert((b << 1u8) >> 1u8 == b % 128) by (bit_vector);
        lemma_bits_in_byte(d, 2, 0, 8);
        assert((m2 << 0u8) >> 0u8 == m2) by (bit_vector);
        lemma_bits_in_byte(d, 3, 0, 8);
        assert((m3 << 0u8) >> 0u8 == m3) by (bit_vector);
        lemma_bits_in_byte(d, 4, 0, 1);
        assert((e << 0u8) >> 7u8 == e / 128) by (bit_vector);
        lemma_bits_in_byte(d, 4, 1, 4);
        assert((e << 1u8) >> 4u8 == (e / 8) % 16) by (bit_vector);
        lemma_bits_in_parts(d, 9, 7, 8);
        lemma_bits_in_parts(d, 9, 15, 8);
        lemma_bits_in_parts(d, 9, 23, 1);
        let fields = config_fields(d);
        if r is Ok {
            lemma_some_type_is_numbered(fields.otype);
        }
    }
}

/// A configuration with spectral band replication, with or without parametric stereo, gives the
/// object type of the core stream behind the index of the extension. Rate and channels are those of
/// the core stream.
pub proof fn replicated_band_is_read(
    info: &mut M4AInfo,
    data: &[u8],
    r: Result<(), Error>,
    index: u8,
)
    requires
        data@.len() >= 3,
        data@[0] / 8 == 5 || data@[0] / 8 == 29,
        (data@[0] % 8) * 2 + data@[1] / 128 != 15,
        (data@[1] % 8) * 2 + data@[2] / 128 != 15,
        (data@[2] / 4) % 32 != 31,
        call_ensures(M4AInfo::read, (info, data), r),
        call_ensures(sample_rate_index, (final(info).sample_rate,), index),
    ensures
        ({
            let channels = (data@[1] as int / 8) % 16;
            &&& r is Ok <==> (data@[0] % 8) * 2 + data@[1] / 128 <= 12
            &&& r is Ok ==> {
                &&& final(info).otype.number() == (data@[2] / 4) as int % 32
                &&& index == (data@[0] % 8) * 2 + data@[1] / 128
                &&& final(info).sample_rate_index == index
                &&& final(info).channels == if channels == 7 { 8 } else { channels }
            }
        }),
{
    let d = data@;
    lemma_first_two_bytes(d);
    vstd::arithmetic::power2::lemma2_to64();
    let b = d[1];
    let c = d[2];
    lemma_bits_in_byte(d, 1, 5, 3);
    assert((b << 5u8) >> 5u8 == b % 8) by (bit_vector);
    lemma_bits_in_byte(d, 2, 0, 1);
    assert((c << 0u8) >> 7u8 == c / 128) by (bit_vector);
    lemma_bits_in_parts(d, 13, 3, 1);
    lemma_bits_in_byte(d, 2, 1, 5);
    assert((c << 1u8) >> 3u8 == (c / 4) % 32) by (bit_vector);
    let fields = config_fields(d);
    if r is Ok {
        lemma_some_type_is_numbered(fields.otype);
        rates_have_their_indices(final(info).sample_rate, index);
    }
}

/// A configuration whose object type is 31 gives it in the six bits that follow, counted from 32. It
/// is valid where that has a name and the index stands for a sample rate.
pub proof fn escaped_object_type_is_read(
    info: &mut M4AInfo,
    data: &[u8],
    r: Result<(), Error>,
    index: u8,
)
    requires
        data@.len() >= 3,
        data@[0] / 8 == 31,
        (data@[1] / 2) % 16 != 15,
        call_ensures(M4AInfo::read, (info, data), r),
        call_ensures(sample_rate_index, (final(info).sample_rate,), index),
    ensures
        ({
            let otype = 32 + (data@[0] % 8) * 8 + data@[1] / 32;
            let channels = (data@[1] % 2) * 8 + data@[2] / 32;
            &&& r is Ok <==> otype < 45 && (data@[1] / 2) % 16 <= 12
            &&& r is Ok ==> {
                &&& final(info).otype.number() == otype
                &&& index == (data@[1] / 2) % 16
                &&& final(info).sample_rate_index == index
                &&& final(info).channels == if channels == 7 { 8 } else { channels }
            }
        }),
{
    let d = data@;
    lemma_first_two_bytes(d);
    vstd::arithmetic::power2::lemma2_to64();
    let b = d[1];
    let c = d[2];
    let a = d[0];
    lemma_bits_in_byte(d, 0, 5, 3);
    assert((a << 5u8) >> 5u8 == a % 8) by (bit_vector);
    lemma_bits_in_byte(d, 1, 0, 3);
    assert((b << 0u8) >> 5u8 == b / 32) by (bit_vector);
    lemma_bits_in_parts(d, 5, 3, 3);
    lemma_bits_in_byte(d, 1, 3, 4);
    assert((b << 3u8) >> 4u8 == (b / 2) % 16) by (bit_vector);
    lemma_bits_in_byte(d, 1, 7, 1);
    assert((b << 7u8) >> 7u8 == b % 2) by (bit_vector);
    lemma_bits_in_byte(d, 2, 0, 3);
    assert((c << 0u8) >> 5u8 == c / 32) by (bit_vector);
    lemma_bits_in_parts(d, 15, 1, 3);
    let fields = config_fields(d);
    if r is Ok {
        lemma_some_type_is_numbered(fields.otype);
        rates_have_their_indices(final(info).sample_rate, index);
    }
}

/// A configuration that is not valid is an error, and nothing is taken from it. One of less than two
/// bytes never is.
pub proof fn invalid_configuration_changes_nothing(
    info: &mut M4AInfo,
    data: &[u8],
    r: Result<(), Error>,
)
    requires
        call_ensures(M4AInfo::read, (info, data), r),
    ensures
        call_requires(M4AInfo::read, (info, data)),
        data@.len() < 2 ==> r is Err,
        r is Err ==> *final(info) == *old(info),
        r is Err ==> r == Err::<(), Error>(Error::DecodeError("aac: invalid data")),
{
}

} // verus!
