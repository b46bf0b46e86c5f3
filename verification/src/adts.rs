//! Audio Data Transport Stream (ADTS) headers, which frame raw AAC packets.

use crate::meta::M4AType;
use core::ops::Range;
use vstd::arithmetic::power2::pow2;
use vstd::prelude::*;

verus! {

/// The length of a header without a checksum, in bytes.
pub const ADTS_HEADER_LENGTH: u16 = 7;

/// The bits `first` to `last` of a number of `width` bits, both included, where bit 1 is the most
/// significant one.
pub open spec fn bit_field(value: int, width: nat, first: int, last: int) -> int {
    (value % pow2((width - first + 1) as nat) as int) / pow2((width - last) as nat) as int
}

/// Whether the length of a frame with this payload can be computed in 16 bits. Of a payload of
/// 65536 bytes or more only the low 16 bits of its length are counted.
pub open spec fn frame_length_fits(num_bytes: int) -> bool {
    num_bytes % 0x1_0000 + ADTS_HEADER_LENGTH <= 0xffff
}

/// The length of a frame: that of the header and that of the payload, the latter in 16 bits.
pub open spec fn frame_length(num_bytes: int) -> u16 {
    (num_bytes % 0x1_0000 + ADTS_HEADER_LENGTH) as u16
}

/// The header of a frame. The fields are laid out from the most significant bit on: 12 sync bits,
/// version and layer, no checksum; 2 bits of object type less one, 4 of sampling frequency index, a
/// private bit and the first of 3 of channel configuration; the other two, four flags and the first
/// two of 13 of frame length; the next eight of these; the last three, and 11 bits of buffer
/// fullness, all set; and two bits for the number of blocks.
pub open spec fn adts_header(
    object_type: M4AType,
    sample_freq_index: u8,
    channel_config: u8,
    num_bytes: int,
) -> Seq<u8> {
    let profile = (object_type as u8 - 1) as u8;
    let length = frame_length(num_bytes);
    seq![
        0xffu8,
        0xf1u8,
        (((profile << 4u8) | sample_freq_index) << 2u8) | 2u8 | ((channel_config >> 2u8) & 1u8),
        (channel_config << 6u8) | 0x3cu8 | ((length >> 11u16) & 3u16) as u8,
        ((length >> 3u16) & 0xffu16) as u8,
        ((length & 7u16) as u8) << 5u8 | 0x1fu8,
        0xfcu8,
    ]
}

proof fn lemma_shave_u16(b: u16, k: u16)
    requires
        k < 16,
    ensures
        ((b << k) >> k) == b as int % pow2((16 - k) as nat) as int,
{
    let n = (16 - k) as nat;
    let p = pow2(k as nat) as int;
    let q = pow2(n) as int;
    assert((b << k) >> k == b & (0xffffu16 >> k)) by (bit_vector)
        requires
            k < 16,
    ;
    vstd::bits::lemma_u16_shr_is_div(0xffffu16, k);
    vstd::arithmetic::power2::lemma2_to64();
    vstd::arithmetic::power2::lemma_pow2_pos(k as nat);
    vstd::arithmetic::power2::lemma_pow2_adds(k as nat, n);
    assert(0xffff == (q - 1) * p + (p - 1)) by (nonlinear_arith)
        requires
            p * q == 0x10000,
    ;
    vstd::arithmetic::div_mod::lemma_fundamental_div_mod_converse(0xffff, p, q - 1, p - 1);
    if k == 0 {
        assert(b & 0xffffu16 == b) by (bit_vector);
    } else {
        vstd::bits::lemma_u16_low_bits_mask_is_mod(b, n);
    }
}

proof fn lemma_shave_u8(b: u8, k: u8)
    requires
        k < 8,
    ensures
        ((b << k) >> k) == b as int % pow2((8 - k) as nat) as int,
{
    let n = (8 - k) as nat;
    let p = pow2(k as nat) as int;
    let q = pow2(n) as int;
    assert((b << k) >> k == b & (0xffu8 >> k)) by (bit_vector)
        requires
            k < 8,
    ;
    vstd::bits::lemma_u8_shr_is_div(0xffu8, k);
    vstd::arithmetic::power2::lemma2_to64();
    vstd::arithmetic::power2::lemma_pow2_pos(k as nat);
    vstd::arithmetic::power2::lemma_pow2_adds(k as nat, n);
    assert(0xff == (q - 1) * p + (p - 1)) by (nonlinear_arith)
        requires
            p * q == 0x100,
    ;
    vstd::arithmetic::div_mod::lemma_fundamental_div_mod_converse(0xff, p, q - 1, p - 1);
    if k == 0 {
        assert(b & 0xffu8 == b) by (bit_vector);
    } else {
        vstd::bits::lemma_u8_low_bits_mask_is_mod(b, n);
    }
}

// A field that reaches down to the last bit is a remainder.
proof fn lemma_low_field(value: int, width: nat, first: int)
    requires
        1 <= first <= width,
    ensures
        bit_field(value, width, first, width as int) == value % pow2(
            (width - first + 1) as nat,
        ) as int,
{
    vstd::arithmetic::power2::lemma2_to64();
    vstd::arithmetic::div_mod::lemma_div_basics(value % pow2((width - first + 1) as nat) as int);
}

// The three bits of `high` overlap a flag that is set anyway.
proof fn lemma_fourth_byte(cc: u8, cc_low: u8, length: u16, high: u16)
    requires
        cc_low == cc % 4,
        high == (length % 0x4000) / 0x800,
    ensures
        (((cc_low << 4u8) | 15u8) << 2u8) | (high as u8) == (cc << 6u8) | 0x3cu8 | (((length
            >> 11u16) & 3u16) as u8),
{
    assert(((((cc % 4) << 4u8) | 15u8) << 2u8) | (((length % 0x4000) / 0x800) as u8) == (cc
        << 6u8) | 0x3cu8 | (((length >> 11u16) & 3u16) as u8)) by (bit_vector);
}

/// Builds the header of a frame whose payload has `num_bytes` bytes.
pub fn construct_adts_header(
    object_type: M4AType,
    sample_freq_index: u8,
    channel_config: u8,
    num_bytes: usize,
) -> (header: Vec<u8>)
    requires
        object_type != M4AType::Null,
        frame_length_fits(num_bytes as int),
    ensures
        header@ == adts_header(object_type, sample_freq_index, channel_config, num_bytes as int),
        header@.len() == ADTS_HEADER_LENGTH,
{
    let byte0: u8 = 0b1111_1111;

    // The last bit says that there is no checksum.
    let byte1: u8 = 0b1111_0001;

    proof {
        vstd::arithmetic::power2::lemma2_to64();
    }
    let cc: u8 = channel_config;
    assert((cc % 8) / 4 == (cc >> 2u8) & 1u8 && cc % 4 == cc & 3u8) by (bit_vector);

    let profile: u8 = object_type as u8 - 1;
    let mut byte2: u8 = profile;
    byte2 = (byte2 << 4) | sample_freq_index;
    byte2 = (byte2 << 1) | 0b1;
    let cc_high: u8 = get_bits_u8(cc, 6..6);
    byte2 = (byte2 << 1) | cc_high;

    let cc_low: u8 = get_bits_u8(cc, 7..8);
    let mut byte3: u8 = cc_low;
    byte3 = (byte3 << 4) | 0b1111;
    let payload: u16 = num_bytes as u16;
    assert(num_bytes as u16 == num_bytes % 0x1_0000) by (bit_vector);
    let length: u16 = ADTS_HEADER_LENGTH + payload;
    let high: u16 = get_bits_u16(length, 3..5);
    byte3 = (byte3 << 2) | high as u8;

    let middle: u16 = get_bits_u16(length, 6..13);
    assert((length % 0x800) / 8 == (length >> 3u16) & 0xff) by (bit_vector);
    let byte4: u8 = middle as u8;

    let low: u16 = get_bits_u16(length, 14..16);
    assert(length % 8 == length & 7) by (bit_vector);
    let mut byte5: u8 = low as u8;
    byte5 = (byte5 << 5) | 0b1_1111;

    let mut byte6: u8 = 0b11_1111;
    byte6 = byte6 << 2;

    proof {
        let i = sample_freq_index;
        let h = (cc >> 2u8) & 1u8;
        assert((((((profile << 4u8) | i) << 1u8) | 1u8) << 1u8) | h == (((profile << 4u8) | i)
            << 2u8) | 2u8 | h) by (bit_vector);
        lemma_low_field(cc as int, 8, 7);
        lemma_fourth_byte(cc, cc_low, length, high);
        lemma_low_field(length as int, 16, 14);
        assert(0b11_1111u8 << 2u8 == 0xfcu8) by (bit_vector);
    }
    vec![byte0, byte1, byte2, byte3, byte4, byte5, byte6]
}

/// The bits `range.start` to `range.end` of a 16-bit number, both included, where bit 1 is the most
/// significant one.
pub fn get_bits_u16(byte: u16, range: Range<u16>) -> (bits: u16)
    requires
        1 <= range.start <= 16,
        1 <= range.end <= 16,
    ensures
        bits == bit_field(byte as int, 16, range.start as int, range.end as int),
{
    let shaved_left: u16 = byte << (range.start - 1);
    let moved_back: u16 = shaved_left >> (range.start - 1);
    proof {
        lemma_shave_u16(byte, (range.start - 1) as u16);
        vstd::bits::lemma_u16_shr_is_div(moved_back, (16 - range.end) as u16);
    }
    moved_back >> (16 - range.end)
}

/// The bits `range.start` to `range.end` of a byte, both included, where bit 1 is the most
/// significant one.
pub fn get_bits_u8(byte: u8, range: Range<u8>) -> (bits: u8)
    requires
        1 <= range.start <= 8,
        1 <= range.end <= 8,
    ensures
        bits == bit_field(byte as int, 8, range.start as int, range.end as int),
{
    let shaved_left: u8 = byte << (range.start - 1);
    let moved_back: u8 = shaved_left >> (range.start - 1);
    proof {
        lemma_shave_u8(byte, (range.start - 1) as u8);
        vstd::bits::lemma_u8_shr_is_div(moved_back, (8 - range.end) as u8);
    }
    moved_back >> (8 - range.end)
}

/// What a header says, read field by field.
pub struct AdtsFields {
    /// The 12 bits that mark the start of a header.
    pub sync: int,
    /// Version and layer.
    pub version: int,
    /// Whether there is no checksum behind the header.
    pub checksum_absent: bool,
    /// The number of the object type.
    pub object_type: int,
    /// The sampling frequency index.
    pub sample_freq_index: int,
    /// The channel configuration.
    pub channel_config: int,
    /// The number of bytes of header and payload.
    pub frame_length: int,
    /// How full the bit reservoir is.
    pub buffer_fullness: int,
    /// The number of blocks in the frame less one.
    pub extra_blocks: int,
}

/// Reads the fields of a header off its bytes.
pub open spec fn adts_fields(header: Seq<u8>) -> AdtsFields {
    AdtsFields {
        sync: header[0] * 16 + header[1] / 16,
        version: (header[1] / 2) as int % 8,
        checksum_absent: header[1] % 2 == 1,
        object_type: header[2] / 64 + 1,
        sample_freq_index: (header[2] / 4) as int % 16,
        channel_config: (header[2] % 2) * 4 + header[3] / 64,
        frame_length: (header[3] % 4) * 2048 + header[4] * 8 + header[5] / 32,
        buffer_fullness: (header[5] % 32) * 64 + header[6] / 4,
        extra_blocks: header[6] as int % 4,
    }
}

/// A header says what it was built from: for an object type, a sampling frequency index, a channel
/// configuration and a length that have room in their fields, reading the header gives them back.
pub proof fn header_carries_its_fields(
    object_type: M4AType,
    sample_freq_index: u8,
    channel_config: u8,
    num_bytes: int,
)
    requires
        1 <= object_type.number() <= 4,
        sample_freq_index <= 15,
        channel_config <= 7,
        0 <= num_bytes,
        num_bytes + ADTS_HEADER_LENGTH <= 0x1fff,
    ensures
        adts_fields(adts_header(object_type, sample_freq_index, channel_config, num_bytes)) == (
        AdtsFields {
            sync: 0xfff,
            version: 0,
            checksum_absent: true,
            object_type: object_type.number(),
            sample_freq_index: sample_freq_index as int,
            channel_config: channel_config as int,
            frame_length: num_bytes + ADTS_HEADER_LENGTH,
            buffer_fullness: 0x7ff,
            extra_blocks: 0,
        }),
{
    let profile = (object_type as u8 - 1) as u8;
    let i = sample_freq_index;
    let c = channel_config;
    let n = frame_length(num_bytes);
    let b2 = (((profile << 4u8) | i) << 2u8) | 2u8 | ((c >> 2u8) & 1u8);
    let b3 = (c << 6u8) | 0x3cu8 | ((n >> 11u16) & 3u16) as u8;
    let b4 = ((n >> 3u16) & 0xffu16) as u8;
    let b5 = ((n & 7u16) as u8) << 5u8 | 0x1fu8;
    assert(b2 / 64 == profile && (b2 / 4) % 16 == i && b2 % 2 == c / 4) by (bit_vector)
        requires
            profile <= 3,
            i <= 15,
            c <= 7,
            b2 == (((profile << 4u8) | i) << 2u8) | 2u8 | ((c >> 2u8) & 1u8),
    ;
    assert(b3 / 64 == c % 4 && (b3 % 4) as u16 == n / 2048) by (bit_vector)
        requires
            c <= 7,
            n <= 0x1fff,
            b3 == (c << 6u8) | 0x3cu8 | ((n >> 11u16) & 3u16) as u8,
    ;
    assert(b4 as u16 == (n / 8) % 256 && (b5 / 32) as u16 == n % 8 && b5 % 32 == 31) by (bit_vector)
        requires
            b4 == ((n >> 3u16) & 0xffu16) as u8,
            b5 == ((n & 7u16) as u8) << 5u8 | 0x1fu8,
    ;
}

/// Two bit fields that stand next to each other join into one.
pub proof fn adjacent_fields_join(value: int, width: nat, first: int, middle: int, last: int)
    requires
        1 <= first <= middle < last <= width,
    ensures
        bit_field(value, width, first, last) == bit_field(value, width, first, middle) * pow2(
            (last - middle) as nat,
        ) + bit_field(value, width, middle + 1, last),
{
    let a = pow2((width - last) as nat) as int;
    let b = pow2((last - middle) as nat) as int;
    let c = pow2((middle - first + 1) as nat) as int;
    let low = pow2((width - middle) as nat) as int;
    let all = pow2((width - first + 1) as nat) as int;
    vstd::arithmetic::power2::lemma_pow2_pos((width - last) as nat);
    vstd::arithmetic::power2::lemma_pow2_pos((last - middle) as nat);
    vstd::arithmetic::power2::lemma_pow2_pos((middle - first + 1) as nat);
    vstd::arithmetic::power2::lemma_pow2_adds((width - last) as nat, (last - middle) as nat);
    vstd::arithmetic::power2::lemma_pow2_adds(
        (width - middle) as nat,
        (middle - first + 1) as nat,
    );
    vstd::arithmetic::power2::lemma_pow2_pos((width - middle) as nat);
    let x = value % all;
    vstd::arithmetic::div_mod::lemma_mod_mod(value, low, c);
    let high = x / low;
    let rest = x % low;
    vstd::arithmetic::div_mod::lemma_fundamental_div_mod(x, low);
    assert(x == high * b * a + rest) by (nonlinear_arith)
        requires
            x == low * high + rest,
            low == a * b,
    ;
    vstd::arithmetic::div_mod::lemma_fundamental_div_mod(rest, a);
    let q = rest / a;
    let r = rest % a;
    assert(x == (high * b + q) * a + r) by (nonlinear_arith)
        requires
            x == high * b * a + rest,
            rest == a * q + r,
    ;
    vstd::arithmetic::div_mod::lemma_mod_bound(rest, a);
    vstd::arithmetic::div_mod::lemma_fundamental_div_mod_converse(x, a, high * b + q, r);
}

} // verus!
