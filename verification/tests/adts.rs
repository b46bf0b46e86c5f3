use symphonia_adapters::adts::{construct_adts_header, get_bits_u16, get_bits_u8};
use symphonia_adapters::meta::M4AType;

#[test]
fn header_of_a_stereo_packet() {
    // AAC-LC, 44100 Hz, stereo, 300 bytes of payload.
    let header = construct_adts_header(M4AType::Lc, 4, 2, 300);
    assert_eq!(header, vec![0xff, 0xf1, 0x52, 0xbc, 0x26, 0x7f, 0xfc]);
}

#[test]
fn header_of_a_mono_packet() {
    // AAC-LC, 48000 Hz, mono, 1 byte of payload.
    let header = construct_adts_header(M4AType::Lc, 3, 1, 1);
    assert_eq!(header, vec![0xff, 0xf1, 0x4e, 0x7c, 0x01, 0x1f, 0xfc]);
}

#[test]
fn header_fields_are_read_back() {
    for (otype, number) in [
        (M4AType::Main, 1),
        (M4AType::Lc, 2),
        (M4AType::Ssr, 3),
        (M4AType::Ltp, 4),
    ] {
        for index in 0..16u8 {
            for channels in 0..8u8 {
                for bytes in [0usize, 1, 7, 255, 256, 2040, 2041, 4096, 8184] {
                    let h = construct_adts_header(otype, index, channels, bytes);
                    let h: Vec<usize> = h.iter().map(|b| *b as usize).collect();
                    assert_eq!(h.len(), 7);
                    assert_eq!(h[0] * 16 + h[1] / 16, 0xfff);
                    assert_eq!(h[1] % 16, 1);
                    assert_eq!(h[2] / 64 + 1, number);
                    assert_eq!((h[2] / 4) % 16, index as usize);
                    assert_eq!((h[2] % 2) * 4 + h[3] / 64, channels as usize);
                    assert_eq!((h[3] % 4) * 2048 + h[4] * 8 + h[5] / 32, bytes + 7);
                    assert_eq!((h[5] % 32) * 64 + h[6] / 4, 0x7ff);
                    assert_eq!(h[6] % 4, 0);
                }
            }
        }
    }
}

#[test]
fn long_payloads_lose_their_high_bits() {
    // The length is counted in 16 bits, of which the field holds 13.
    let whole = construct_adts_header(M4AType::Lc, 4, 2, 0x1_0000 + 300);
    assert_eq!(whole, construct_adts_header(M4AType::Lc, 4, 2, 300));
    let folded = construct_adts_header(M4AType::Lc, 4, 2, 0x2000 + 300);
    assert_eq!(folded, construct_adts_header(M4AType::Lc, 4, 2, 300));
}

#[test]
fn high_object_types_are_folded() {
    // Spectral band replication is number 5: two bits of 4 are 0.
    let header = construct_adts_header(M4AType::Sbr, 6, 2, 300);
    assert_eq!(header[2], 0x1a);
}

#[test]
fn a_large_index_spills_into_the_object_type() {
    let header = construct_adts_header(M4AType::Main, 0x10, 0, 0);
    assert_eq!(header[2], 0x42);
}

#[test]
fn bits_of_a_byte() {
    assert_eq!(get_bits_u8(0b1011_0110, 1..8), 0b1011_0110);
    assert_eq!(get_bits_u8(0b1011_0110, 1..1), 1);
    assert_eq!(get_bits_u8(0b1011_0110, 2..4), 0b011);
    assert_eq!(get_bits_u8(0b1011_0110, 6..6), 1);
    assert_eq!(get_bits_u8(0b1011_0110, 7..8), 0b10);
    assert_eq!(get_bits_u8(0b1011_0110, 8..8), 0);
    assert_eq!(get_bits_u8(0xff, 5..4), 0);
}

#[test]
fn bits_of_two_bytes() {
    assert_eq!(get_bits_u16(0xabcd, 1..16), 0xabcd);
    assert_eq!(get_bits_u16(0xabcd, 1..4), 0xa);
    assert_eq!(get_bits_u16(0xabcd, 5..12), 0xbc);
    assert_eq!(get_bits_u16(0xabcd, 14..16), 5);
    assert_eq!(get_bits_u16(0xffff, 3..5), 7);
}

#[test]
fn adjacent_bits_join() {
    for value in [0u16, 1, 307, 0x1fff, 0x8421, 0xffff] {
        let high = get_bits_u16(value, 4..5);
        let middle = get_bits_u16(value, 6..13);
        let low = get_bits_u16(value, 14..16);
        assert_eq!(high * 2048 + middle * 8 + low, value % 8192);
    }
}
