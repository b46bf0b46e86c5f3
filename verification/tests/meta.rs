use symphonia_adapters::error::Error;
use symphonia_adapters::meta::{sample_rate_index, M4AInfo, M4AType};

fn read(data: &[u8]) -> Result<M4AInfo, Error> {
    let mut info = M4AInfo::default();
    info.read(data).map(|()| info)
}

#[test]
fn nothing_is_known_at_first() {
    let info = M4AInfo::default();
    assert_eq!(info.otype, M4AType::Null);
    assert_eq!(info.channels, 0);
    assert_eq!(info.sample_rate, 0);
    assert_eq!(info.sample_rate_index, 0);
    assert_eq!(info.samples, 0);
}

#[test]
fn configuration_of_a_plain_stream() {
    // AAC-LC, 44100 Hz, stereo.
    let info = read(&[0x12, 0x10]).unwrap();
    assert_eq!(info.otype, M4AType::Lc);
    assert_eq!(info.sample_rate, 44100);
    assert_eq!(info.sample_rate_index, 4);
    assert_eq!(info.channels, 2);
    assert_eq!(info.samples, 1024);
}

#[test]
fn configuration_with_short_frames() {
    // The bit behind the channel configuration is set.
    assert_eq!(read(&[0x12, 0x14]).unwrap().samples, 960);
    // 11111 000111 0100 0001 1: the low delay types have frames of their own.
    assert_eq!(read(&[0xf8, 0xe8, 0x30]).unwrap().samples, 480);
    // 01000 0100 0001: this type does not have the bit.
    let mut info = M4AInfo::default();
    info.samples = 77;
    info.read(&[0x42, 0x0c]).unwrap();
    assert_eq!(info.otype, M4AType::Celp);
    assert_eq!(info.samples, 77);
}

#[test]
fn configuration_with_an_explicit_rate() {
    // 00010 1111 000000000000000000111001 0001: AAC-LC, 57 Hz, mono.
    let info = read(&[0x17, 0x80, 0x00, 0x1c, 0x88]).unwrap();
    assert_eq!(info.otype, M4AType::Lc);
    assert_eq!(info.sample_rate, 57);
    assert_eq!(info.sample_rate_index, 15);
    assert_eq!(info.channels, 1);
}

#[test]
fn configuration_with_band_replication() {
    // 00101 0111 0010 0100 00010: SBR at 22050 Hz, stereo, extension at 44100 Hz, AAC-LC core.
    let info = read(&[0x2b, 0x92, 0x08]).unwrap();
    assert_eq!(info.otype, M4AType::Lc);
    assert_eq!(info.sample_rate, 22050);
    assert_eq!(info.sample_rate_index, 7);
    assert_eq!(info.channels, 2);
    assert_eq!(info.samples, 1024);
}

#[test]
fn configuration_with_an_escaped_object_type() {
    // 11111 000111 0100 0001: number 39, 44100 Hz, mono.
    let info = read(&[0xf8, 0xe8, 0x20]).unwrap();
    assert_eq!(info.otype, M4AType::ErAacEld);
    assert_eq!(info.sample_rate, 44100);
    assert_eq!(info.channels, 1);
    assert_eq!(info.samples, 512);
}

#[test]
fn configuration_of_eight_channels() {
    // 00010 0100 0111: channel configuration 7.
    assert_eq!(read(&[0x12, 0x38]).unwrap().channels, 8);
}

#[test]
fn bad_configurations_are_refused() {
    let invalid = Err(Error::DecodeError("aac: invalid data"));
    // Too short.
    assert_eq!(read(&[]), invalid);
    assert_eq!(read(&[0x12]), invalid);
    // An explicit rate that is cut off.
    assert_eq!(read(&[0x17, 0x80]), invalid);
    // An extension that is cut off.
    assert_eq!(read(&[0x2b, 0x92]), invalid);
    // A reserved sampling frequency index.
    assert_eq!(read(&[0x16, 0x90]), invalid);
    // An object type without a name.
    assert_eq!(read(&[0xff, 0xe8, 0x20]), invalid);
}

#[test]
fn refused_configurations_change_nothing() {
    let mut info = read(&[0x12, 0x10]).unwrap();
    let before = info;
    assert!(info.read(&[0x16, 0x90]).is_err());
    assert_eq!(info, before);
}

#[test]
fn sample_rates_are_found() {
    let rates = [
        96000, 88200, 64000, 48000, 44100, 32000, 24000, 22050, 16000, 12000, 11025, 8000, 7350,
    ];
    for (index, rate) in rates.iter().enumerate() {
        assert_eq!(sample_rate_index(*rate), index as u8);
    }
    assert_eq!(sample_rate_index(0), 15);
    assert_eq!(sample_rate_index(44101), 15);
}

#[test]
fn object_types_are_found_by_number() {
    for index in 0..45 {
        let otype = M4AType::from_index(index).unwrap();
        assert_eq!(otype as usize, index);
    }
    assert_eq!(M4AType::from_index(2), Some(M4AType::Lc));
    assert_eq!(M4AType::from_index(29), Some(M4AType::Ps));
    assert_eq!(M4AType::from_index(45), None);
}
