use chunk_demux::chunks::ParseChunk;
use chunk_demux::codec::{map_wave_channels, Channels, CodecType, FRONT_LEFT, FRONT_RIGHT};
use chunk_demux::errors::Error;
use chunk_demux::source::BufSource;
use chunk_demux::wave::{FactChunk, ListChunk, WaveFormatChunk, WaveFormatData};

fn fmt_payload(format: u16, n_channels: u16, bits: u16) -> Vec<u8> {
    let mut v = Vec::new();
    v.extend_from_slice(&format.to_le_bytes());
    v.extend_from_slice(&n_channels.to_le_bytes());
    v.extend_from_slice(&44100u32.to_le_bytes());
    v.extend_from_slice(&176400u32.to_le_bytes());
    v.extend_from_slice(&4u16.to_le_bytes());
    v.extend_from_slice(&bits.to_le_bytes());
    v
}

fn ks_guid(first: u8) -> [u8; 16] {
    [first, 0, 0, 0, 0, 0, 0x10, 0, 0x80, 0, 0, 0xaa, 0, 0x38, 0x9b, 0x71]
}

fn ext_payload(n_channels: u16, coded_bits: u16, valid_bits: u16, mask: u32, first: u8) -> Vec<u8> {
    let mut v = fmt_payload(0xfffe, n_channels, coded_bits);
    v.extend_from_slice(&22u16.to_le_bytes());
    v.extend_from_slice(&valid_bits.to_le_bytes());
    v.extend_from_slice(&mask.to_le_bytes());
    v.extend_from_slice(&ks_guid(first));
    v
}

#[test]
fn pcm_16_bit_stereo_len_16() {
    let payload = fmt_payload(0x0001, 2, 16);
    let mut src = BufSource::new(payload, true);
    let chunk = WaveFormatChunk::parse(&mut src, *b"fmt ", 16).unwrap();
    assert_eq!(chunk.n_channels, 2);
    assert_eq!(chunk.sample_rate, 44100);
    match chunk.format_data {
        WaveFormatData::Pcm(pcm) => {
            assert_eq!(pcm.bits_per_sample, 16);
            assert_eq!(pcm.codec, CodecType::PcmS16Le);
            assert_eq!(pcm.channels.bits, FRONT_LEFT | FRONT_RIGHT);
        },
        _ => panic!("expected a pcm descriptor"),
    }
}

#[test]
fn pcm_len_18_discards_extra_data() {
    let mut payload = fmt_payload(0x0001, 1, 8);
    payload.extend_from_slice(&0u16.to_le_bytes());
    let mut src = BufSource::new(payload, true);
    let chunk = WaveFormatChunk::parse(&mut src, *b"fmt ", 18).unwrap();
    match chunk.format_data {
        WaveFormatData::Pcm(pcm) => {
            assert_eq!(pcm.codec, CodecType::PcmU8);
            assert_eq!(pcm.channels.bits, FRONT_LEFT);
        },
        _ => panic!("expected a pcm descriptor"),
    }
}

#[test]
fn pcm_bad_length_is_malformed() {
    let payload = fmt_payload(0x0001, 2, 16);
    let mut src = BufSource::new(payload, true);
    let r = WaveFormatChunk::parse(&mut src, *b"fmt ", 17);
    assert!(matches!(r, Err(Error::Malformed(_))));
}

#[test]
fn pcm_bad_bit_depth_is_malformed() {
    let payload = fmt_payload(0x0001, 2, 12);
    let mut src = BufSource::new(payload, true);
    let r = WaveFormatChunk::parse(&mut src, *b"fmt ", 16);
    assert!(matches!(r, Err(Error::Malformed(_))));
}

#[test]
fn pcm_three_channels_is_malformed() {
    let payload = fmt_payload(0x0001, 3, 16);
    let mut src = BufSource::new(payload, true);
    let r = WaveFormatChunk::parse(&mut src, *b"fmt ", 16);
    assert!(matches!(r, Err(Error::Malformed(_))));
}

#[test]
fn extensible_three_channels_succeeds() {
    // The same channel count that the plain tag refuses passes through
    // the extensible bitmask path.
    let payload = ext_payload(3, 16, 16, 0x7, 0x01);
    let mut src = BufSource::new(payload, true);
    let chunk = WaveFormatChunk::parse(&mut src, *b"fmt ", 40).unwrap();
    match chunk.format_data {
        WaveFormatData::Extensible(ext) => {
            assert_eq!(ext.channels.bits, 0x7);
            assert_eq!(ext.channels.count(), 3);
            assert_eq!(ext.codec, CodecType::PcmS16Le);
        },
        _ => panic!("expected an extensible descriptor"),
    }
}

#[test]
fn extensible_float_32_32() {
    let payload = ext_payload(2, 32, 32, 0x3, 0x03);
    let mut src = BufSource::new(payload, true);
    let chunk = WaveFormatChunk::parse(&mut src, *b"fmt ", 40).unwrap();
    match chunk.format_data {
        WaveFormatData::Extensible(ext) => {
            assert_eq!(ext.codec, CodecType::PcmF32Le);
            assert_eq!(ext.bits_per_sample, 32);
            assert_eq!(ext.bits_per_coded_sample, 32);
            assert_eq!(ext.sub_format_guid, ks_guid(0x03));
        },
        _ => panic!("expected an extensible descriptor"),
    }
}

#[test]
fn extensible_float_truncated_width_is_malformed() {
    // The float sub-format refuses a valid width below the coded width.
    let payload = ext_payload(2, 32, 16, 0x3, 0x03);
    let mut src = BufSource::new(payload, true);
    let r = WaveFormatChunk::parse(&mut src, *b"fmt ", 40);
    assert!(matches!(r, Err(Error::Malformed(_))));
}

#[test]
fn extensible_pcm_narrow_valid_width_succeeds() {
    // The pcm sub-format allows fewer valid bits than coded bits.
    let payload = ext_payload(2, 24, 20, 0x3, 0x01);
    let mut src = BufSource::new(payload, true);
    let chunk = WaveFormatChunk::parse(&mut src, *b"fmt ", 40).unwrap();
    match chunk.format_data {
        WaveFormatData::Extensible(ext) => {
            assert_eq!(ext.codec, CodecType::PcmS24Le);
            assert_eq!(ext.bits_per_sample, 20);
        },
        _ => panic!("expected an extensible descriptor"),
    }
}

#[test]
fn extensible_unknown_guid_is_unsupported() {
    let payload = ext_payload(2, 16, 16, 0x3, 0x55);
    let mut src = BufSource::new(payload, true);
    let r = WaveFormatChunk::parse(&mut src, *b"fmt ", 40);
    assert!(matches!(r, Err(Error::Unsupported(_))));
}

#[test]
fn extensible_bad_extra_size_is_malformed() {
    let mut payload = fmt_payload(0xfffe, 2, 16);
    payload.extend_from_slice(&21u16.to_le_bytes());
    payload.extend_from_slice(&[0u8; 22]);
    let mut src = BufSource::new(payload, true);
    let r = WaveFormatChunk::parse(&mut src, *b"fmt ", 40);
    assert!(matches!(r, Err(Error::Malformed(_))));
}

#[test]
fn ieee_float_64_mono() {
    let payload = fmt_payload(0x0003, 1, 64);
    let mut src = BufSource::new(payload, true);
    let chunk = WaveFormatChunk::parse(&mut src, *b"fmt ", 16).unwrap();
    match chunk.format_data {
        WaveFormatData::IeeeFloat(ieee) => {
            assert_eq!(ieee.codec, CodecType::PcmF64Le);
            assert_eq!(ieee.channels.bits, FRONT_LEFT);
        },
        _ => panic!("expected a float descriptor"),
    }
}

#[test]
fn ieee_len_18_with_nonzero_extra_is_malformed() {
    let mut payload = fmt_payload(0x0003, 1, 32);
    payload.extend_from_slice(&2u16.to_le_bytes());
    let mut src = BufSource::new(payload, true);
    let r = WaveFormatChunk::parse(&mut src, *b"fmt ", 18);
    assert!(matches!(r, Err(Error::Malformed(_))));
}

#[test]
fn alaw_and_mulaw_resolve_their_codecs() {
    let mut payload = fmt_payload(0x0006, 1, 8);
    payload.extend_from_slice(&0u16.to_le_bytes());
    let mut src = BufSource::new(payload, true);
    let chunk = WaveFormatChunk::parse(&mut src, *b"fmt ", 18).unwrap();
    assert!(matches!(
        chunk.format_data,
        WaveFormatData::ALaw(a) if a.codec == CodecType::PcmALaw
    ));

    let mut payload = fmt_payload(0x0007, 2, 8);
    payload.extend_from_slice(&0u16.to_le_bytes());
    let mut src = BufSource::new(payload, true);
    let chunk = WaveFormatChunk::parse(&mut src, *b"fmt ", 18).unwrap();
    assert!(matches!(
        chunk.format_data,
        WaveFormatData::MuLaw(m) if m.codec == CodecType::PcmMuLaw
    ));
}

#[test]
fn unknown_format_tag_is_unsupported() {
    let payload = fmt_payload(0x0002, 2, 4);
    let mut src = BufSource::new(payload, true);
    let r = WaveFormatChunk::parse(&mut src, *b"fmt ", 16);
    assert!(matches!(r, Err(Error::Unsupported(_))));
}

#[test]
fn fact_chunk_reads_frame_count() {
    let mut src = BufSource::new(12345u32.to_le_bytes().to_vec(), true);
    let fact = FactChunk::parse(&mut src, *b"fact", 4).unwrap();
    assert_eq!(fact.n_frames, 12345);
    let mut src = BufSource::new(vec![0; 8], true);
    let r = FactChunk::parse(&mut src, *b"fact", 8);
    assert!(matches!(r, Err(Error::Malformed(_))));
}

#[test]
fn list_chunk_strips_form() {
    let mut src = BufSource::new(b"INFOxxxx".to_vec(), true);
    let list = ListChunk::parse(&mut src, *b"LIST", 12).unwrap();
    assert_eq!(&list.form, b"INFO");
    assert_eq!(list.len, 8);
}

#[test]
fn channel_mask_maps_defined_bits_only() {
    let ch = map_wave_channels(0xfffc_0001);
    assert_eq!(ch.bits, 0x1);
    let ch = map_wave_channels(0xfff3_0001);
    assert_eq!(ch.bits, 0x0003_0001);
    assert_eq!(map_wave_channels(0x3ffff).bits, 0x3ffff);
    assert_eq!(map_wave_channels(0).bits, 0);
    assert_eq!(Channels { bits: 0x3ffff }.count(), 18);
    assert_eq!(Channels::empty().count(), 0);
    assert!(Channels { bits: 0x3 }.contains(Channels { bits: FRONT_LEFT }));
}
