use chunk_demux::aiff::{CommentsChunk, CommonChunk, ID3v2Chunk, SoundDataChunk, TextChunk,
    TextChunkType};
use chunk_demux::chunks::ParseChunk;
use chunk_demux::codec::CodecType;
use chunk_demux::errors::Error;
use chunk_demux::source::BufSource;
use chunk_demux::aiff::AiffFormatData;

const RATE_44100: [u8; 10] = [0x40, 0x0e, 0xac, 0x44, 0, 0, 0, 0, 0, 0];

fn comm_payload(n_channels: i16, n_frames: u32, sample_size: i16, rate: [u8; 10]) -> Vec<u8> {
    let mut v = Vec::new();
    v.extend_from_slice(&n_channels.to_be_bytes());
    v.extend_from_slice(&n_frames.to_be_bytes());
    v.extend_from_slice(&sample_size.to_be_bytes());
    v.extend_from_slice(&rate);
    v
}

#[test]
fn common_chunk_decodes_the_fixed_layout() {
    let payload = comm_payload(2, 7, 16, RATE_44100);
    let mut src = BufSource::new(payload, true);
    let comm = CommonChunk::parse(&mut src, *b"COMM", 18).unwrap();
    assert_eq!(comm.num_channels, 2);
    assert_eq!(comm.num_sample_frames, 7);
    assert_eq!(comm.sample_size, 16);
    assert_eq!(comm.sample_rate, 44100);
    let AiffFormatData::Pcm(pcm) = comm.format_data;
    assert_eq!(pcm.codec, CodecType::PcmS16Be);
    assert_eq!(pcm.bits_per_sample, 16);
}

#[test]
fn common_chunk_big_endian_codecs_by_width() {
    for (bits, codec) in [
        (8i16, CodecType::PcmU8),
        (16, CodecType::PcmS16Be),
        (24, CodecType::PcmS24Be),
        (32, CodecType::PcmS32Be),
    ] {
        let mut src = BufSource::new(comm_payload(1, 0, bits, RATE_44100), true);
        let comm = CommonChunk::parse(&mut src, *b"COMM", 18).unwrap();
        let AiffFormatData::Pcm(pcm) = comm.format_data;
        assert_eq!(pcm.codec, codec);
    }
}

#[test]
fn common_chunk_short_payload_is_a_short_read() {
    let mut src = BufSource::new(vec![0; 10], true);
    let r = CommonChunk::parse(&mut src, *b"COMM", 18);
    assert!(matches!(r, Err(Error::ShortRead)));
}

#[test]
fn common_chunk_wrong_tag_is_malformed() {
    let mut src = BufSource::new(comm_payload(1, 0, 8, RATE_44100), true);
    let r = CommonChunk::parse(&mut src, *b"SSND", 18);
    assert!(matches!(r, Err(Error::Malformed(_))));
}

#[test]
fn sound_chunk_records_the_data_range() {
    let mut payload = Vec::new();
    payload.extend_from_slice(&0u32.to_be_bytes());
    payload.extend_from_slice(&0u32.to_be_bytes());
    payload.extend_from_slice(&[5; 20]);
    let mut src = BufSource::new(payload, true);
    let sound = SoundDataChunk::parse(&mut src, *b"SSND", 28).unwrap();
    assert_eq!(sound.sound_size, 20);
    assert_eq!(sound.data_range.start_pos, 8);
    assert_eq!(sound.data_range.end_pos, 28);
    // The cursor is left at the first sample byte.
    assert_eq!(src.pos(), 8);
}

#[test]
fn sound_chunk_without_its_preamble_is_malformed() {
    let mut src = BufSource::new(vec![0; 8], true);
    let r = SoundDataChunk::parse(&mut src, *b"SSND", 4);
    assert!(matches!(r, Err(Error::Malformed(_))));
}

#[test]
fn sound_chunk_sentinel_extends_to_the_end() {
    let mut payload = vec![0u8; 8];
    payload.extend_from_slice(&[1; 100]);
    let mut src = BufSource::new(payload, true);
    let sound = SoundDataChunk::parse(&mut src, *b"SSND", u32::MAX).unwrap();
    assert_eq!(sound.data_range.start_pos, 8);
    assert_eq!(sound.data_range.end_pos, 108);
}

#[test]
fn text_chunk_kinds_follow_their_tags() {
    for (tag, kind) in [
        (b"NAME", TextChunkType::Name),
        (b"AUTH", TextChunkType::Author),
        (b"(c) ", TextChunkType::Copyright),
        (b"ANNO", TextChunkType::Annotation),
    ] {
        let mut src = BufSource::new(b"hello".to_vec(), true);
        let text = TextChunk::parse(&mut src, *tag, 5).unwrap();
        assert_eq!(text.chunk_type, kind);
        assert_eq!(text.chunk_size, 5);
        assert_eq!(text.text, b"hello".to_vec());
        assert!(text.seek_size.is_none());
    }
    let mut src = BufSource::new(b"hello".to_vec(), true);
    let r = TextChunk::parse(&mut src, *b"COMM", 5);
    assert!(matches!(r, Err(Error::Malformed(_))));
}

#[test]
fn id3_chunk_is_skipped() {
    let mut src = BufSource::new(vec![0; 40], true);
    let id3 = ID3v2Chunk::parse(&mut src, *b"ID3 ", 30).unwrap();
    assert_eq!(id3.chunk_size, 30);
    assert_eq!(src.pos(), 30);
    // A declared length past the end of the source is clamped.
    let id3 = ID3v2Chunk::parse(&mut src, *b"ID3 ", 100).unwrap();
    assert_eq!(id3.chunk_size, 100);
    assert_eq!(src.pos(), 40);
}

#[test]
fn comments_chunk_reads_each_record() {
    let mut payload = Vec::new();
    payload.extend_from_slice(&2u16.to_be_bytes());
    // First comment: timestamp 9, marker 1, text "ab".
    payload.extend_from_slice(&9u32.to_be_bytes());
    payload.extend_from_slice(&1i16.to_be_bytes());
    payload.extend_from_slice(&2u16.to_be_bytes());
    payload.extend_from_slice(b"ab");
    // Second comment: timestamp 11, marker -1, empty text.
    payload.extend_from_slice(&11u32.to_be_bytes());
    payload.extend_from_slice(&(-1i16).to_be_bytes());
    payload.extend_from_slice(&0u16.to_be_bytes());
    let len = payload.len() as u32;
    let mut src = BufSource::new(payload, true);
    let cc = CommentsChunk::parse(&mut src, *b"COMT", len).unwrap();
    assert_eq!(cc.num_comments, 2);
    assert_eq!(cc.comments.len(), 2);
    assert_eq!(cc.comments[0].timestamp, 9);
    assert_eq!(cc.comments[0].marker_id, 1);
    assert_eq!(cc.comments[0].count, 2);
    assert_eq!(cc.comments[0].text, b"ab".to_vec());
    assert_eq!(cc.comments[1].timestamp, 11);
    assert_eq!(cc.comments[1].marker_id, -1);
    assert_eq!(cc.comments[1].text, Vec::<u8>::new());
}

#[test]
fn comments_chunk_truncated_record_is_a_short_read() {
    let mut payload = Vec::new();
    payload.extend_from_slice(&1u16.to_be_bytes());
    payload.extend_from_slice(&9u32.to_be_bytes());
    let len = payload.len() as u32;
    let mut src = BufSource::new(payload, true);
    let r = CommentsChunk::parse(&mut src, *b"COMT", len);
    assert!(matches!(r, Err(Error::ShortRead)));
}
