use chunk_demux::chunks::{ChunksReader, ParseChunk};
use chunk_demux::errors::Error;
use chunk_demux::source::BufSource;
use chunk_demux::wave::{FactChunk, InfoChunk, ListChunk, RiffInfoListChunks, RiffWaveChunks};

fn chunk(tag: &[u8; 4], payload: &[u8]) -> Vec<u8> {
    let mut v = Vec::new();
    v.extend_from_slice(tag);
    v.extend_from_slice(&(payload.len() as u32).to_le_bytes());
    v.extend_from_slice(payload);
    v
}

#[test]
fn unknown_chunks_are_skipped() {
    // An unrecognized chunk is skipped and the walk continues to the
    // recognized one behind it.
    let mut region = chunk(b"junk", &[1, 2, 3, 4]);
    region.extend_from_slice(&chunk(b"fact", &7u32.to_le_bytes()));
    let len = region.len() as u32;
    let mut src = BufSource::new(region, true);
    let mut chunks: ChunksReader<RiffWaveChunks> = ChunksReader::new(len);
    match chunks.next(&mut src).unwrap() {
        Some(RiffWaveChunks::Fact(parser)) => {
            let fact = parser.parse(&mut src).unwrap();
            assert_eq!(fact.n_frames, 7);
        },
        _ => panic!("expected the frame-count chunk"),
    }
}

#[test]
fn odd_chunk_is_padded_even_chunk_is_not() {
    // After a 3-byte chunk the header of the next chunk begins one pad
    // byte later; after a 4-byte chunk it begins immediately.
    let mut region = chunk(b"junk", &[9, 9, 9]);
    region.push(0xaa); // the pad byte
    region.extend_from_slice(&chunk(b"fact", &1u32.to_le_bytes()));
    let len = region.len() as u32;
    let mut src = BufSource::new(region, true);
    let mut chunks: ChunksReader<RiffWaveChunks> = ChunksReader::new(len);
    let c = chunks.next(&mut src).unwrap();
    assert!(matches!(c, Some(RiffWaveChunks::Fact(_))));
    // 8 (junk header) + 3 (payload) + 1 (pad) + 8 (fact header)
    assert_eq!(src.pos(), 20);

    let mut region = chunk(b"junk", &[9, 9, 9, 9]);
    region.extend_from_slice(&chunk(b"fact", &1u32.to_le_bytes()));
    let len = region.len() as u32;
    let mut src = BufSource::new(region, true);
    let mut chunks: ChunksReader<RiffWaveChunks> = ChunksReader::new(len);
    let c = chunks.next(&mut src).unwrap();
    assert!(matches!(c, Some(RiffWaveChunks::Fact(_))));
    assert_eq!(src.pos(), 20);
}

#[test]
fn child_longer_than_region_is_malformed() {
    // The declared child length exceeds what remains of the region.
    let mut header = Vec::new();
    header.extend_from_slice(b"fact");
    header.extend_from_slice(&100u32.to_le_bytes());
    let mut src = BufSource::new(header, true);
    let mut chunks: ChunksReader<RiffWaveChunks> = ChunksReader::new(24);
    let r = chunks.next(&mut src);
    assert!(matches!(r, Err(Error::Malformed(_))));
}

#[test]
fn all_ones_sentinel_is_accepted() {
    // A region and a chunk both declaring the all-ones length stand for
    // "unknown, extends to the end of the source".
    let mut header = Vec::new();
    header.extend_from_slice(b"data");
    header.extend_from_slice(&u32::MAX.to_le_bytes());
    let mut src = BufSource::new(header, true);
    let mut chunks: ChunksReader<RiffWaveChunks> = ChunksReader::new(u32::MAX);
    match chunks.next(&mut src).unwrap() {
        Some(RiffWaveChunks::Data(parser)) => {
            let data = parser.parse(&mut src).unwrap();
            assert_eq!(data.len, u32::MAX);
        },
        _ => panic!("expected the sample-data chunk"),
    }
}

#[test]
fn all_ones_child_in_bounded_region_is_malformed() {
    // The sentinel applies only when the region itself declares the
    // all-ones length.
    let mut header = Vec::new();
    header.extend_from_slice(b"data");
    header.extend_from_slice(&u32::MAX.to_le_bytes());
    let mut src = BufSource::new(header, true);
    let mut chunks: ChunksReader<RiffWaveChunks> = ChunksReader::new(1000);
    let r = chunks.next(&mut src);
    assert!(matches!(r, Err(Error::Malformed(_))));
}

#[test]
fn region_without_room_for_a_header_ends_cleanly() {
    let mut src = BufSource::new(vec![0; 16], true);
    let mut chunks: ChunksReader<RiffWaveChunks> = ChunksReader::new(7);
    let r = chunks.next(&mut src).unwrap();
    assert!(r.is_none());
    assert_eq!(src.pos(), 0);
}

#[test]
fn header_past_end_of_source_is_a_short_read() {
    let mut src = BufSource::new(vec![0; 5], true);
    let mut chunks: ChunksReader<RiffWaveChunks> = ChunksReader::new(100);
    let r = chunks.next(&mut src);
    assert!(matches!(r, Err(Error::ShortRead)));
}

#[test]
fn finish_skips_remainder_and_pad_byte() {
    // An odd total region length is padded to the next 2-byte boundary.
    let mut src = BufSource::new(vec![0; 12], true);
    let mut chunks: ChunksReader<RiffWaveChunks> = ChunksReader::new(11);
    chunks.finish(&mut src).unwrap();
    assert_eq!(src.pos(), 12);

    let mut src = BufSource::new(vec![0; 12], true);
    let mut chunks: ChunksReader<RiffWaveChunks> = ChunksReader::new(10);
    chunks.finish(&mut src).unwrap();
    assert_eq!(src.pos(), 10);
}

#[test]
fn info_text_chunks_come_from_an_info_list() {
    let mut region = chunk(b"INAM", b"name");
    region.extend_from_slice(&chunk(b"ICMT", b"note"));
    let len = region.len() as u32;
    let mut src = BufSource::new(region, true);
    let mut chunks: ChunksReader<RiffInfoListChunks> = ChunksReader::new(len);
    let RiffInfoListChunks::Info(parser) = chunks.next(&mut src).unwrap().unwrap();
    let info = parser.parse(&mut src).unwrap();
    assert_eq!(&info.tag, b"INAM");
    assert_eq!(info.value, b"name".to_vec());
    let RiffInfoListChunks::Info(parser) = chunks.next(&mut src).unwrap().unwrap();
    let info: InfoChunk = parser.parse(&mut src).unwrap();
    assert_eq!(&info.tag, b"ICMT");
    assert_eq!(info.value, b"note".to_vec());
    assert!(chunks.next(&mut src).unwrap().is_none());
}

#[test]
fn list_skip_consumes_contents_and_pad() {
    let mut src = BufSource::new(vec![0; 10], true);
    let list = ListChunk { form: *b"INFO", len: 5 };
    list.skip(&mut src).unwrap();
    assert_eq!(src.pos(), 6);
}
