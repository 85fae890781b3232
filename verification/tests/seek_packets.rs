use chunk_demux::demux::{AiffReader, SeekMode, SeekTo, AIFF_MAX_FRAMES_PER_PACKET};
use chunk_demux::errors::{Error, SeekErrorKind};
use chunk_demux::source::BufSource;

const RATE_44100: [u8; 10] = [0x40, 0x0e, 0xac, 0x44, 0, 0, 0, 0, 0, 0];

fn be_chunk(tag: &[u8; 4], payload: &[u8]) -> Vec<u8> {
    let mut v = Vec::new();
    v.extend_from_slice(tag);
    v.extend_from_slice(&(payload.len() as u32).to_be_bytes());
    v.extend_from_slice(payload);
    v
}

fn mono_8_bit(n_frames: u32, samples: &[u8]) -> Vec<u8> {
    let mut comm = Vec::new();
    comm.extend_from_slice(&1i16.to_be_bytes());
    comm.extend_from_slice(&n_frames.to_be_bytes());
    comm.extend_from_slice(&8i16.to_be_bytes());
    comm.extend_from_slice(&RATE_44100);
    let mut ssnd = Vec::new();
    ssnd.extend_from_slice(&0u32.to_be_bytes());
    ssnd.extend_from_slice(&0u32.to_be_bytes());
    ssnd.extend_from_slice(samples);
    let chunks = [be_chunk(b"COMM", &comm), be_chunk(b"SSND", &ssnd)];
    let body_len: usize = 4 + chunks.iter().map(|c| c.len()).sum::<usize>();
    let mut v = Vec::new();
    v.extend_from_slice(b"FORM");
    v.extend_from_slice(&(body_len as u32).to_be_bytes());
    v.extend_from_slice(b"AIFF");
    for c in &chunks {
        v.extend_from_slice(c);
    }
    v
}

fn open(n_frames: u32, samples: &[u8], seekable: bool) -> AiffReader {
    AiffReader::try_new(BufSource::new(mono_8_bit(n_frames, samples), seekable)).unwrap()
}

#[test]
fn packets_never_exceed_the_cap() {
    let k: usize = 2500;
    let samples: Vec<u8> = vec![0x11; k];
    let mut rdr = open(k as u32, &samples, true);
    let mut durs = Vec::new();
    loop {
        match rdr.next_packet() {
            Ok(p) => {
                assert!(p.dur <= AIFF_MAX_FRAMES_PER_PACKET);
                durs.push(p.dur);
            },
            Err(Error::EndOfStream) => break,
            Err(e) => panic!("unexpected error: {:?}", e),
        }
    }
    assert_eq!(durs, vec![1029, 1029, 442]);
}

#[test]
fn seek_to_frame_and_read_it_back() {
    let k: usize = 100;
    let samples: Vec<u8> = (0..k).map(|i| i as u8).collect();
    let mut rdr = open(k as u32, &samples, true);
    let seeked = rdr.seek(SeekMode::Accurate, SeekTo::TimeStamp { ts: 40 }).unwrap();
    assert_eq!(seeked.track_id, 0);
    assert_eq!(seeked.required_ts, 40);
    assert_eq!(seeked.actual_ts, 40);
    let p = rdr.next_packet().unwrap();
    assert_eq!(p.ts, 40);
    assert_eq!(p.dur, 60);
    assert_eq!(p.data[0], 40);
}

#[test]
fn seek_backward_on_a_seekable_source_works() {
    let k: usize = 50;
    let samples: Vec<u8> = (0..k).map(|i| i as u8).collect();
    let mut rdr = open(k as u32, &samples, true);
    let p = rdr.next_packet().unwrap();
    assert_eq!(p.dur, 50);
    rdr.seek(SeekMode::Accurate, SeekTo::TimeStamp { ts: 10 }).unwrap();
    let p = rdr.next_packet().unwrap();
    assert_eq!(p.ts, 10);
    assert_eq!(p.data[0], 10);
}

#[test]
fn seek_past_the_frame_count_is_out_of_range() {
    let mut rdr = open(50, &[0; 50], true);
    let r = rdr.seek(SeekMode::Accurate, SeekTo::TimeStamp { ts: 51 });
    assert!(matches!(r, Err(Error::Seek(SeekErrorKind::OutOfRange))));
    // The frame count itself is still in range.
    assert!(rdr.seek(SeekMode::Accurate, SeekTo::TimeStamp { ts: 50 }).is_ok());
}

#[test]
fn seek_backward_on_a_forward_only_source_is_refused() {
    let k: usize = 60;
    let samples: Vec<u8> = (0..k).map(|i| i as u8).collect();
    let mut rdr = open(k as u32, &samples, false);
    let _ = rdr.next_packet().unwrap();
    let r = rdr.seek(SeekMode::Accurate, SeekTo::TimeStamp { ts: 0 });
    assert!(matches!(r, Err(Error::Seek(SeekErrorKind::ForwardOnly))));
}

#[test]
fn seek_forward_on_a_forward_only_source_discards_bytes() {
    let k: usize = 60;
    let samples: Vec<u8> = (0..k).map(|i| i as u8).collect();
    let mut rdr = open(k as u32, &samples, false);
    let seeked = rdr.seek(SeekMode::Accurate, SeekTo::TimeStamp { ts: 25 }).unwrap();
    assert_eq!(seeked.actual_ts, 25);
    // The cursor stands at the exact target byte offset.
    let p = rdr.next_packet().unwrap();
    assert_eq!(p.ts, 25);
    assert_eq!(p.data[0], 25);
    assert_eq!(p.dur, 35);
}

#[test]
fn seek_by_whole_seconds_uses_the_sample_rate() {
    // One second at 44100 Hz lands on frame 44100.
    let k: usize = 44150;
    let samples: Vec<u8> = vec![3; k];
    let mut rdr = open(k as u32, &samples, true);
    let seeked = rdr.seek(SeekMode::Accurate, SeekTo::Time { seconds: 1 }).unwrap();
    assert_eq!(seeked.actual_ts, 44100);
    let p = rdr.next_packet().unwrap();
    assert_eq!(p.ts, 44100);
    assert_eq!(p.dur, 50);
}

#[test]
fn absurd_time_target_is_out_of_range() {
    let mut rdr = open(50, &[0; 50], true);
    let r = rdr.seek(SeekMode::Accurate, SeekTo::Time { seconds: u64::MAX });
    assert!(matches!(r, Err(Error::Seek(SeekErrorKind::OutOfRange))));
}

#[test]
fn truncated_sound_data_fails_at_the_read() {
    // The common chunk declares more frames than the source holds: the
    // open succeeds, the packet read hits the end of the source.
    let mut bytes = mono_8_bit(100, &[0; 100]);
    bytes.truncate(bytes.len() - 40);
    let mut rdr = AiffReader::try_new(BufSource::new(bytes, true)).unwrap();
    let r = rdr.next_packet();
    assert!(matches!(r, Err(Error::ShortRead)));
}
