use vstd::prelude::*;
use crate::aiff::{comment_pos, comments_fit, is_aifc_form, is_aiff_form, is_comm_tag,
    is_comt_tag, is_form_tag, is_id3_tag, is_name_tag, is_ssnd_tag, AiffChunks, AiffFormatData,
    CommonChunk, SoundDataChunk};
use crate::chunks::{lemma_scan_bounds, scan, tag_eq, ChunksReader, ScanOutcome};
use crate::codec::{CodecType, Channels};
use crate::errors::{Error, SeekErrorKind};
use crate::extended::extended_rate;
use crate::source::{be16, be32, BufSource};
use crate::util::read_i32_be;

verus! {

/// The fixed cap on how many frames one packet may span.
pub const AIFF_MAX_FRAMES_PER_PACKET: u64 = 1029;

/// A rational time base: `numer / denom` seconds per frame.
#[derive(Clone, Copy, Debug, PartialEq, Eq, Structural)]
pub struct TimeBase {
    pub numer: u32,
    pub denom: u32,
}

/// The codec parameters a track accumulates while the container is
/// scanned.
#[derive(Clone, Copy, Debug, PartialEq, Eq, Structural)]
pub struct TrackParameters {
    /// The resolved codec.
    pub codec: Option<CodecType>,
    /// The sample rate, in Hz.
    pub sample_rate: Option<u32>,
    /// Seconds per frame, as a rational.
    pub time_base: Option<TimeBase>,
    /// The declared total number of frames.
    pub n_frames: Option<u64>,
    /// The number of bits each sample is coded in.
    pub bits_per_coded_sample: Option<u32>,
    /// The channel set.
    pub channels: Option<Channels>,
    /// The cap on frames per packet.
    pub max_frames_per_packet: Option<u64>,
}

/// The parameter set before any chunk has been seen.
pub open spec fn empty_track_params() -> TrackParameters {
    TrackParameters {
        codec: None,
        sample_rate: None,
        time_base: None,
        n_frames: None,
        bits_per_coded_sample: None,
        channels: None,
        max_frames_per_packet: None,
    }
}

impl TrackParameters {
    pub fn new() -> (r: TrackParameters)
        ensures
            r == empty_track_params(),
    {
        TrackParameters {
            codec: None,
            sample_rate: None,
            time_base: None,
            n_frames: None,
            bits_per_coded_sample: None,
            channels: None,
            max_frames_per_packet: None,
        }
    }
}

/// The parameter set after a common chunk has been applied on top of
/// `prior`: every field is taken from the chunk, except that a zero
/// declared frame count leaves the prior frame count standing.
pub open spec fn track_params_of(common: CommonChunk, prior: TrackParameters) -> TrackParameters {
    match common.format_data {
        AiffFormatData::Pcm(pcm) => TrackParameters {
            codec: Some(pcm.codec),
            sample_rate: Some(common.sample_rate),
            time_base: Some(TimeBase { numer: 1, denom: common.sample_rate }),
            n_frames: if common.num_sample_frames > 0 {
                Some(common.num_sample_frames as u64)
            } else {
                prior.n_frames
            },
            bits_per_coded_sample: Some(pcm.bits_per_sample),
            channels: Some(pcm.channels),
            max_frames_per_packet: Some(AIFF_MAX_FRAMES_PER_PACKET),
        },
    }
}

/// Applies a common chunk to the accumulated codec parameters.
pub fn append_common_params(codec_params: &mut TrackParameters, common: &CommonChunk)
    ensures
        *final(codec_params) == track_params_of(*common, *old(codec_params)),
{
    codec_params.sample_rate = Some(common.sample_rate);
    codec_params.time_base = Some(TimeBase { numer: 1, denom: common.sample_rate });
    codec_params.max_frames_per_packet = Some(AIFF_MAX_FRAMES_PER_PACKET);
    match &common.format_data {
        AiffFormatData::Pcm(pcm) => {
            codec_params.codec = Some(pcm.codec);
            codec_params.bits_per_coded_sample = Some(pcm.bits_per_sample);
            codec_params.channels = Some(pcm.channels);
        },
    }
    if common.num_sample_frames > 0 {
        codec_params.n_frames = Some(common.num_sample_frames as u64);
    }
}

/// The byte size of one frame the common chunk describes: one sample of
/// `sample_size` bits, a whole number of bytes, for each channel.
pub open spec fn frame_len_of(common: CommonChunk) -> int {
    common.num_channels * (common.sample_size / 8)
}

/// The parameters the track is frozen with once the sound-data chunk is
/// found: a total frame count the scan never saw explicitly is derived
/// from the data byte length and the frame alignment; an explicit count
/// wins.
pub open spec fn final_params_of(
    params: TrackParameters,
    common: CommonChunk,
    sound: SoundDataChunk,
) -> TrackParameters {
    if params.n_frames is Some {
        params
    } else {
        TrackParameters {
            n_frames: Some(
                (((sound.data_range.end_pos - sound.data_range.start_pos) as int) / frame_len_of(
                    common,
                )) as u64,
            ),
            ..params
        }
    }
}

/// Whether a common chunk carries an allowed sample width and channel
/// count; `CommonChunk::parse` only succeeds with such a chunk.
pub open spec fn common_wf(c: CommonChunk) -> bool {
    (c.sample_size == 8 || c.sample_size == 16 || c.sample_size == 24 || c.sample_size == 32) && (
    c.num_channels == 1 || c.num_channels == 2 || c.num_channels == 3 || c.num_channels == 4
        || c.num_channels == 6)
}

/// What parsing one chunk payload comes to: a value and the cursor after
/// it, a decode error, or a short read.
pub enum ChunkOutcome<T> {
    Done { v: T, pos: int },
    Malformed { pos: int },
    Short,
}

/// What `CommonChunk::parse` yields at `pos` (the tag already checked).
pub open spec fn common_outcome(d: Seq<u8>, pos: int, len: u32) -> ChunkOutcome<CommonChunk> {
    if pos + 18 > d.len() {
        ChunkOutcome::Short
    } else {
        let nch: i16 = be16(d, pos) as u16 as i16;
        let frames: u32 = be32(d, pos + 2) as u32;
        let ssize: i16 = be16(d, pos + 6) as u16 as i16;
        match extended_rate(d.subrange(pos + 8, pos + 18)) {
            None => ChunkOutcome::Malformed { pos: pos + 18 },
            Some(rate) => match (crate::aiff::aiff_pcm_codec(ssize), crate::aiff::aiff_channel_bits(
                nch,
            )) {
                (Some(codec), Some(chan_bits)) => ChunkOutcome::Done {
                    v: CommonChunk {
                        chunk_size: len,
                        num_channels: nch,
                        num_sample_frames: frames,
                        sample_size: ssize,
                        sample_rate: rate,
                        format_data: AiffFormatData::Pcm(
                            crate::aiff::AiffFormatPcm {
                                channels: Channels { bits: chan_bits },
                                bits_per_sample: ssize as u32,
                                codec,
                            },
                        ),
                    },
                    pos: pos + 18,
                },
                _ => ChunkOutcome::Malformed { pos: pos + 18 },
            },
        }
    }
}

/// What `SoundDataChunk::parse` yields at `pos` (the tag already
/// checked).
pub open spec fn sound_outcome(d: Seq<u8>, pos: int, len: u32) -> ChunkOutcome<SoundDataChunk> {
    if len < 8 {
        ChunkOutcome::Malformed { pos }
    } else if pos + 8 > d.len() {
        ChunkOutcome::Short
    } else {
        let start: int = pos + 8;
        let end: int = if len == u32::MAX {
            d.len() as int
        } else if start + (len - 8) > u64::MAX {
            u64::MAX as int
        } else {
            start + (len - 8)
        };
        ChunkOutcome::Done {
            v: SoundDataChunk {
                chunk_size: len,
                offset: be32(d, pos) as u32,
                block_size: be32(d, pos + 4) as u32,
                sound_size: (len - 8) as u32,
                data_range: crate::aiff::ByteRange { start_pos: start as u64, end_pos: end as u64 },
            },
            pos: start,
        }
    }
}

/// What `TextChunk::parse` yields at `pos` for a name chunk: the cursor
/// moves past the payload.
pub open spec fn text_outcome(d: Seq<u8>, pos: int, len: u32) -> ChunkOutcome<()> {
    if pos + len > d.len() {
        ChunkOutcome::Short
    } else {
        ChunkOutcome::Done { v: (), pos: pos + len }
    }
}

/// What `CommentsChunk::parse` yields at `pos` (the tag already
/// checked).
pub open spec fn comments_outcome(d: Seq<u8>, pos: int, len: u32) -> ChunkOutcome<()> {
    if pos + 2 > d.len() {
        ChunkOutcome::Short
    } else {
        let n: int = be16(d, pos);
        if !comments_fit(d, pos + 2, n) {
            ChunkOutcome::Short
        } else {
            ChunkOutcome::Done { v: (), pos: comment_pos(d, pos + 2, n) }
        }
    }
}

/// What `ID3v2Chunk::parse` yields at `pos`: the payload is skipped, to
/// the end of the source at most.
pub open spec fn id3_outcome(d: Seq<u8>, pos: int, len: u32) -> ChunkOutcome<()> {
    ChunkOutcome::Done {
        v: (),
        pos: if pos + len <= d.len() {
            pos + len
        } else {
            d.len() as int
        },
    }
}

/// What opening a container comes to.
pub enum OpenOutcome {
    /// A common chunk and then a sound-data chunk were found: the track
    /// parameters, and the span of the sample data.
    Opened { common: CommonChunk, params: TrackParameters, sound: SoundDataChunk },
    /// The leading bytes are not a form container at all.
    NotForm,
    /// The container is the compressed sibling form, which this
    /// implementation does not decode.
    FormAifc,
    /// The form type is neither the plain nor the compressed form.
    FormUnknown,
    /// The declared container length ran out with no sound chunk found.
    NoSound,
    /// A sound chunk came before any common chunk.
    NoCommon,
    /// A declared chunk length exceeds what remains of the container.
    LengthError,
    /// A chunk payload is structurally invalid.
    PayloadMalformed,
    /// The source ended inside a required field.
    Short,
}

/// The chunk-scanning state machine of the container driver: chunks are
/// pulled in stream order; a common chunk updates the accumulated track
/// parameters; text, comment and id3 chunks are read and set aside; the
/// first sound-data chunk ends the scan, requiring a common chunk to have
/// come before it.
pub open spec fn open_scan(
    d: Seq<u8>,
    pos: int,
    len: u32,
    consumed: u32,
    common: Option<CommonChunk>,
    params: TrackParameters,
) -> OpenOutcome
    decreases len - consumed,
    when consumed <= len
    via open_scan_decreases
{
    match scan::<AiffChunks>(d, pos, len, consumed) {
        ScanOutcome::NoMore { .. } => OpenOutcome::NoSound,
        ScanOutcome::TooLong { .. } => OpenOutcome::LengthError,
        ScanOutcome::ShortRead => OpenOutcome::Short,
        ScanOutcome::Found { tag, len: clen, consumed: c2, pos: p2 } => {
            if is_comm_tag(tag) {
                match common_outcome(d, p2, clen) {
                    ChunkOutcome::Done { v, pos: p3 } => open_scan(
                        d,
                        p3,
                        len,
                        c2,
                        Some(v),
                        track_params_of(v, params),
                    ),
                    ChunkOutcome::Malformed { .. } => OpenOutcome::PayloadMalformed,
                    ChunkOutcome::Short => OpenOutcome::Short,
                }
            } else if is_ssnd_tag(tag) {
                match sound_outcome(d, p2, clen) {
                    ChunkOutcome::Done { v, pos: p3 } => match common {
                        Some(c) => OpenOutcome::Opened { common: c, params, sound: v },
                        None => OpenOutcome::NoCommon,
                    },
                    ChunkOutcome::Malformed { .. } => OpenOutcome::PayloadMalformed,
                    ChunkOutcome::Short => OpenOutcome::Short,
                }
            } else if is_comt_tag(tag) {
                match comments_outcome(d, p2, clen) {
                    ChunkOutcome::Done { v, pos: p3 } => open_scan(d, p3, len, c2, common, params),
                    ChunkOutcome::Malformed { .. } => OpenOutcome::PayloadMalformed,
                    ChunkOutcome::Short => OpenOutcome::Short,
                }
            } else if is_name_tag(tag) {
                match text_outcome(d, p2, clen) {
                    ChunkOutcome::Done { v, pos: p3 } => open_scan(d, p3, len, c2, common, params),
                    ChunkOutcome::Malformed { .. } => OpenOutcome::PayloadMalformed,
                    ChunkOutcome::Short => OpenOutcome::Short,
                }
            } else {
                match id3_outcome(d, p2, clen) {
                    ChunkOutcome::Done { v, pos: p3 } => open_scan(d, p3, len, c2, common, params),
                    ChunkOutcome::Malformed { .. } => OpenOutcome::PayloadMalformed,
                    ChunkOutcome::Short => OpenOutcome::Short,
                }
            }
        },
    }
}

#[via_fn]
proof fn open_scan_decreases(
    d: Seq<u8>,
    pos: int,
    len: u32,
    consumed: u32,
    common: Option<CommonChunk>,
    params: TrackParameters,
) {
    lemma_scan_bounds::<AiffChunks>(d, pos, len, consumed);
}

/// What opening the byte string `d` as an AIFF container, starting at
/// `p0`, comes to: the form marker, the declared container length and
/// the form type are checked, and the chunks are then scanned from
/// twelve bytes in, within a region of the declared length.
pub open spec fn aiff_open(d: Seq<u8>, p0: int) -> OpenOutcome {
    if p0 + 4 > d.len() {
        OpenOutcome::Short
    } else if !is_form_tag(d.subrange(p0, p0 + 4)) {
        OpenOutcome::NotForm
    } else if p0 + 12 > d.len() {
        OpenOutcome::Short
    } else {
        let form_len: u32 = be32(d, p0 + 4) as u32;
        let form_type: Seq<u8> = d.subrange(p0 + 8, p0 + 12);
        if is_aifc_form(form_type) {
            OpenOutcome::FormAifc
        } else if !is_aiff_form(form_type) {
            OpenOutcome::FormUnknown
        } else {
            open_scan(d, p0 + 12, form_len, 0, None, empty_track_params())
        }
    }
}

/// One track of a container: its identifier and codec parameters.
#[derive(Clone, Copy, Debug, PartialEq, Eq, Structural)]
pub struct Track {
    pub id: u32,
    pub codec_params: TrackParameters,
}

/// A position of interest in the sample data. This container core carries
/// none.
#[derive(Clone, Copy, Debug, PartialEq, Eq, Structural)]
pub struct Cue {
    pub index: u32,
    pub start_ts: u64,
}

/// One bounded unit of raw sample bytes, tagged with its presentation
/// timestamp and duration in frames.
#[derive(Clone, Debug, PartialEq, Eq)]
pub struct Packet {
    pub track_id: u32,
    pub ts: u64,
    pub dur: u64,
    pub data: Vec<u8>,
}

/// How a seek target position is chosen.
#[derive(Clone, Copy, Debug, PartialEq, Eq, Structural)]
pub enum SeekMode {
    Coarse,
    Accurate,
}

/// A seek target: an absolute frame timestamp, or a wall-clock time in
/// whole seconds, converted through the track's sample rate. Fractional
/// times are resolved to frame timestamps by the surrounding framework
/// before they reach the demuxer.
#[derive(Clone, Copy, Debug, PartialEq, Eq, Structural)]
pub enum SeekTo {
    TimeStamp { ts: u64 },
    Time { seconds: u64 },
}

/// The resolved outcome of a seek: the timestamp asked for and the
/// timestamp arrived at.
#[derive(Clone, Copy, Debug, PartialEq, Eq, Structural)]
pub struct SeekedTo {
    pub track_id: u32,
    pub required_ts: u64,
    pub actual_ts: u64,
}

/// The AIFF container demuxer: it owns the byte source, exposes the one
/// track the container describes, and hands out the raw sample data as
/// bounded packets.
pub struct AiffReader {
    reader: BufSource,
    tracks: Vec<Track>,
    cues: Vec<Cue>,
    frame_len: u32,
    data_start_pos: u64,
    data_end_pos: u64,
}

impl AiffReader {
    /// The byte source, as the demuxer holds it.
    pub closed spec fn source_spec(&self) -> BufSource {
        self.reader
    }

    /// The track listing.
    pub closed spec fn tracks_spec(&self) -> Seq<Track> {
        self.tracks@
    }

    /// The cue listing.
    pub closed spec fn cues_spec(&self) -> Seq<Cue> {
        self.cues@
    }

    /// The byte size of one frame.
    pub closed spec fn frame_len_spec(&self) -> u32 {
        self.frame_len
    }

    /// The absolute byte offset where the sample data starts.
    pub closed spec fn data_start_spec(&self) -> u64 {
        self.data_start_pos
    }

    /// The absolute byte offset where the sample data ends.
    pub closed spec fn data_end_spec(&self) -> u64 {
        self.data_end_pos
    }

    /// The demuxer's invariant: one track, a frame of one to twenty-four
    /// bytes (at most six channels of at most four bytes each), and a
    /// well-formed source whose cursor stands at or after the start of
    /// the sample data, which itself starts within the source.
    pub open spec fn wf(&self) -> bool {
        &&& self.source_spec().wf()
        &&& self.tracks_spec().len() == 1
        &&& 1 <= self.frame_len_spec() <= 24
        &&& self.data_start_spec() <= self.data_end_spec()
        &&& self.data_start_spec() <= self.source_spec().bytes().len()
        &&& self.source_spec().position() >= self.data_start_spec()
    }

    /// Whether the demuxer's state after opening matches the `Opened`
    /// outcome `common`, `params`, `sound` on the source `src`.
    pub open spec fn opened_from(
        &self,
        src: BufSource,
        common: CommonChunk,
        params: TrackParameters,
        sound: SoundDataChunk,
    ) -> bool {
        &&& self.tracks_spec().len() == 1
        &&& self.tracks_spec()[0].id == 0
        &&& self.tracks_spec()[0].codec_params == final_params_of(params, common, sound)
        &&& self.cues_spec().len() == 0
        &&& self.frame_len_spec() == frame_len_of(common)
        &&& self.data_start_spec() == sound.data_range.start_pos
        &&& self.data_end_spec() == sound.data_range.end_pos
        &&& self.source_spec().bytes() == src.bytes()
        &&& self.source_spec().seekable_spec() == src.seekable_spec()
        &&& self.source_spec().position() == sound.data_range.start_pos
    }

    /// Opens a container: validates the form header, scans chunks in
    /// stream order while accumulating codec parameters, and stops at the
    /// sound-data chunk, leaving the cursor at the first byte of sample
    /// data. Exactly `aiff_open` says which outcome the bytes lead to.
    #[verifier::rlimit(100)]
    pub fn try_new(source: BufSource) -> (r: Result<AiffReader, Error>)
        requires
            source.wf(),
        ensures
            ({
                match aiff_open(source.bytes(), source.position()) {
                    OpenOutcome::Opened { common, params, sound } => (r matches Ok(rdr)
                        && rdr.wf() && rdr.opened_from(source, common, params, sound)),
                    OpenOutcome::NotForm => (r matches Err(Error::Unsupported(_))),
                    OpenOutcome::FormAifc => (r matches Err(Error::Unsupported(_))),
                    OpenOutcome::FormUnknown => (r matches Err(Error::Malformed(_))),
                    OpenOutcome::NoSound => (r matches Err(Error::Malformed(_))),
                    OpenOutcome::NoCommon => (r matches Err(Error::Malformed(_))),
                    OpenOutcome::LengthError => (r matches Err(Error::Malformed(_))),
                    OpenOutcome::PayloadMalformed => (r matches Err(Error::Malformed(_))),
                    OpenOutcome::Short => r == Err::<AiffReader, Error>(Error::ShortRead),
                }
            }),
    {
        let mut src = source;
        let ghost d: Seq<u8> = src.bytes();
        let ghost p0: int = src.position();
        let marker = src.read_quad_bytes()?;
        if !tag_eq(&marker, 0x46, 0x4f, 0x52, 0x4d) {
            return Err(Error::Unsupported("aiff: missing form marker"));
        }
        if src.remaining() < 4 {
            return Err(Error::ShortRead);
        }
        let form_len_signed = read_i32_be(&mut src);
        let form_len = form_len_signed as u32;
        proof {
            let x: u32 = be32(d, p0 + 4) as u32;
            assert(x as i32 as u32 == x) by (bit_vector);
        }
        let form_type = src.read_quad_bytes()?;
        if tag_eq(&form_type, 0x41, 0x49, 0x46, 0x43) {
            return Err(Error::Unsupported("aiff: aiff-c is not supported"));
        }
        if !tag_eq(&form_type, 0x41, 0x49, 0x46, 0x46) {
            return Err(Error::Malformed("aiff: unsupported form type"));
        }
        let mut aiff_chunks: ChunksReader<AiffChunks> = ChunksReader::new(form_len);
        let mut codec_params = TrackParameters::new();
        let mut common_opt: Option<CommonChunk> = None;
        loop
            invariant
                d == source.bytes(),
                p0 == source.position(),
                source.seekable_spec() == src.seekable_spec(),
                src.wf(),
                aiff_chunks.wf(),
                src.bytes() == d,
                aiff_chunks.declared_len() == form_len,
                aiff_open(d, p0) == open_scan(
                    d,
                    src.position(),
                    form_len,
                    aiff_chunks.consumed_bytes(),
                    common_opt,
                    codec_params,
                ),
                common_opt matches Some(c) ==> crate::aiff::aiff_pcm_codec(c.sample_size)
                    is Some && crate::aiff::aiff_channel_bits(c.num_channels) is Some,
            decreases form_len - aiff_chunks.consumed_bytes(),
        {
            let ghost pos_top: int = src.position();
            let ghost consumed_top: u32 = aiff_chunks.consumed_bytes();
            proof {
                lemma_scan_bounds::<AiffChunks>(d, pos_top, form_len, consumed_top);
            }
            let chunk = aiff_chunks.next(&mut src)?;
            match chunk {
                None => {
                    return Err(Error::Malformed("aiff: missing sound chunk"));
                },
                Some(AiffChunks::Common(parser)) => {
                    let common = parser.parse(&mut src)?;
                    append_common_params(&mut codec_params, &common);
                    common_opt = Some(common);
                },
                Some(AiffChunks::Name(parser)) => {
                    let _name = parser.parse(&mut src)?;
                },
                Some(AiffChunks::Comment(parser)) => {
                    let _comments = parser.parse(&mut src)?;
                },
                Some(AiffChunks::ID3(parser)) => {
                    let _id3 = parser.parse(&mut src)?;
                },
                Some(AiffChunks::Sound(parser)) => {
                    let sound = parser.parse(&mut src)?;
                    let common = match common_opt {
                        Some(c) => c,
                        None => {
                            return Err(Error::Malformed("aiff: missing common chunk"));
                        },
                    };
                    proof {
                        assert(aiff_open(d, p0) == OpenOutcome::Opened {
                            common,
                            params: codec_params,
                            sound,
                        });
                        assert(src.position() == sound.data_range.start_pos);
                        assert(sound.data_range.start_pos <= sound.data_range.end_pos);
                        assert(sound.data_range.start_pos <= d.len());
                        assert(common.num_channels == 1 || common.num_channels == 2
                            || common.num_channels == 3 || common.num_channels == 4
                            || common.num_channels == 6);
                        assert(common.sample_size == 8 || common.sample_size == 16
                            || common.sample_size == 24 || common.sample_size == 32);
                    }
                    // One frame is one sample of a whole number of bytes
                    // for each channel.
                    let frame_len = (common.num_channels as u32) * ((common.sample_size as u32)
                        / 8);
                    // Without an explicit frame count, derive one from the
                    // data byte length and the frame alignment.
                    if codec_params.n_frames.is_none() {
                        let data_len = sound.data_range.end_pos - sound.data_range.start_pos;
                        codec_params.n_frames = Some(data_len / (frame_len as u64));
                    }
                    // The sound-data parser leaves the cursor at the first
                    // byte of sample data, where packet reading starts.
                    return Ok(
                        AiffReader {
                            reader: src,
                            tracks: vec![Track { id: 0, codec_params }],
                            cues: Vec::new(),
                            frame_len,
                            data_start_pos: sound.data_range.start_pos,
                            data_end_pos: sound.data_range.end_pos,
                        },
                    );
                },
            }
        }
    }

    /// The cue listing: empty for this container core.
    pub fn cues(&self) -> (r: &Vec<Cue>)
        ensures
            r@ == self.cues_spec(),
    {
        &self.cues
    }

    /// The track listing: the one track the container describes.
    pub fn tracks(&self) -> (r: &Vec<Track>)
        ensures
            r@ == self.tracks_spec(),
    {
        &self.tracks
    }

    /// Gives the byte source back, consuming the demuxer.
    pub fn into_inner(self) -> (r: BufSource)
        ensures
            r == self.source_spec(),
    {
        self.reader
    }
}


/// The frame index a seek target resolves to: a timestamp stands as it
/// is; a time in seconds is converted through the track's sample rate,
/// and cannot be resolved without one.
pub open spec fn seek_target_frames(params: TrackParameters, to: SeekTo) -> Option<int> {
    match to {
        SeekTo::TimeStamp { ts } => Some(ts as int),
        SeekTo::Time { seconds } => match params.sample_rate {
            Some(sr) => Some(seconds * sr),
            None => None,
        },
    }
}

impl AiffReader {
    /// Everything but the cursor stands still across a call.
    pub open spec fn same_shape(&self, other: &AiffReader) -> bool {
        &&& self.tracks_spec() == other.tracks_spec()
        &&& self.cues_spec() == other.cues_spec()
        &&& self.frame_len_spec() == other.frame_len_spec()
        &&& self.data_start_spec() == other.data_start_spec()
        &&& self.data_end_spec() == other.data_end_spec()
        &&& self.source_spec().bytes() == other.source_spec().bytes()
        &&& self.source_spec().seekable_spec() == other.source_spec().seekable_spec()
    }

    /// Seeks to a frame timestamp or a time. The target is resolved to a
    /// frame index, refused if it lies beyond the declared total frame
    /// count or past what a byte offset can address, and the cursor is
    /// then moved: directly on a seekable source, by discarding the
    /// intervening bytes on a forward-only one, where a backward target
    /// is a hard error.
    pub fn seek(&mut self, _mode: SeekMode, to: SeekTo) -> (r: Result<SeekedTo, Error>)
        requires
            old(self).wf(),
        ensures
            final(self).wf(),
            old(self).same_shape(final(self)),
            ({
                let params = old(self).tracks_spec()[0].codec_params;
                let fl = old(self).frame_len_spec() as int;
                let ds = old(self).data_start_spec() as int;
                let pos0 = old(self).source_spec().position();
                let n = old(self).source_spec().bytes().len() as int;
                match seek_target_frames(params, to) {
                    None => r == Err::<SeekedTo, Error>(Error::Seek(SeekErrorKind::Unseekable))
                        && final(self).source_spec().position() == pos0,
                    Some(ts) => {
                        if ts > u64::MAX {
                            r == Err::<SeekedTo, Error>(Error::Seek(SeekErrorKind::OutOfRange))
                                && final(self).source_spec().position() == pos0
                        } else if params.n_frames matches Some(nf) && ts > nf {
                            r == Err::<SeekedTo, Error>(Error::Seek(SeekErrorKind::OutOfRange))
                                && final(self).source_spec().position() == pos0
                        } else if ds + ts * fl > u64::MAX {
                            r == Err::<SeekedTo, Error>(Error::Seek(SeekErrorKind::OutOfRange))
                                && final(self).source_spec().position() == pos0
                        } else {
                            let sp = ds + ts * fl;
                            let seeked = SeekedTo {
                                track_id: 0,
                                required_ts: ts as u64,
                                actual_ts: ts as u64,
                            };
                            if old(self).source_spec().seekable_spec() {
                                r == Ok::<SeekedTo, Error>(seeked) && final(self).source_spec().position() == (if sp <= n {
                                    sp
                                } else {
                                    n
                                })
                            } else if sp >= pos0 {
                                if sp <= n {
                                    r == Ok::<SeekedTo, Error>(seeked) && final(self).source_spec().position() == sp
                                } else {
                                    r == Err::<SeekedTo, Error>(Error::ShortRead) && final(self).source_spec().position() == pos0
                                }
                            } else {
                                r == Err::<SeekedTo, Error>(
                                    Error::Seek(SeekErrorKind::ForwardOnly),
                                ) && final(self).source_spec().position() == pos0
                            }
                        }
                    },
                }
            }),
    {
        if self.tracks.is_empty() || self.frame_len == 0 {
            return Err(Error::Seek(SeekErrorKind::Unseekable));
        }
        let ts: u64 = match to {
            SeekTo::TimeStamp { ts } => ts,
            SeekTo::Time { seconds } => {
                match self.tracks[0].codec_params.sample_rate {
                    Some(sample_rate) => {
                        match seconds.checked_mul(sample_rate as u64) {
                            Some(t) => t,
                            None => {
                                return Err(Error::Seek(SeekErrorKind::OutOfRange));
                            },
                        }
                    },
                    None => {
                        return Err(Error::Seek(SeekErrorKind::Unseekable));
                    },
                }
            },
        };
        // The target must lie within the declared total frame count,
        // when the track carries one.
        match self.tracks[0].codec_params.n_frames {
            Some(n_frames) => {
                if ts > n_frames {
                    return Err(Error::Seek(SeekErrorKind::OutOfRange));
                }
            },
            None => {},
        }
        // The byte offset of the target frame; a target no byte offset
        // can address is out of range.
        let scaled = match ts.checked_mul(self.frame_len as u64) {
            Some(x) => x,
            None => {
                return Err(Error::Seek(SeekErrorKind::OutOfRange));
            },
        };
        let seek_pos = match self.data_start_pos.checked_add(scaled) {
            Some(x) => x,
            None => {
                return Err(Error::Seek(SeekErrorKind::OutOfRange));
            },
        };
        if self.reader.is_seekable() {
            match self.reader.seek_to(seek_pos) {
                Ok(()) => {},
                Err(_) => {
                    proof {
                        assert(false);
                    }
                },
            }
        } else {
            let current_pos = self.reader.pos();
            if seek_pos >= current_pos {
                self.reader.ignore_bytes(seek_pos - current_pos)?;
            } else {
                return Err(Error::Seek(SeekErrorKind::ForwardOnly));
            }
        }
        Ok(SeekedTo { track_id: 0, required_ts: ts, actual_ts: ts })
    }

    /// Produces the next packet of raw sample bytes: as many whole frames
    /// as remain before the end of the sample data, the fixed per-packet
    /// cap at most. A cursor at or within a frame of the end yields the
    /// end-of-stream signal; no packet ever reaches past the end of the
    /// sample data.
    pub fn next_packet(&mut self) -> (r: Result<Packet, Error>)
        requires
            old(self).wf(),
        ensures
            final(self).wf(),
            old(self).same_shape(final(self)),
            final(self).source_spec().position() >= old(self).source_spec().position(),
            r matches Ok(p) ==> p.dur <= AIFF_MAX_FRAMES_PER_PACKET && final(self).source_spec().position() <= old(self).data_end_spec(),
            ({
                let pos0 = old(self).source_spec().position();
                let de = old(self).data_end_spec() as int;
                let ds = old(self).data_start_spec() as int;
                let fl = old(self).frame_len_spec() as int;
                let n = old(self).source_spec().bytes().len() as int;
                let left = if pos0 < de {
                    (de - pos0) / fl
                } else {
                    0
                };
                if left == 0 {
                    r == Err::<Packet, Error>(Error::EndOfStream) && final(self).source_spec().position() == pos0
                } else {
                    let dur = if left < AIFF_MAX_FRAMES_PER_PACKET {
                        left
                    } else {
                        AIFF_MAX_FRAMES_PER_PACKET as int
                    };
                    let plen = dur * fl;
                    if pos0 + plen > n {
                        r == Err::<Packet, Error>(Error::ShortRead) && final(self).source_spec().position() == pos0
                    } else {
                        (r matches Ok(p) && p.track_id == 0 && p.ts == (pos0 - ds) / fl && p.dur
                            == dur && p.data@ == old(self).source_spec().bytes().subrange(
                            pos0,
                            pos0 + plen,
                        )) && final(self).source_spec().position() == pos0 + plen
                    }
                }
            }),
    {
        let pos = self.reader.pos();
        let num_frames_left: u64 = if pos < self.data_end_pos {
            (self.data_end_pos - pos) / (self.frame_len as u64)
        } else {
            0
        };
        if num_frames_left == 0 {
            return Err(Error::EndOfStream);
        }
        let dur: u64 = if num_frames_left < AIFF_MAX_FRAMES_PER_PACKET {
            num_frames_left
        } else {
            AIFF_MAX_FRAMES_PER_PACKET
        };
        proof {
            use_div_lemmas(
                self.data_end_pos as int - pos as int,
                self.frame_len as int,
                dur as int,
            );
        }
        let packet_len: u64 = dur * (self.frame_len as u64);
        proof {
            let fl64: u64 = self.frame_len as u64;
            assert(dur * fl64 <= 1029 * 24) by (nonlinear_arith)
                requires
                    0 <= dur <= 1029,
                    0 <= fl64 <= 24,
            ;
        }
        let packet_buf = match self.reader.read_bytes(packet_len as usize) {
            Ok(b) => b,
            Err(e) => {
                return Err(e);
            },
        };
        let pts: u64 = (pos - self.data_start_pos) / (self.frame_len as u64);
        Ok(Packet { track_id: 0, ts: pts, dur, data: packet_buf })
    }
}

/// For `0 < fl`, `0 <= rem` and `dur` at most `rem / fl`: `dur * fl` does
/// not reach past `rem`.
proof fn use_div_lemmas(rem: int, fl: int, dur: int)
    requires
        0 < fl,
        0 <= rem,
        0 <= dur <= rem / fl,
    ensures
        dur * fl <= rem,
{
    vstd::arithmetic::div_mod::lemma_fundamental_div_mod(rem, fl);
    vstd::arithmetic::div_mod::lemma_remainder_lower(rem, fl);
    vstd::arithmetic::mul::lemma_mul_inequality(dur, rem / fl, fl);
}


} // verus!
