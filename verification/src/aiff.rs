use vstd::prelude::*;
use crate::chunks::{tag_eq, tag_matches, ChunkParser, ParseChunk, ParseChunkTag};
use crate::codec::{CodecType, Channels, FRONT_CENTRE, FRONT_LEFT, FRONT_LEFT_CENTRE, FRONT_RIGHT,
    FRONT_RIGHT_CENTRE, REAR_CENTRE};
use crate::errors::Error;
use crate::extended::{extended_rate, parse_extended_precision_bytes};
use crate::source::{be16, be32, BufSource};
use crate::util::read_i16_be;

verus! {

/// Whether `t` is the form container tag, `FORM`.
pub open spec fn is_form_tag(t: Seq<u8>) -> bool {
    tag_matches(t, 0x46, 0x4f, 0x52, 0x4d)
}

/// Whether `t` is the plain form type, `AIFF`.
pub open spec fn is_aiff_form(t: Seq<u8>) -> bool {
    tag_matches(t, 0x41, 0x49, 0x46, 0x46)
}

/// Whether `t` is the compressed form type, `AIFC`.
pub open spec fn is_aifc_form(t: Seq<u8>) -> bool {
    tag_matches(t, 0x41, 0x49, 0x46, 0x43)
}

/// Whether `t` is the common chunk tag, `COMM`.
pub open spec fn is_comm_tag(t: Seq<u8>) -> bool {
    tag_matches(t, 0x43, 0x4f, 0x4d, 0x4d)
}

/// Whether `t` is the sound-data chunk tag, `SSND`.
pub open spec fn is_ssnd_tag(t: Seq<u8>) -> bool {
    tag_matches(t, 0x53, 0x53, 0x4e, 0x44)
}

/// Whether `t` is the comments chunk tag, `COMT`.
pub open spec fn is_comt_tag(t: Seq<u8>) -> bool {
    tag_matches(t, 0x43, 0x4f, 0x4d, 0x54)
}

/// Whether `t` is the name text chunk tag, `NAME`.
pub open spec fn is_name_tag(t: Seq<u8>) -> bool {
    tag_matches(t, 0x4e, 0x41, 0x4d, 0x45)
}

/// Whether `t` is the author text chunk tag, `AUTH`.
pub open spec fn is_auth_tag(t: Seq<u8>) -> bool {
    tag_matches(t, 0x41, 0x55, 0x54, 0x48)
}

/// Whether `t` is the copyright text chunk tag, `(c) `.
pub open spec fn is_copyright_tag(t: Seq<u8>) -> bool {
    tag_matches(t, 0x28, 0x63, 0x29, 0x20)
}

/// Whether `t` is the annotation text chunk tag, `ANNO`.
pub open spec fn is_anno_tag(t: Seq<u8>) -> bool {
    tag_matches(t, 0x41, 0x4e, 0x4e, 0x4f)
}

/// Whether `t` is the embedded id3 chunk tag, `ID3 `.
pub open spec fn is_id3_tag(t: Seq<u8>) -> bool {
    tag_matches(t, 0x49, 0x44, 0x33, 0x20)
}

/// The format-specific part of a decoded common chunk.
#[derive(Clone, Copy, Debug, PartialEq)]
pub enum AiffFormatData {
    Pcm(AiffFormatPcm),
}

#[derive(Clone, Copy, Debug, PartialEq)]
pub struct AiffFormatPcm {
    /// Channel set.
    pub channels: Channels,
    /// The number of bits per sample.
    pub bits_per_sample: u32,
    /// Codec type.
    pub codec: CodecType,
}

/// The codec an AIFF common chunk resolves to for the given sample width:
/// samples are interleaved and big-endian. Any other width is malformed.
pub open spec fn aiff_pcm_codec(bits: i16) -> Option<CodecType> {
    if bits == 8 {
        Some(CodecType::PcmU8)
    } else if bits == 16 {
        Some(CodecType::PcmS16Be)
    } else if bits == 24 {
        Some(CodecType::PcmS24Be)
    } else if bits == 32 {
        Some(CodecType::PcmS32Be)
    } else {
        None
    }
}

/// The channel set an AIFF channel count maps to. Counts without a
/// defined layout here are refused.
pub open spec fn aiff_channel_bits(n_channels: i16) -> Option<u32> {
    if n_channels == 1 {
        Some(FRONT_LEFT)
    } else if n_channels == 2 {
        Some(FRONT_LEFT | FRONT_RIGHT)
    } else if n_channels == 3 {
        Some(FRONT_LEFT | FRONT_RIGHT | FRONT_CENTRE)
    } else if n_channels == 4 {
        Some(FRONT_LEFT | FRONT_CENTRE | FRONT_RIGHT | REAR_CENTRE)
    } else if n_channels == 6 {
        Some(
            FRONT_LEFT | FRONT_LEFT_CENTRE | FRONT_CENTRE | FRONT_RIGHT | FRONT_RIGHT_CENTRE
                | REAR_CENTRE,
        )
    } else {
        None
    }
}

/// What `CommonChunk::read_pcm_fmt` returns for the given sample width
/// and channel count: no bytes are read, the two fields alone decide.
pub open spec fn aiff_pcm_fmt_result(
    bits: i16,
    n_channels: i16,
    r: Result<AiffFormatData, Error>,
) -> bool {
    match (aiff_pcm_codec(bits), aiff_channel_bits(n_channels)) {
        (Some(codec), Some(chan_bits)) => r == Ok::<AiffFormatData, Error>(
            AiffFormatData::Pcm(
                AiffFormatPcm {
                    channels: Channels { bits: chan_bits },
                    bits_per_sample: bits as u32,
                    codec,
                },
            ),
        ),
        _ => (r matches Err(Error::Malformed(_))),
    }
}

/// A decoded common chunk: the track-wide description of the sample data.
/// The sample rate is stored in the container as an 80-bit
/// extended-precision number; it is decoded to whole samples per second.
#[derive(Clone, Copy, Debug, PartialEq)]
pub struct CommonChunk {
    /// The declared byte length of the chunk.
    pub chunk_size: u32,
    /// The number of audio channels.
    pub num_channels: i16,
    /// The total number of sample frames.
    pub num_sample_frames: u32,
    /// The number of bits per sample.
    pub sample_size: i16,
    /// The sample rate, in whole samples per second.
    pub sample_rate: u32,
    /// The format-specific part of the description.
    pub format_data: AiffFormatData,
}

/// What `CommonChunk::parse` returns on the bytes `d` with the cursor at
/// `pos`: the fixed 18-byte layout is read, the extended-precision sample
/// rate is decoded, and the sample width and channel count must be in the
/// allowed sets.
pub open spec fn common_parse(
    d: Seq<u8>,
    pos: int,
    tag: Seq<u8>,
    len: u32,
    r: Result<CommonChunk, Error>,
    newpos: int,
) -> bool {
    if !is_comm_tag(tag) {
        (r matches Err(Error::Malformed(_))) && newpos == pos
    } else if pos + 18 > d.len() {
        r == Err::<CommonChunk, Error>(Error::ShortRead)
    } else {
        let nch: i16 = be16(d, pos) as u16 as i16;
        let frames: u32 = be32(d, pos + 2) as u32;
        let ssize: i16 = be16(d, pos + 6) as u16 as i16;
        match extended_rate(d.subrange(pos + 8, pos + 18)) {
            None => (r matches Err(Error::Malformed(_))) && newpos == pos + 18,
            Some(rate) => match (aiff_pcm_codec(ssize), aiff_channel_bits(nch)) {
                (Some(codec), Some(chan_bits)) => r == Ok::<CommonChunk, Error>(
                    CommonChunk {
                        chunk_size: len,
                        num_channels: nch,
                        num_sample_frames: frames,
                        sample_size: ssize,
                        sample_rate: rate,
                        format_data: AiffFormatData::Pcm(
                            AiffFormatPcm {
                                channels: Channels { bits: chan_bits },
                                bits_per_sample: ssize as u32,
                                codec,
                            },
                        ),
                    },
                ) && newpos == pos + 18,
                _ => (r matches Err(Error::Malformed(_))) && newpos == pos + 18,
            },
        }
    }
}

impl CommonChunk {
    fn read_pcm_fmt(
        reader: &mut BufSource,
        bits_per_sample: i16,
        num_channels: i16,
        len: u32,
    ) -> (r: Result<AiffFormatData, Error>)
        requires
            old(reader).wf(),
        ensures
            *final(reader) == *old(reader),
            aiff_pcm_fmt_result(bits_per_sample, num_channels, r),
    {
        let codec = if bits_per_sample == 8 {
            CodecType::PcmU8
        } else if bits_per_sample == 16 {
            CodecType::PcmS16Be
        } else if bits_per_sample == 24 {
            CodecType::PcmS24Be
        } else if bits_per_sample == 32 {
            CodecType::PcmS32Be
        } else {
            return Err(Error::Malformed("aiff: bits per sample for fmt must be 8, 16, 24 or 32 bits"));
        };
        let channels = if num_channels == 1 {
            Channels { bits: FRONT_LEFT }
        } else if num_channels == 2 {
            Channels { bits: FRONT_LEFT | FRONT_RIGHT }
        } else if num_channels == 3 {
            Channels { bits: FRONT_LEFT | FRONT_RIGHT | FRONT_CENTRE }
        } else if num_channels == 4 {
            Channels { bits: FRONT_LEFT | FRONT_CENTRE | FRONT_RIGHT | REAR_CENTRE }
        } else if num_channels == 6 {
            Channels {
                bits: FRONT_LEFT | FRONT_LEFT_CENTRE | FRONT_CENTRE | FRONT_RIGHT
                    | FRONT_RIGHT_CENTRE | REAR_CENTRE,
            }
        } else {
            return Err(Error::Malformed("aiff: unsupported channels"));
        };
        Ok(
            AiffFormatData::Pcm(
                AiffFormatPcm { bits_per_sample: bits_per_sample as u32, channels, codec },
            ),
        )
    }
}

impl ParseChunk for CommonChunk {
    open spec fn parses_to(
        d: Seq<u8>,
        pos: int,
        tag: Seq<u8>,
        len: u32,
        r: Result<Self, Error>,
        newpos: int,
    ) -> bool {
        common_parse(d, pos, tag, len, r, newpos)
    }

    fn parse(reader: &mut BufSource, tag: [u8; 4], len: u32) -> (r: Result<CommonChunk, Error>) {
        if !tag_eq(&tag, 0x43, 0x4f, 0x4d, 0x4d) {
            return Err(Error::Malformed("aiff: malformed common chunk"));
        }
        // The fixed layout is 18 bytes: channel count, frame count, sample
        // width and the 10-byte extended-precision sample rate.
        if reader.remaining() < 18 {
            return Err(Error::ShortRead);
        }
        let num_channels = read_i16_be(reader);
        let num_sample_frames = reader.read_be_u32()?;
        let sample_size = read_i16_be(reader);
        let rate_bytes = reader.read_bytes(10)?;
        let rate_field: [u8; 10] = [
            rate_bytes[0],
            rate_bytes[1],
            rate_bytes[2],
            rate_bytes[3],
            rate_bytes[4],
            rate_bytes[5],
            rate_bytes[6],
            rate_bytes[7],
            rate_bytes[8],
            rate_bytes[9],
        ];
        proof {
            assert(rate_field@ =~= old(reader).bytes().subrange(
                old(reader).position() + 8,
                old(reader).position() + 18,
            ));
        }
        let sample_rate = match parse_extended_precision_bytes(rate_field) {
            Ok(s) => s,
            Err(()) => {
                return Err(Error::Malformed("aiff: failed to parse sample rate"));
            },
        };
        let format_data = Self::read_pcm_fmt(reader, sample_size, num_channels, len)?;
        Ok(
            CommonChunk {
                chunk_size: len,
                num_channels,
                num_sample_frames,
                sample_size,
                sample_rate,
                format_data,
            },
        )
    }
}

/// The kinds of free-form text chunk.
#[derive(Clone, Copy, Debug, PartialEq, Eq, Structural)]
pub enum TextChunkType {
    Name,
    Author,
    Copyright,
    Annotation,
}

/// The text chunk type the given tag names, if any.
pub open spec fn text_type_of(tag: Seq<u8>) -> Option<TextChunkType> {
    if is_name_tag(tag) {
        Some(TextChunkType::Name)
    } else if is_auth_tag(tag) {
        Some(TextChunkType::Author)
    } else if is_copyright_tag(tag) {
        Some(TextChunkType::Copyright)
    } else if is_anno_tag(tag) {
        Some(TextChunkType::Annotation)
    } else {
        None
    }
}

/// A free-form text chunk. The payload is kept as the raw bytes it was
/// stored as; text decoding belongs to the surrounding metadata model.
#[derive(Clone, Debug, PartialEq, Eq)]
pub struct TextChunk {
    pub chunk_type: TextChunkType,
    pub chunk_size: u32,
    pub text: Vec<u8>,
    pub seek_size: Option<u32>,
}

impl ParseChunk for TextChunk {
    open spec fn parses_to(
        d: Seq<u8>,
        pos: int,
        tag: Seq<u8>,
        len: u32,
        r: Result<Self, Error>,
        newpos: int,
    ) -> bool {
        match text_type_of(tag) {
            None => (r matches Err(Error::Malformed(_))) && newpos == pos,
            Some(t) => {
                if pos + len > d.len() {
                    r == Err::<TextChunk, Error>(Error::ShortRead)
                } else {
                    (r matches Ok(c) && c.chunk_type == t && c.chunk_size == len && c.text@
                        == d.subrange(pos, pos + len) && c.seek_size matches None) && newpos == pos
                        + len
                }
            },
        }
    }

    fn parse(reader: &mut BufSource, tag: [u8; 4], len: u32) -> (r: Result<TextChunk, Error>) {
        let chunk_type = if tag_eq(&tag, 0x4e, 0x41, 0x4d, 0x45) {
            TextChunkType::Name
        } else if tag_eq(&tag, 0x41, 0x55, 0x54, 0x48) {
            TextChunkType::Author
        } else if tag_eq(&tag, 0x28, 0x63, 0x29, 0x20) {
            TextChunkType::Copyright
        } else if tag_eq(&tag, 0x41, 0x4e, 0x4e, 0x4f) {
            TextChunkType::Annotation
        } else {
            return Err(Error::Malformed("aiff: unsupported text chunk"));
        };
        let text = reader.read_bytes(len as usize)?;
        Ok(TextChunk { chunk_type, chunk_size: len, text, seek_size: None })
    }
}

/// An absolute byte span inside the source.
#[derive(Clone, Copy, Debug, PartialEq, Eq, Structural)]
pub struct ByteRange {
    pub start_pos: u64,
    pub end_pos: u64,
}

/// A decoded sound-data chunk header: the offset and block-size preamble
/// is read, and `data_range` is the absolute span of the raw sample
/// bytes. The samples themselves are left unread, with the cursor at
/// `data_range.start_pos`.
#[derive(Clone, Copy, Debug, PartialEq, Eq, Structural)]
pub struct SoundDataChunk {
    /// The declared byte length of the chunk.
    pub chunk_size: u32,
    /// The declared offset to the first sample frame within the data.
    pub offset: u32,
    /// The declared block size used for block alignment.
    pub block_size: u32,
    /// The declared byte length of the raw sample data: the chunk length
    /// less the 8-byte preamble.
    pub sound_size: u32,
    /// The absolute byte span of the raw sample data.
    pub data_range: ByteRange,
}

/// What `SoundDataChunk::parse` returns: the chunk must carry at least
/// its 8-byte preamble; the data range then starts right after the
/// preamble. A chunk declaring the all-ones sentinel length extends to
/// the end of the source.
pub open spec fn sound_data_parse(
    d: Seq<u8>,
    pos: int,
    tag: Seq<u8>,
    len: u32,
    r: Result<SoundDataChunk, Error>,
    newpos: int,
) -> bool {
    if !is_ssnd_tag(tag) {
        (r matches Err(Error::Malformed(_))) && newpos == pos
    } else if len < 8 {
        (r matches Err(Error::Malformed(_))) && newpos == pos
    } else if pos + 8 > d.len() {
        r == Err::<SoundDataChunk, Error>(Error::ShortRead)
    } else {
        let start: int = pos + 8;
        let end: int = if len == u32::MAX {
            d.len() as int
        } else if start + (len - 8) > u64::MAX {
            u64::MAX as int
        } else {
            start + (len - 8)
        };
        r == Ok::<SoundDataChunk, Error>(
            SoundDataChunk {
                chunk_size: len,
                offset: be32(d, pos) as u32,
                block_size: be32(d, pos + 4) as u32,
                sound_size: (len - 8) as u32,
                data_range: ByteRange { start_pos: start as u64, end_pos: end as u64 },
            },
        ) && newpos == start
    }
}

impl ParseChunk for SoundDataChunk {
    open spec fn parses_to(
        d: Seq<u8>,
        pos: int,
        tag: Seq<u8>,
        len: u32,
        r: Result<Self, Error>,
        newpos: int,
    ) -> bool {
        sound_data_parse(d, pos, tag, len, r, newpos)
    }

    fn parse(reader: &mut BufSource, tag: [u8; 4], len: u32) -> (r: Result<SoundDataChunk, Error>)
    {
        if !tag_eq(&tag, 0x53, 0x53, 0x4e, 0x44) {
            return Err(Error::Malformed("aiff: malformed sound chunk"));
        }
        // The declared length covers the 8-byte offset and block-size
        // preamble; less than that is structurally invalid.
        if len < 8 {
            return Err(Error::Malformed("aiff: malformed sound chunk"));
        }
        let offset = reader.read_be_u32()?;
        let block_size = reader.read_be_u32()?;
        let sound_size = len - 8;
        let data_start_pos = reader.pos();
        // The all-ones sentinel means the sample data extends to the end
        // of the source.
        let data_end_pos = if len == u32::MAX {
            reader.total_len()
        } else {
            data_start_pos.saturating_add(sound_size as u64)
        };
        Ok(
            SoundDataChunk {
                chunk_size: len,
                offset,
                block_size,
                sound_size,
                data_range: ByteRange { start_pos: data_start_pos, end_pos: data_end_pos },
            },
        )
    }
}

/// An embedded id3 metadata chunk: recognized and skipped; its contents
/// belong to the surrounding metadata model.
#[derive(Clone, Copy, Debug, PartialEq, Eq, Structural)]
pub struct ID3v2Chunk {
    pub chunk_size: u32,
}

impl ParseChunk for ID3v2Chunk {
    open spec fn parses_to(
        d: Seq<u8>,
        pos: int,
        tag: Seq<u8>,
        len: u32,
        r: Result<Self, Error>,
        newpos: int,
    ) -> bool {
        if !is_id3_tag(tag) {
            (r matches Err(Error::Malformed(_))) && newpos == pos
        } else {
            r == Ok::<ID3v2Chunk, Error>(ID3v2Chunk { chunk_size: len }) && newpos == (if pos + len
                <= d.len() {
                pos + len
            } else {
                d.len() as int
            })
        }
    }

    fn parse(reader: &mut BufSource, tag: [u8; 4], len: u32) -> (r: Result<ID3v2Chunk, Error>) {
        if !tag_eq(&tag, 0x49, 0x44, 0x33, 0x20) {
            return Err(Error::Malformed("aiff: malformed id3v2 chunk"));
        }
        let target = reader.pos().saturating_add(len as u64);
        proof {
            assert(old(reader).position() + len >= target as int);
            assert(target as int >= old(reader).position());
        }
        reader.skip_to(target);
        proof {
            if old(reader).position() + len <= old(reader).bytes().len() {
                assert(reader.position() == old(reader).position() + len);
            } else {
                assert(reader.position() == old(reader).bytes().len());
            }
            assert(is_id3_tag(tag@));
        }
        Ok(ID3v2Chunk { chunk_size: len })
    }
}

/// Common trait for records parsed from the source without a chunk
/// header of their own. `parses_from` is each implementation's own
/// statement of what its `parse` returns.
pub trait Parse: Sized {
    /// Relates a parse result and the final cursor position to the bytes
    /// under the cursor when `parse` was called.
    spec fn parses_from(d: Seq<u8>, pos: int, r: Result<Self, Error>, newpos: int) -> bool;

    fn parse(reader: &mut BufSource) -> (r: Result<Self, Error>)
        requires
            old(reader).wf(),
        ensures
            final(reader).wf(),
            final(reader).bytes() == old(reader).bytes(),
            final(reader).seekable_spec() == old(reader).seekable_spec(),
            final(reader).position() >= old(reader).position(),
            Self::parses_from(
                old(reader).bytes(),
                old(reader).position(),
                r,
                final(reader).position(),
            ),
    ;
}

pub type MarkerId = i16;

/// One comment of a comments chunk.
#[derive(Clone, Debug, PartialEq, Eq)]
pub struct Comment {
    pub timestamp: u32,
    pub marker_id: MarkerId,
    pub count: u16,
    pub text: Vec<u8>,
}

/// The byte length of the comment record held at `p`: the 8-byte fixed
/// part and `count` bytes of text.
pub open spec fn comment_len_at(d: Seq<u8>, p: int) -> int {
    8 + be16(d, p + 6)
}

/// Whether a whole comment record fits at `p`.
pub open spec fn comment_fits(d: Seq<u8>, p: int) -> bool {
    p + 8 <= d.len() && p + comment_len_at(d, p) <= d.len()
}

/// Relates a comment value to the record held at `p`.
pub open spec fn comment_matches(d: Seq<u8>, p: int, c: Comment) -> bool {
    c.timestamp == be32(d, p) && c.marker_id == be16(d, p + 4) as u16 as i16 && c.count == be16(
        d,
        p + 6,
    ) && c.text@ == d.subrange(p + 8, p + comment_len_at(d, p))
}

impl Parse for Comment {
    open spec fn parses_from(d: Seq<u8>, pos: int, r: Result<Self, Error>, newpos: int) -> bool {
        if !comment_fits(d, pos) {
            r == Err::<Comment, Error>(Error::ShortRead)
        } else {
            (r matches Ok(c) && comment_matches(d, pos, c)) && newpos == pos + comment_len_at(
                d,
                pos,
            )
        }
    }

    fn parse(reader: &mut BufSource) -> (r: Result<Comment, Error>) {
        // The fixed part is 8 bytes: timestamp, marker id and text length.
        if reader.remaining() < 8 {
            return Err(Error::ShortRead);
        }
        let timestamp = reader.read_be_u32()?;
        let marker_id = read_i16_be(reader);
        let count = reader.read_be_u16()?;
        let text = reader.read_bytes(count as usize)?;
        Ok(Comment { timestamp, marker_id, count, text })
    }
}

/// The cursor position of the `i`-th comment record of a run that starts
/// at `start`.
pub open spec fn comment_pos(d: Seq<u8>, start: int, i: int) -> int
    decreases i,
{
    if i <= 0 {
        start
    } else {
        let q = comment_pos(d, start, i - 1);
        q + comment_len_at(d, q)
    }
}

/// Whether `n` consecutive comment records fit, starting at `start`.
pub open spec fn comments_fit(d: Seq<u8>, start: int, n: int) -> bool
    decreases n,
{
    if n <= 0 {
        true
    } else {
        comments_fit(d, start, n - 1) && comment_fits(d, comment_pos(d, start, n - 1))
    }
}

/// When `n` comment records fit, each of the first `n` does.
proof fn lemma_comments_fit_prefix(d: Seq<u8>, start: int, j: int, n: int)
    requires
        0 <= j < n,
        comments_fit(d, start, n),
    ensures
        comment_fits(d, comment_pos(d, start, j)),
    decreases n,
{
    if j < n - 1 {
        lemma_comments_fit_prefix(d, start, j, n - 1);
    }
}

/// A decoded comments chunk: a counted run of comment records.
#[derive(Clone, Debug, PartialEq, Eq)]
pub struct CommentsChunk {
    pub size: u32,
    pub num_comments: u16,
    pub comments: Vec<Comment>,
}

/// What `CommentsChunk::parse` returns: a 16-bit count, then that many
/// consecutive comment records.
pub open spec fn comments_parse(
    d: Seq<u8>,
    pos: int,
    tag: Seq<u8>,
    len: u32,
    r: Result<CommentsChunk, Error>,
    newpos: int,
) -> bool {
    if !is_comt_tag(tag) {
        (r matches Err(Error::Malformed(_))) && newpos == pos
    } else if pos + 2 > d.len() {
        r == Err::<CommentsChunk, Error>(Error::ShortRead)
    } else {
        let n: int = be16(d, pos);
        if !comments_fit(d, pos + 2, n) {
            r == Err::<CommentsChunk, Error>(Error::ShortRead)
        } else {
            (r matches Ok(cc) && cc.size == len && cc.num_comments == n && cc.comments@.len() == n
                && (forall|i: int|
                0 <= i < n ==> comment_matches(
                    d,
                    comment_pos(d, pos + 2, i),
                    #[trigger] cc.comments@[i],
                ))) && newpos == comment_pos(d, pos + 2, n)
        }
    }
}

impl ParseChunk for CommentsChunk {
    open spec fn parses_to(
        d: Seq<u8>,
        pos: int,
        tag: Seq<u8>,
        len: u32,
        r: Result<Self, Error>,
        newpos: int,
    ) -> bool {
        comments_parse(d, pos, tag, len, r, newpos)
    }

    fn parse(reader: &mut BufSource, tag: [u8; 4], len: u32) -> (r: Result<CommentsChunk, Error>) {
        if !tag_eq(&tag, 0x43, 0x4f, 0x4d, 0x54) {
            return Err(Error::Malformed("aiff: malformed comments chunk"));
        }
        let num_comments = reader.read_be_u16()?;
        let ghost start: int = reader.position();
        let mut comments: Vec<Comment> = Vec::new();
        let mut j: u16 = 0;
        while j < num_comments
            invariant
                j <= num_comments,
                reader.wf(),
                reader.bytes() == old(reader).bytes(),
                reader.seekable_spec() == old(reader).seekable_spec(),
                reader.position() >= old(reader).position(),
                is_comt_tag(tag@),
                old(reader).position() + 2 <= old(reader).bytes().len(),
                num_comments == be16(old(reader).bytes(), old(reader).position()),
                start == old(reader).position() + 2,
                reader.position() == comment_pos(reader.bytes(), start, j as int),
                comments_fit(reader.bytes(), start, j as int),
                comments@.len() == j,
                forall|i: int|
                    0 <= i < j ==> comment_matches(
                        reader.bytes(),
                        comment_pos(reader.bytes(), start, i),
                        #[trigger] comments@[i],
                    ),
            decreases num_comments - j,
        {
            let c = match Comment::parse(reader) {
                Ok(c) => c,
                Err(e) => {
                    // Were all the records to fit, the one at the cursor
                    // would, and its parse could not have failed short.
                    proof {
                        if comments_fit(reader.bytes(), start, num_comments as int) {
                            lemma_comments_fit_prefix(
                                reader.bytes(),
                                start,
                                j as int,
                                num_comments as int,
                            );
                        }
                    }
                    return Err(e);
                },
            };
            comments.push(c);
            j = j + 1;
        }
        Ok(CommentsChunk { size: len, num_comments, comments })
    }
}

/// A marker record, as cue points name positions in the sample data.
#[derive(Clone, Debug, PartialEq, Eq)]
pub struct Marker {
    pub id: MarkerId,
    pub position: u32,
    pub marker_name: String,
}

/// The chunk kinds an AIFF container's top level recognizes.
pub enum AiffChunks {
    Common(ChunkParser<CommonChunk>),
    Comment(ChunkParser<CommentsChunk>),
    ID3(ChunkParser<ID3v2Chunk>),
    Name(ChunkParser<TextChunk>),
    Sound(ChunkParser<SoundDataChunk>),
}

impl ParseChunkTag for AiffChunks {
    open spec fn recognized(tag: Seq<u8>, len: u32) -> bool {
        is_comm_tag(tag) || is_comt_tag(tag) || is_id3_tag(tag) || is_name_tag(tag) || is_ssnd_tag(
            tag,
        )
    }

    open spec fn chunk_for(c: Self, tag: Seq<u8>, len: u32) -> bool {
        match c {
            AiffChunks::Common(p) => is_comm_tag(tag) && p.tag_spec() == tag && p.len_spec()
                == len,
            AiffChunks::Comment(p) => is_comt_tag(tag) && p.tag_spec() == tag && p.len_spec()
                == len,
            AiffChunks::ID3(p) => is_id3_tag(tag) && p.tag_spec() == tag && p.len_spec() == len,
            AiffChunks::Name(p) => is_name_tag(tag) && p.tag_spec() == tag && p.len_spec() == len,
            AiffChunks::Sound(p) => is_ssnd_tag(tag) && p.tag_spec() == tag && p.len_spec() == len,
        }
    }

    open spec fn len_big_endian() -> bool {
        true
    }

    fn len_is_big_endian() -> (r: bool) {
        true
    }

    fn parse_tag(tag: [u8; 4], len: u32) -> (r: Option<Self>) {
        if tag_eq(&tag, 0x43, 0x4f, 0x4d, 0x4d) {
            Some(AiffChunks::Common(ChunkParser::new(tag, len)))
        } else if tag_eq(&tag, 0x43, 0x4f, 0x4d, 0x54) {
            Some(AiffChunks::Comment(ChunkParser::new(tag, len)))
        } else if tag_eq(&tag, 0x49, 0x44, 0x33, 0x20) {
            Some(AiffChunks::ID3(ChunkParser::new(tag, len)))
        } else if tag_eq(&tag, 0x4e, 0x41, 0x4d, 0x45) {
            Some(AiffChunks::Name(ChunkParser::new(tag, len)))
        } else if tag_eq(&tag, 0x53, 0x53, 0x4e, 0x44) {
            Some(AiffChunks::Sound(ChunkParser::new(tag, len)))
        } else {
            None
        }
    }
}

} // verus!
