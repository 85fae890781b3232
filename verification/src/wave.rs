use vstd::prelude::*;
use crate::chunks::{tag_eq, tag_matches, ChunkParser, ChunksReader, NullChunks, ParseChunk, ParseChunkTag};
use crate::codec::{map_wave_channels, wave_channel_bits, CodecType, Channels, FRONT_LEFT,
    FRONT_RIGHT};
use crate::errors::Error;
use crate::source::{le16, le32, BufSource};

verus! {

pub const WAVE_FORMAT_PCM: u16 = 0x0001;

pub const WAVE_FORMAT_IEEE_FLOAT: u16 = 0x0003;

pub const WAVE_FORMAT_ALAW: u16 = 0x0006;

pub const WAVE_FORMAT_MULAW: u16 = 0x0007;

pub const WAVE_FORMAT_EXTENSIBLE: u16 = 0xfffe;

/// The codec a plain PCM format chunk resolves to for the given sample
/// width: samples are interleaved and little-endian. Any other width is
/// malformed.
pub open spec fn pcm_codec_le(bits: u16) -> Option<CodecType> {
    if bits == 8 {
        Some(CodecType::PcmU8)
    } else if bits == 16 {
        Some(CodecType::PcmS16Le)
    } else if bits == 24 {
        Some(CodecType::PcmS24Le)
    } else if bits == 32 {
        Some(CodecType::PcmS32Le)
    } else {
        None
    }
}

/// The codec an IEEE float format chunk resolves to for the given sample
/// width. Any other width is malformed.
pub open spec fn float_codec_le(bits: u16) -> Option<CodecType> {
    if bits == 32 {
        Some(CodecType::PcmF32Le)
    } else if bits == 64 {
        Some(CodecType::PcmF64Le)
    } else {
        None
    }
}

/// The channel set a plain (non-extensible) format chunk allows: only mono
/// and stereo. Any other channel count is malformed.
pub open spec fn mono_stereo(n_channels: u16) -> Option<u32> {
    if n_channels == 1 {
        Some(FRONT_LEFT)
    } else if n_channels == 2 {
        Some(FRONT_LEFT | FRONT_RIGHT)
    } else {
        None
    }
}

/// Whether `g` is one of the 16-byte wave sub-format identifiers, which
/// differ only in their first byte.
pub open spec fn ks_guid(first: u8, g: Seq<u8>) -> bool {
    g.len() == 16 && g[0] == first && g[1] == 0 && g[2] == 0 && g[3] == 0 && g[4] == 0 && g[5] == 0
        && g[6] == 0x10 && g[7] == 0 && g[8] == 0x80 && g[9] == 0 && g[10] == 0 && g[11] == 0xaa
        && g[12] == 0 && g[13] == 0x38 && g[14] == 0x9b && g[15] == 0x71
}

fn is_ks_guid(g: &[u8; 16], first: u8) -> (r: bool)
    ensures
        r == ks_guid(first, g@),
{
    g[0] == first && g[1] == 0 && g[2] == 0 && g[3] == 0 && g[4] == 0 && g[5] == 0 && g[6] == 0x10
        && g[7] == 0 && g[8] == 0x80 && g[9] == 0 && g[10] == 0 && g[11] == 0xaa && g[12] == 0
        && g[13] == 0x38 && g[14] == 0x9b && g[15] == 0x71
}

/// The format-specific part of a decoded wave format chunk.
#[derive(Clone, Debug, PartialEq)]
pub enum WaveFormatData {
    Pcm(WaveFormatPcm),
    IeeeFloat(WaveFormatIeeeFloat),
    Extensible(WaveFormatExtensible),
    ALaw(WaveFormatALaw),
    MuLaw(WaveFormatMuLaw),
}

#[derive(Clone, Copy, Debug, PartialEq)]
pub struct WaveFormatPcm {
    /// The number of bits per sample: in the PCM format both the coded and
    /// the valid sample width.
    pub bits_per_sample: u16,
    /// Channel set.
    pub channels: Channels,
    /// Codec type.
    pub codec: CodecType,
}

#[derive(Clone, Copy, Debug, PartialEq)]
pub struct WaveFormatIeeeFloat {
    /// Channel set.
    pub channels: Channels,
    /// Codec type.
    pub codec: CodecType,
}

#[derive(Clone, Copy, Debug, PartialEq)]
pub struct WaveFormatExtensible {
    /// The number of valid bits in each coded sample; at most
    /// `bits_per_coded_sample`.
    pub bits_per_sample: u16,
    /// The number of bits each sample is stored in; a multiple of 8.
    pub bits_per_coded_sample: u16,
    /// Channel set, decoded from the channel-position bitmask.
    pub channels: Channels,
    /// The 16-byte identifier of the sub-format.
    pub sub_format_guid: [u8; 16],
    /// Codec type.
    pub codec: CodecType,
}

#[derive(Clone, Copy, Debug, PartialEq)]
pub struct WaveFormatALaw {
    /// Channel set.
    pub channels: Channels,
    /// Codec type.
    pub codec: CodecType,
}

#[derive(Clone, Copy, Debug, PartialEq)]
pub struct WaveFormatMuLaw {
    /// Channel set.
    pub channels: Channels,
    /// Codec type.
    pub codec: CodecType,
}

/// A decoded wave format chunk: the fixed 16-byte descriptor, plus the
/// format-specific extension selected by the format tag.
#[derive(Clone, Debug, PartialEq)]
pub struct WaveFormatChunk {
    /// The number of channels.
    pub n_channels: u16,
    /// The sample rate in Hz.
    pub sample_rate: u32,
    /// The average data rate, in bytes per second.
    pub avg_bytes_per_sec: u32,
    /// The byte alignment of one audio frame.
    pub block_align: u16,
    /// Extra data associated with the format block, conditional on the
    /// format tag.
    pub format_data: WaveFormatData,
}

/// What `WaveFormatChunk::read_pcm_fmt` returns on the bytes `d` with the
/// cursor at `pos`: the declared length picks the plain or the extended
/// layout (16, 18 or 40 bytes), an extra-size field of the extended layout
/// is read and its payload discarded, and the sample width and channel
/// count must be in the allowed sets.
pub open spec fn pcm_fmt_parse(
    d: Seq<u8>,
    pos: int,
    bits: u16,
    n_channels: u16,
    len: u32,
    r: Result<WaveFormatData, Error>,
    newpos: int,
) -> bool {
    if !(len == 16 || len == 18 || len == 40) {
        (r matches Err(Error::Malformed(_))) && newpos == pos
    } else if (len == 18 || len == 40) && pos + 2 > d.len() {
        r == Err::<WaveFormatData, Error>(Error::ShortRead)
    } else {
        let extra: int = if len == 18 || len == 40 {
            le16(d, pos)
        } else {
            0
        };
        let p2: int = if len == 18 || len == 40 {
            pos + 2
        } else {
            pos
        };
        if extra > 0 && p2 + extra > d.len() {
            r == Err::<WaveFormatData, Error>(Error::ShortRead)
        } else {
            let p3: int = p2 + extra;
            match (pcm_codec_le(bits), mono_stereo(n_channels)) {
                (Some(codec), Some(chan_bits)) => r == Ok::<WaveFormatData, Error>(
                    WaveFormatData::Pcm(
                        WaveFormatPcm {
                            bits_per_sample: bits,
                            channels: Channels { bits: chan_bits },
                            codec,
                        },
                    ),
                ) && newpos == p3,
                _ => (r matches Err(Error::Malformed(_))) && newpos == p3,
            }
        }
    }
}

/// What `WaveFormatChunk::read_ieee_fmt` returns: a declared length of 18
/// must carry a zero extra-size field, anything over 16 otherwise is
/// malformed, and only 32- and 64-bit widths and mono or stereo layouts
/// are allowed.
pub open spec fn ieee_fmt_parse(
    d: Seq<u8>,
    pos: int,
    bits: u16,
    n_channels: u16,
    len: u32,
    r: Result<WaveFormatData, Error>,
    newpos: int,
) -> bool {
    if len == 18 && pos + 2 > d.len() {
        r == Err::<WaveFormatData, Error>(Error::ShortRead)
    } else if len == 18 && le16(d, pos) != 0 {
        (r matches Err(Error::Malformed(_))) && newpos == pos + 2
    } else if len != 18 && len > 16 {
        (r matches Err(Error::Malformed(_))) && newpos == pos
    } else {
        let p2: int = if len == 18 {
            pos + 2
        } else {
            pos
        };
        match (float_codec_le(bits), mono_stereo(n_channels)) {
            (Some(codec), Some(chan_bits)) => r == Ok::<WaveFormatData, Error>(
                WaveFormatData::IeeeFloat(
                    WaveFormatIeeeFloat { channels: Channels { bits: chan_bits }, codec },
                ),
            ) && newpos == p2,
            _ => (r matches Err(Error::Malformed(_))) && newpos == p2,
        }
    }
}

/// The codec an extensible format chunk's sub-format resolves to, given
/// the identifier's selector byte, the coded width and the valid width;
/// `None` stands for a malformed combination. An unrecognized identifier
/// is handled apart, as unsupported.
pub open spec fn ext_sub_format_codec(first: u8, bits: u16, bpcs: u16) -> Option<CodecType> {
    if first == 0x01 {
        if bpcs > 32 {
            None
        } else if bpcs == 8 {
            Some(CodecType::PcmU8)
        } else if bpcs == 16 {
            Some(CodecType::PcmS16Le)
        } else if bpcs == 24 {
            Some(CodecType::PcmS24Le)
        } else if bpcs == 32 {
            Some(CodecType::PcmS32Le)
        } else {
            None
        }
    } else if first == 0x03 {
        if bits != bpcs {
            None
        } else if bpcs == 32 {
            Some(CodecType::PcmF32Le)
        } else if bpcs == 64 {
            Some(CodecType::PcmF64Le)
        } else {
            None
        }
    } else if first == 0x06 {
        Some(CodecType::PcmALaw)
    } else if first == 0x04 {
        Some(CodecType::PcmMuLaw)
    } else {
        None
    }
}

/// What `WaveFormatChunk::read_ext_fmt` returns: the chunk must be at
/// least 40 bytes with an extra-size field of exactly 22; the valid width
/// must not exceed the coded width, which must be a whole number of bytes;
/// the 16-byte sub-format identifier then selects the codec family, with
/// an unrecognized identifier unsupported rather than malformed.
pub open spec fn ext_fmt_parse(
    d: Seq<u8>,
    pos: int,
    bpcs: u16,
    len: u32,
    r: Result<WaveFormatData, Error>,
    newpos: int,
) -> bool {
    if len < 40 {
        (r matches Err(Error::Malformed(_))) && newpos == pos
    } else if pos + 2 > d.len() {
        r == Err::<WaveFormatData, Error>(Error::ShortRead)
    } else if le16(d, pos) != 22 {
        (r matches Err(Error::Malformed(_))) && newpos == pos + 2
    } else if pos + 4 > d.len() {
        r == Err::<WaveFormatData, Error>(Error::ShortRead)
    } else {
        let bits: u16 = le16(d, pos + 2) as u16;
        if bpcs % 8 != 0 {
            (r matches Err(Error::Malformed(_))) && newpos == pos + 4
        } else if bits > bpcs {
            (r matches Err(Error::Malformed(_))) && newpos == pos + 4
        } else if pos + 24 > d.len() {
            r == Err::<WaveFormatData, Error>(Error::ShortRead)
        } else {
            let mask: u32 = le32(d, pos + 4) as u32;
            let guid: Seq<u8> = d.subrange(pos + 8, pos + 24);
            if ks_guid(0x01, guid) || ks_guid(0x03, guid) || ks_guid(0x06, guid) || ks_guid(
                0x04,
                guid,
            ) {
                let first: u8 = guid[0];
                match ext_sub_format_codec(first, bits, bpcs) {
                    Some(codec) => (r matches Ok(v) && v matches WaveFormatData::Extensible(e)
                        && e.bits_per_sample == bits && e.bits_per_coded_sample == bpcs
                        && e.channels == Channels { bits: wave_channel_bits(mask) }
                        && e.sub_format_guid@ == guid && e.codec == codec) && newpos == pos + 24,
                    None => (r matches Err(Error::Malformed(_))) && newpos == pos + 24,
                }
            } else {
                (r matches Err(Error::Unsupported(_))) && newpos == pos + 24
            }
        }
    }
}

/// What `WaveFormatChunk::read_alaw_pcm_fmt` and `read_mulaw_pcm_fmt`
/// return: a fixed 18-byte layout whose extra data is discarded, mono or
/// stereo only, and a fixed companded codec.
pub open spec fn companded_fmt_parse(
    d: Seq<u8>,
    pos: int,
    n_channels: u16,
    len: u32,
    codec: CodecType,
    r: Result<WaveFormatData, Error>,
    newpos: int,
) -> bool {
    if len != 18 {
        (r matches Err(Error::Malformed(_))) && newpos == pos
    } else if pos + 2 > d.len() {
        r == Err::<WaveFormatData, Error>(Error::ShortRead)
    } else {
        let extra: int = le16(d, pos);
        if extra > 0 && pos + 2 + extra > d.len() {
            r == Err::<WaveFormatData, Error>(Error::ShortRead)
        } else {
            let p3: int = pos + 2 + extra;
            match mono_stereo(n_channels) {
                Some(chan_bits) => (r matches Ok(v) && (if codec == CodecType::PcmALaw {
                    v == WaveFormatData::ALaw(
                        WaveFormatALaw { channels: Channels { bits: chan_bits }, codec },
                    )
                } else {
                    v == WaveFormatData::MuLaw(
                        WaveFormatMuLaw { channels: Channels { bits: chan_bits }, codec },
                    )
                })) && newpos == p3,
                None => (r matches Err(Error::Malformed(_))) && newpos == p3,
            }
        }
    }
}

/// What `WaveFormatChunk::parse` returns on the bytes `d` with the cursor
/// at `pos`: the fixed 16-byte descriptor is read, and the format tag
/// dispatches to the per-format rules; an unknown format tag is
/// unsupported, not malformed.
pub open spec fn wave_format_parse(
    d: Seq<u8>,
    pos: int,
    len: u32,
    r: Result<WaveFormatChunk, Error>,
    newpos: int,
) -> bool {
    if len < 16 {
        (r matches Err(Error::Malformed(_))) && newpos == pos
    } else if pos + 16 > d.len() {
        r == Err::<WaveFormatChunk, Error>(Error::ShortRead)
    } else {
        let format: int = le16(d, pos);
        let n_channels: u16 = le16(d, pos + 2) as u16;
        let bits: u16 = le16(d, pos + 14) as u16;
        let p: int = pos + 16;
        if format == WAVE_FORMAT_PCM || format == WAVE_FORMAT_IEEE_FLOAT || format
            == WAVE_FORMAT_ALAW || format == WAVE_FORMAT_MULAW || format
            == WAVE_FORMAT_EXTENSIBLE {
            let sub: Result<WaveFormatData, Error> = match r {
                Ok(ch) => Ok(ch.format_data),
                Err(e) => Err(e),
            };
            (r matches Ok(ch) ==> ch.n_channels == n_channels && ch.sample_rate == le32(d, pos + 4)
                && ch.avg_bytes_per_sec == le32(d, pos + 8) && ch.block_align == le16(d, pos + 12))
                && (if format == WAVE_FORMAT_PCM {
                pcm_fmt_parse(d, p, bits, n_channels, len, sub, newpos)
            } else if format == WAVE_FORMAT_IEEE_FLOAT {
                ieee_fmt_parse(d, p, bits, n_channels, len, sub, newpos)
            } else if format == WAVE_FORMAT_ALAW {
                companded_fmt_parse(d, p, n_channels, len, CodecType::PcmALaw, sub, newpos)
            } else if format == WAVE_FORMAT_MULAW {
                companded_fmt_parse(d, p, n_channels, len, CodecType::PcmMuLaw, sub, newpos)
            } else {
                ext_fmt_parse(d, p, bits, len, sub, newpos)
            })
        } else {
            (r matches Err(Error::Unsupported(_))) && newpos == p
        }
    }
}

impl WaveFormatChunk {
    fn read_pcm_fmt(
        reader: &mut BufSource,
        bits_per_sample: u16,
        n_channels: u16,
        len: u32,
    ) -> (r: Result<WaveFormatData, Error>)
        requires
            old(reader).wf(),
        ensures
            final(reader).wf(),
            final(reader).bytes() == old(reader).bytes(),
            final(reader).seekable_spec() == old(reader).seekable_spec(),
            final(reader).position() >= old(reader).position(),
            pcm_fmt_parse(
                old(reader).bytes(),
                old(reader).position(),
                bits_per_sample,
                n_channels,
                len,
                r,
                final(reader).position(),
            ),
    {
        // The PCM descriptor may be extended with an extra-size field and
        // extra data; the declared chunk length says which layout holds.
        let is_extended: bool = if len == 16 {
            false
        } else if len == 18 || len == 40 {
            true
        } else {
            return Err(Error::Malformed("malformed fmt_pcm chunk"));
        };
        // If there is an extra-size field, read it and discard that many
        // bytes of extra data.
        if is_extended {
            let extra_size = reader.read_u16()?;
            if extra_size > 0 {
                reader.ignore_bytes(extra_size as u64)?;
            }
        }
        // For PCM, bits per sample is both the coded and the valid sample
        // width; samples are interleaved and little-endian.
        let codec = if bits_per_sample == 8 {
            CodecType::PcmU8
        } else if bits_per_sample == 16 {
            CodecType::PcmS16Le
        } else if bits_per_sample == 24 {
            CodecType::PcmS24Le
        } else if bits_per_sample == 32 {
            CodecType::PcmS32Le
        } else {
            return Err(Error::Malformed("bits per sample for fmt_pcm must be 8, 16, 24 or 32 bits"));
        };
        // The PCM format supports only mono and stereo layouts.
        let channels = if n_channels == 1 {
            Channels { bits: FRONT_LEFT }
        } else if n_channels == 2 {
            Channels { bits: FRONT_LEFT | FRONT_RIGHT }
        } else {
            return Err(
                Error::Malformed("only mono and stereo channel layouts are supported for fmt_pcm"),
            );
        };
        Ok(WaveFormatData::Pcm(WaveFormatPcm { bits_per_sample, channels, codec }))
    }

    fn read_ieee_fmt(
        reader: &mut BufSource,
        bits_per_sample: u16,
        n_channels: u16,
        len: u32,
    ) -> (r: Result<WaveFormatData, Error>)
        requires
            old(reader).wf(),
        ensures
            final(reader).wf(),
            final(reader).bytes() == old(reader).bytes(),
            final(reader).seekable_spec() == old(reader).seekable_spec(),
            final(reader).position() >= old(reader).position(),
            ieee_fmt_parse(
                old(reader).bytes(),
                old(reader).position(),
                bits_per_sample,
                n_channels,
                len,
                r,
                final(reader).position(),
            ),
    {
        // An IEEE float descriptor should not be extended, but it may
        // still carry an extra-size field, which must then be zero.
        if len == 18 {
            let extra_size = reader.read_u16()?;
            if extra_size != 0 {
                return Err(Error::Malformed("extra data not expected for fmt_ieee chunk"));
            }
        } else if len > 16 {
            return Err(Error::Malformed("malformed fmt_ieee chunk"));
        }
        let codec = if bits_per_sample == 32 {
            CodecType::PcmF32Le
        } else if bits_per_sample == 64 {
            CodecType::PcmF64Le
        } else {
            return Err(Error::Malformed("bits per sample for fmt_ieee must be 32 or 64 bits"));
        };
        // The IEEE float format supports only mono and stereo layouts.
        let channels = if n_channels == 1 {
            Channels { bits: FRONT_LEFT }
        } else if n_channels == 2 {
            Channels { bits: FRONT_LEFT | FRONT_RIGHT }
        } else {
            return Err(
                Error::Malformed("only mono and stereo channel layouts are supported for fmt_ieee"),
            );
        };
        Ok(WaveFormatData::IeeeFloat(WaveFormatIeeeFloat { channels, codec }))
    }

    fn read_ext_fmt(reader: &mut BufSource, bits_per_coded_sample: u16, len: u32) -> (r: Result<
        WaveFormatData,
        Error,
    >)
        requires
            old(reader).wf(),
        ensures
            final(reader).wf(),
            final(reader).bytes() == old(reader).bytes(),
            final(reader).seekable_spec() == old(reader).seekable_spec(),
            final(reader).position() >= old(reader).position(),
            ext_fmt_parse(
                old(reader).bytes(),
                old(reader).position(),
                bits_per_coded_sample,
                len,
                r,
                final(reader).position(),
            ),
    {
        // The extensible descriptor must be extended to 40 bytes.
        if len < 40 {
            return Err(Error::Malformed("malformed fmt_ext chunk"));
        }
        let extra_size = reader.read_u16()?;
        // The extra data of the extensible descriptor is exactly 22 bytes.
        if extra_size != 22 {
            return Err(Error::Malformed("extra data size not 22 bytes for fmt_ext chunk"));
        }
        let bits_per_sample = reader.read_u16()?;
        // The coded width is the width each sample is stored in, and must
        // be a whole number of bytes.
        if bits_per_coded_sample % 8 != 0 {
            return Err(
                Error::Malformed("bits per coded sample for fmt_ext must be a multiple of 8 bits"),
            );
        }
        // The valid width can be at most the coded width.
        if bits_per_sample > bits_per_coded_sample {
            return Err(
                Error::Malformed("bits per sample must be <= bits per coded sample for fmt_ext"),
            );
        }
        let channel_mask = reader.read_u32()?;
        let guid_bytes = reader.read_bytes(16)?;
        let sub_format_guid: [u8; 16] = [
            guid_bytes[0],
            guid_bytes[1],
            guid_bytes[2],
            guid_bytes[3],
            guid_bytes[4],
            guid_bytes[5],
            guid_bytes[6],
            guid_bytes[7],
            guid_bytes[8],
            guid_bytes[9],
            guid_bytes[10],
            guid_bytes[11],
            guid_bytes[12],
            guid_bytes[13],
            guid_bytes[14],
            guid_bytes[15],
        ];
        proof {
            assert(sub_format_guid@ =~= old(reader).bytes().subrange(
                old(reader).position() + 8,
                old(reader).position() + 24,
            ));
        }
        // The sub-format identifier says how the samples are coded; the
        // recognized ones differ only in their first byte.
        let codec = if is_ks_guid(&sub_format_guid, 0x01) {
            // PCM sub-format: only up to 32-bit integer samples, selected
            // by the coded width; a narrower valid width is expanded by
            // the codec during decode.
            if bits_per_coded_sample > 32 {
                return Err(
                    Error::Malformed("bits per sample for fmt_ext PCM sub-type must be <= 32 bits"),
                );
            }
            if bits_per_coded_sample == 8 {
                CodecType::PcmU8
            } else if bits_per_coded_sample == 16 {
                CodecType::PcmS16Le
            } else if bits_per_coded_sample == 24 {
                CodecType::PcmS24Le
            } else if bits_per_coded_sample == 32 {
                CodecType::PcmS32Le
            } else {
                return Err(
                    Error::Malformed("bits per sample for fmt_ext PCM sub-type must be a multiple of 8 bits"),
                );
            }
        } else if is_ks_guid(&sub_format_guid, 0x03) {
            // IEEE float sub-format: no truncated sample widths.
            if bits_per_sample != bits_per_coded_sample {
                return Err(
                    Error::Malformed("bits per sample for fmt_ext IEEE sub-type must equal bits per coded sample"),
                );
            }
            if bits_per_coded_sample == 32 {
                CodecType::PcmF32Le
            } else if bits_per_coded_sample == 64 {
                CodecType::PcmF64Le
            } else {
                return Err(
                    Error::Malformed("bits per sample for fmt_ext IEEE sub-type must be 32 or 64 bits"),
                );
            }
        } else if is_ks_guid(&sub_format_guid, 0x06) {
            CodecType::PcmALaw
        } else if is_ks_guid(&sub_format_guid, 0x04) {
            CodecType::PcmMuLaw
        } else {
            return Err(Error::Unsupported("unsupported fmt_ext sub-type"));
        };
        let channels = map_wave_channels(channel_mask);
        Ok(
            WaveFormatData::Extensible(
                WaveFormatExtensible {
                    bits_per_sample,
                    bits_per_coded_sample,
                    channels,
                    sub_format_guid,
                    codec,
                },
            ),
        )
    }

    fn read_alaw_pcm_fmt(reader: &mut BufSource, n_channels: u16, len: u32) -> (r: Result<
        WaveFormatData,
        Error,
    >)
        requires
            old(reader).wf(),
        ensures
            final(reader).wf(),
            final(reader).bytes() == old(reader).bytes(),
            final(reader).seekable_spec() == old(reader).seekable_spec(),
            final(reader).position() >= old(reader).position(),
            companded_fmt_parse(
                old(reader).bytes(),
                old(reader).position(),
                n_channels,
                len,
                CodecType::PcmALaw,
                r,
                final(reader).position(),
            ),
    {
        if len != 18 {
            return Err(Error::Malformed("malformed fmt_alaw chunk"));
        }
        let extra_size = reader.read_u16()?;
        if extra_size > 0 {
            reader.ignore_bytes(extra_size as u64)?;
        }
        let channels = if n_channels == 1 {
            Channels { bits: FRONT_LEFT }
        } else if n_channels == 2 {
            Channels { bits: FRONT_LEFT | FRONT_RIGHT }
        } else {
            return Err(
                Error::Malformed("only mono and stereo channel layouts are supported for fmt_alaw"),
            );
        };
        Ok(WaveFormatData::ALaw(WaveFormatALaw { codec: CodecType::PcmALaw, channels }))
    }

    fn read_mulaw_pcm_fmt(reader: &mut BufSource, n_channels: u16, len: u32) -> (r: Result<
        WaveFormatData,
        Error,
    >)
        requires
            old(reader).wf(),
        ensures
            final(reader).wf(),
            final(reader).bytes() == old(reader).bytes(),
            final(reader).seekable_spec() == old(reader).seekable_spec(),
            final(reader).position() >= old(reader).position(),
            companded_fmt_parse(
                old(reader).bytes(),
                old(reader).position(),
                n_channels,
                len,
                CodecType::PcmMuLaw,
                r,
                final(reader).position(),
            ),
    {
        if len != 18 {
            return Err(Error::Malformed("malformed fmt_mulaw chunk"));
        }
        let extra_size = reader.read_u16()?;
        if extra_size > 0 {
            reader.ignore_bytes(extra_size as u64)?;
        }
        let channels = if n_channels == 1 {
            Channels { bits: FRONT_LEFT }
        } else if n_channels == 2 {
            Channels { bits: FRONT_LEFT | FRONT_RIGHT }
        } else {
            return Err(
                Error::Malformed("only mono and stereo channel layouts are supported for fmt_mulaw"),
            );
        };
        Ok(WaveFormatData::MuLaw(WaveFormatMuLaw { codec: CodecType::PcmMuLaw, channels }))
    }
}

impl ParseChunk for WaveFormatChunk {
    open spec fn parses_to(
        d: Seq<u8>,
        pos: int,
        tag: Seq<u8>,
        len: u32,
        r: Result<Self, Error>,
        newpos: int,
    ) -> bool {
        wave_format_parse(d, pos, len, r, newpos)
    }

    fn parse(reader: &mut BufSource, tag: [u8; 4], len: u32) -> (r: Result<WaveFormatChunk, Error>)
    {
        // The fixed descriptor is 16 bytes; format-specific data may
        // follow it.
        if len < 16 {
            return Err(Error::Malformed("malformed fmt chunk"));
        }
        let format = reader.read_u16()?;
        let n_channels = reader.read_u16()?;
        let sample_rate = reader.read_u32()?;
        let avg_bytes_per_sec = reader.read_u32()?;
        let block_align = reader.read_u16()?;
        let bits_per_sample = reader.read_u16()?;
        let format_data = if format == WAVE_FORMAT_PCM {
            Self::read_pcm_fmt(reader, bits_per_sample, n_channels, len)?
        } else if format == WAVE_FORMAT_IEEE_FLOAT {
            Self::read_ieee_fmt(reader, bits_per_sample, n_channels, len)?
        } else if format == WAVE_FORMAT_EXTENSIBLE {
            Self::read_ext_fmt(reader, bits_per_sample, len)?
        } else if format == WAVE_FORMAT_ALAW {
            Self::read_alaw_pcm_fmt(reader, n_channels, len)?
        } else if format == WAVE_FORMAT_MULAW {
            Self::read_mulaw_pcm_fmt(reader, n_channels, len)?
        } else {
            return Err(Error::Unsupported("unsupported wave format"));
        };
        Ok(WaveFormatChunk { n_channels, sample_rate, avg_bytes_per_sec, block_align, format_data })
    }
}

/// A frame-count chunk: the number of frames in the sample data.
#[derive(Clone, Copy, Debug, PartialEq, Eq, Structural)]
pub struct FactChunk {
    pub n_frames: u32,
}

impl ParseChunk for FactChunk {
    open spec fn parses_to(
        d: Seq<u8>,
        pos: int,
        tag: Seq<u8>,
        len: u32,
        r: Result<Self, Error>,
        newpos: int,
    ) -> bool {
        if len != 4 {
            (r matches Err(Error::Malformed(_))) && newpos == pos
        } else if pos + 4 > d.len() {
            r == Err::<FactChunk, Error>(Error::ShortRead)
        } else {
            r == Ok::<FactChunk, Error>(FactChunk { n_frames: le32(d, pos) as u32 }) && newpos
                == pos + 4
        }
    }

    fn parse(reader: &mut BufSource, tag: [u8; 4], len: u32) -> (r: Result<FactChunk, Error>) {
        // A frame-count chunk is exactly 4 bytes long.
        if len != 4 {
            return Err(Error::Malformed("malformed fact chunk"));
        }
        let n_frames = reader.read_u32()?;
        Ok(FactChunk { n_frames })
    }
}

/// A list chunk: a container of sub-chunks, led by a 4-byte form
/// identifier; `len` is the byte length of the contained sub-chunks.
#[derive(Clone, Copy, Debug, PartialEq, Eq)]
pub struct ListChunk {
    pub form: [u8; 4],
    pub len: u32,
}

impl ListChunk {
    /// Skips the whole contents of the list, pad byte included.
    pub fn skip(&self, reader: &mut BufSource) -> (r: Result<(), Error>)
        requires
            old(reader).wf(),
        ensures
            final(reader).wf(),
            final(reader).bytes() == old(reader).bytes(),
            final(reader).seekable_spec() == old(reader).seekable_spec(),
            ({
                let p = old(reader).position();
                let n = old(reader).bytes().len();
                let total = self.len + (if self.len % 2 == 1 {
                    1int
                } else {
                    0int
                });
                if p + total <= n {
                    r == Ok::<(), Error>(()) && final(reader).position() == p + total
                } else {
                    r == Err::<(), Error>(Error::ShortRead)
                }
            }),
    {
        let mut inner: ChunksReader<NullChunks> = ChunksReader::new(self.len);
        inner.finish(reader)
    }
}

impl ParseChunk for ListChunk {
    open spec fn parses_to(
        d: Seq<u8>,
        pos: int,
        tag: Seq<u8>,
        len: u32,
        r: Result<Self, Error>,
        newpos: int,
    ) -> bool {
        if len < 4 {
            (r matches Err(Error::Malformed(_))) && newpos == pos
        } else if pos + 4 > d.len() {
            r == Err::<ListChunk, Error>(Error::ShortRead)
        } else {
            (r matches Ok(l) && l.form@ == d.subrange(pos, pos + 4) && l.len == len - 4) && newpos
                == pos + 4
        }
    }

    fn parse(reader: &mut BufSource, tag: [u8; 4], len: u32) -> (r: Result<ListChunk, Error>) {
        // A list chunk must contain at least the form identifier, though
        // an empty list (length 4) is permissible.
        if len < 4 {
            return Err(Error::Malformed("malformed list chunk"));
        }
        let form = reader.read_quad_bytes()?;
        Ok(ListChunk { form, len: len - 4 })
    }
}

/// A free-form text chunk of an INFO list: the 4-byte identifier names the
/// field, and the payload is its value. Mapping the identifier to a tag
/// dictionary belongs to the surrounding metadata model.
#[derive(Clone, Debug, PartialEq, Eq)]
pub struct InfoChunk {
    pub tag: [u8; 4],
    pub value: Vec<u8>,
}

impl ParseChunk for InfoChunk {
    open spec fn parses_to(
        d: Seq<u8>,
        pos: int,
        tag: Seq<u8>,
        len: u32,
        r: Result<Self, Error>,
        newpos: int,
    ) -> bool {
        if pos + len > d.len() {
            r == Err::<InfoChunk, Error>(Error::ShortRead)
        } else {
            (r matches Ok(i) && i.tag@ == tag && i.value@ == d.subrange(pos, pos + len)) && newpos
                == pos + len
        }
    }

    fn parse(reader: &mut BufSource, tag: [u8; 4], len: u32) -> (r: Result<InfoChunk, Error>) {
        let value = reader.read_bytes(len as usize)?;
        Ok(InfoChunk { tag, value })
    }
}

/// A sample-data chunk: only the declared byte length of the raw sample
/// data; the payload itself is left unread.
#[derive(Clone, Copy, Debug, PartialEq, Eq, Structural)]
pub struct DataChunk {
    pub len: u32,
}

impl ParseChunk for DataChunk {
    open spec fn parses_to(
        d: Seq<u8>,
        pos: int,
        tag: Seq<u8>,
        len: u32,
        r: Result<Self, Error>,
        newpos: int,
    ) -> bool {
        r == Ok::<DataChunk, Error>(DataChunk { len }) && newpos == pos
    }

    fn parse(reader: &mut BufSource, tag: [u8; 4], len: u32) -> (r: Result<DataChunk, Error>) {
        Ok(DataChunk { len })
    }
}

/// The chunk kinds a RIFF/WAVE container's top level recognizes.
pub enum RiffWaveChunks {
    Format(ChunkParser<WaveFormatChunk>),
    List(ChunkParser<ListChunk>),
    Fact(ChunkParser<FactChunk>),
    Data(ChunkParser<DataChunk>),
}

/// Whether `t` is the wave format chunk tag, `fmt `.
pub open spec fn is_fmt_tag(t: Seq<u8>) -> bool {
    tag_matches(t, 0x66, 0x6d, 0x74, 0x20)
}

/// Whether `t` is the list chunk tag, `LIST`.
pub open spec fn is_list_tag(t: Seq<u8>) -> bool {
    tag_matches(t, 0x4c, 0x49, 0x53, 0x54)
}

/// Whether `t` is the frame-count chunk tag, `fact`.
pub open spec fn is_fact_tag(t: Seq<u8>) -> bool {
    tag_matches(t, 0x66, 0x61, 0x63, 0x74)
}

/// Whether `t` is the sample-data chunk tag, `data`.
pub open spec fn is_data_tag(t: Seq<u8>) -> bool {
    tag_matches(t, 0x64, 0x61, 0x74, 0x61)
}

impl ParseChunkTag for RiffWaveChunks {
    open spec fn recognized(tag: Seq<u8>, len: u32) -> bool {
        is_fmt_tag(tag) || is_list_tag(tag) || is_fact_tag(tag) || is_data_tag(tag)
    }

    open spec fn chunk_for(c: Self, tag: Seq<u8>, len: u32) -> bool {
        match c {
            RiffWaveChunks::Format(p) => is_fmt_tag(tag) && p.tag_spec() == tag && p.len_spec()
                == len,
            RiffWaveChunks::List(p) => is_list_tag(tag) && p.tag_spec() == tag && p.len_spec()
                == len,
            RiffWaveChunks::Fact(p) => is_fact_tag(tag) && p.tag_spec() == tag && p.len_spec()
                == len,
            RiffWaveChunks::Data(p) => is_data_tag(tag) && p.tag_spec() == tag && p.len_spec()
                == len,
        }
    }

    open spec fn len_big_endian() -> bool {
        false
    }

    fn len_is_big_endian() -> (r: bool) {
        false
    }

    fn parse_tag(tag: [u8; 4], len: u32) -> (r: Option<Self>) {
        if tag_eq(&tag, 0x66, 0x6d, 0x74, 0x20) {
            Some(RiffWaveChunks::Format(ChunkParser::new(tag, len)))
        } else if tag_eq(&tag, 0x4c, 0x49, 0x53, 0x54) {
            Some(RiffWaveChunks::List(ChunkParser::new(tag, len)))
        } else if tag_eq(&tag, 0x66, 0x61, 0x63, 0x74) {
            Some(RiffWaveChunks::Fact(ChunkParser::new(tag, len)))
        } else if tag_eq(&tag, 0x64, 0x61, 0x74, 0x61) {
            Some(RiffWaveChunks::Data(ChunkParser::new(tag, len)))
        } else {
            None
        }
    }
}

/// The chunk kinds recognized inside an INFO list: every sub-chunk is
/// taken as a free-form text chunk.
pub enum RiffInfoListChunks {
    Info(ChunkParser<InfoChunk>),
}

impl ParseChunkTag for RiffInfoListChunks {
    open spec fn recognized(tag: Seq<u8>, len: u32) -> bool {
        true
    }

    open spec fn chunk_for(c: Self, tag: Seq<u8>, len: u32) -> bool {
        match c {
            RiffInfoListChunks::Info(p) => p.tag_spec() == tag && p.len_spec() == len,
        }
    }

    open spec fn len_big_endian() -> bool {
        false
    }

    fn len_is_big_endian() -> (r: bool) {
        false
    }

    fn parse_tag(tag: [u8; 4], len: u32) -> (r: Option<Self>) {
        Some(RiffInfoListChunks::Info(ChunkParser::new(tag, len)))
    }
}

} // verus!
