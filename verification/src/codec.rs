use vstd::prelude::*;

verus! {

/// The codec that a format descriptor resolves to. Little-endian variants
/// come from RIFF/WAVE containers, big-endian variants from AIFF containers.
#[derive(Clone, Copy, Debug, PartialEq, Eq, Structural)]
pub enum CodecType {
    PcmU8,
    PcmS16Le,
    PcmS24Le,
    PcmS32Le,
    PcmS16Be,
    PcmS24Be,
    PcmS32Be,
    PcmF32Le,
    PcmF64Le,
    PcmF32Be,
    PcmF64Be,
    PcmALaw,
    PcmMuLaw,
}

/// A set of named speaker positions, one bit per position.
///
/// Bit assignments, lowest to highest: front left, front right, front
/// centre, low frequency, rear left, rear right, front left-of-centre,
/// front right-of-centre, rear centre, side left, side right, top centre,
/// top front left, top front centre, top front right, top rear left, top
/// rear centre, top rear right.
#[derive(Clone, Copy, Debug, PartialEq, Eq, Structural)]
pub struct Channels {
    pub bits: u32,
}

pub const FRONT_LEFT: u32 = 0x1;
pub const FRONT_RIGHT: u32 = 0x2;
pub const FRONT_CENTRE: u32 = 0x4;
pub const LFE1: u32 = 0x8;
pub const REAR_LEFT: u32 = 0x10;
pub const REAR_RIGHT: u32 = 0x20;
pub const FRONT_LEFT_CENTRE: u32 = 0x40;
pub const FRONT_RIGHT_CENTRE: u32 = 0x80;
pub const REAR_CENTRE: u32 = 0x100;
pub const SIDE_LEFT: u32 = 0x200;
pub const SIDE_RIGHT: u32 = 0x400;
pub const TOP_CENTRE: u32 = 0x800;
pub const TOP_FRONT_LEFT: u32 = 0x1000;
pub const TOP_FRONT_CENTRE: u32 = 0x2000;
pub const TOP_FRONT_RIGHT: u32 = 0x4000;
pub const TOP_REAR_LEFT: u32 = 0x8000;
pub const TOP_REAR_CENTRE: u32 = 0x10000;
pub const TOP_REAR_RIGHT: u32 = 0x20000;

/// How many of the low `i` bits of `b` are set.
pub open spec fn ones_below(b: u32, i: u32) -> int
    decreases i,
{
    if i == 0 {
        0
    } else {
        ones_below(b, (i - 1) as u32) + (if (b >> ((i - 1) as u32)) & 1 == 1 {
            1int
        } else {
            0int
        })
    }
}

impl Channels {
    /// The empty channel set.
    pub fn empty() -> (r: Channels)
        ensures
            r.bits == 0,
    {
        Channels { bits: 0 }
    }

    /// Whether every position in `other` is also in `self`.
    pub fn contains(&self, other: Channels) -> (r: bool)
        ensures
            r == (self.bits & other.bits == other.bits),
    {
        self.bits & other.bits == other.bits
    }

    /// The number of speaker positions in the set.
    pub fn count(&self) -> (r: u32)
        ensures
            r == ones_below(self.bits, 32),
    {
        let mut n: u32 = 0;
        let mut i: u32 = 0;
        while i < 32
            invariant
                i <= 32,
                n == ones_below(self.bits, i),
                n <= i,
            decreases 32 - i,
        {
            if (self.bits >> i) & 1 == 1 {
                n = n + 1;
            }
            i = i + 1;
        }
        n
    }
}

/// The channel set that a wave channel bitmask maps to. The library's
/// `Channels` bit layout assigns each of the 18 defined speaker-mask
/// positions the same bit the mask uses, so the map keeps exactly those 18
/// bits; `lemma_wave_channel_positions` states the mapping position by
/// position.
pub open spec fn wave_channel_bits(mask: u32) -> u32 {
    mask & 0x3ffff
}

/// Maps a wave channel bitmask to the channel set it names. Each of the 18
/// defined speaker-mask bits is mapped independently to its named speaker
/// position; bits above them are dropped.
pub fn map_wave_channels(channel_mask: u32) -> (r: Channels)
    ensures
        r.bits == wave_channel_bits(channel_mask),
{
    Channels { bits: channel_mask & 0x3ffff }
}

/// Each defined bit of a wave channel bitmask independently contributes
/// its named speaker position, and nothing else does.
pub proof fn lemma_wave_channel_positions(mask: u32)
    ensures
        (wave_channel_bits(mask) & FRONT_LEFT != 0) == (mask & 0x1 != 0),
        (wave_channel_bits(mask) & FRONT_RIGHT != 0) == (mask & 0x2 != 0),
        (wave_channel_bits(mask) & FRONT_CENTRE != 0) == (mask & 0x4 != 0),
        (wave_channel_bits(mask) & LFE1 != 0) == (mask & 0x8 != 0),
        (wave_channel_bits(mask) & REAR_LEFT != 0) == (mask & 0x10 != 0),
        (wave_channel_bits(mask) & REAR_RIGHT != 0) == (mask & 0x20 != 0),
        (wave_channel_bits(mask) & FRONT_LEFT_CENTRE != 0) == (mask & 0x40 != 0),
        (wave_channel_bits(mask) & FRONT_RIGHT_CENTRE != 0) == (mask & 0x80 != 0),
        (wave_channel_bits(mask) & REAR_CENTRE != 0) == (mask & 0x100 != 0),
        (wave_channel_bits(mask) & SIDE_LEFT != 0) == (mask & 0x200 != 0),
        (wave_channel_bits(mask) & SIDE_RIGHT != 0) == (mask & 0x400 != 0),
        (wave_channel_bits(mask) & TOP_CENTRE != 0) == (mask & 0x800 != 0),
        (wave_channel_bits(mask) & TOP_FRONT_LEFT != 0) == (mask & 0x1000 != 0),
        (wave_channel_bits(mask) & TOP_FRONT_CENTRE != 0) == (mask & 0x2000 != 0),
        (wave_channel_bits(mask) & TOP_FRONT_RIGHT != 0) == (mask & 0x4000 != 0),
        (wave_channel_bits(mask) & TOP_REAR_LEFT != 0) == (mask & 0x8000 != 0),
        (wave_channel_bits(mask) & TOP_REAR_CENTRE != 0) == (mask & 0x10000 != 0),
        (wave_channel_bits(mask) & TOP_REAR_RIGHT != 0) == (mask & 0x20000 != 0),
        wave_channel_bits(mask) & 0xfffc0000 == 0,
{
    assert((mask & 0x3ffff) & 0x1 == mask & 0x1) by (bit_vector);
    assert((mask & 0x3ffff) & 0x2 == mask & 0x2) by (bit_vector);
    assert((mask & 0x3ffff) & 0x4 == mask & 0x4) by (bit_vector);
    assert((mask & 0x3ffff) & 0x8 == mask & 0x8) by (bit_vector);
    assert((mask & 0x3ffff) & 0x10 == mask & 0x10) by (bit_vector);
    assert((mask & 0x3ffff) & 0x20 == mask & 0x20) by (bit_vector);
    assert((mask & 0x3ffff) & 0x40 == mask & 0x40) by (bit_vector);
    assert((mask & 0x3ffff) & 0x80 == mask & 0x80) by (bit_vector);
    assert((mask & 0x3ffff) & 0x100 == mask & 0x100) by (bit_vector);
    assert((mask & 0x3ffff) & 0x200 == mask & 0x200) by (bit_vector);
    assert((mask & 0x3ffff) & 0x400 == mask & 0x400) by (bit_vector);
    assert((mask & 0x3ffff) & 0x800 == mask & 0x800) by (bit_vector);
    assert((mask & 0x3ffff) & 0x1000 == mask & 0x1000) by (bit_vector);
    assert((mask & 0x3ffff) & 0x2000 == mask & 0x2000) by (bit_vector);
    assert((mask & 0x3ffff) & 0x4000 == mask & 0x4000) by (bit_vector);
    assert((mask & 0x3ffff) & 0x8000 == mask & 0x8000) by (bit_vector);
    assert((mask & 0x3ffff) & 0x10000 == mask & 0x10000) by (bit_vector);
    assert((mask & 0x3ffff) & 0x20000 == mask & 0x20000) by (bit_vector);
    assert((mask & 0x3ffff) & 0xfffc0000 == 0) by (bit_vector);
}

} // verus!
