//! A verified demuxer core for chunk-based audio containers of the
//! RIFF/WAVE and IFF/AIFF families: a bounded, lazy traversal over
//! tagged, length-prefixed chunks, decoders for the format-descriptor
//! chunks, a container driver that locates the sample data, and seek and
//! packet arithmetic over it. Length fields are untrusted throughout:
//! every bound is checked before any arithmetic that could overflow.

pub mod aiff;
pub mod chunks;
pub mod codec;
pub mod demux;
pub mod errors;
pub mod extended;
pub mod source;
pub mod util;
pub mod wave;
