use vstd::prelude::*;

verus! {

/// The reasons a seek request can be refused.
#[derive(Clone, Copy, Debug, PartialEq, Eq, Structural)]
pub enum SeekErrorKind {
    /// The track exposes no sample rate or no frame length, so a target
    /// cannot be resolved to a byte offset.
    Unseekable,
    /// The target lies beyond the track's declared total frame count.
    OutOfRange,
    /// A backward seek was requested on a forward-only source.
    ForwardOnly,
}

/// The error taxonomy of the demuxer.
///
/// `Malformed` marks input that is structurally invalid by the container's
/// own rules, while `Unsupported` marks structurally valid input that
/// describes a variant this implementation does not decode; callers must be
/// able to tell the two apart. `ShortRead` marks a source that ended in the
/// middle of a required field. `EndOfStream` is the expected terminal signal
/// of packet iteration, not a fault.
#[derive(Clone, Copy, Debug)]
pub enum Error {
    /// Structurally invalid input; fatal to parsing the container.
    Malformed(&'static str),
    /// Recognized but not implemented; distinguishable from corruption.
    Unsupported(&'static str),
    /// The source ended before a required field was complete.
    ShortRead,
    /// No further packets will be produced.
    EndOfStream,
    /// A seek request was refused.
    Seek(SeekErrorKind),
}

impl Error {
    /// A short description of the error class, for callers that report it.
    pub fn describe(&self) -> (r: &'static str)
        ensures
            r@ == self.describe_spec()@,
    {
        match self {
            Error::Malformed(_) => "malformed",
            Error::Unsupported(_) => "unsupported",
            Error::ShortRead => "short read",
            Error::EndOfStream => "end of stream",
            Error::Seek(SeekErrorKind::Unseekable) => "unseekable",
            Error::Seek(SeekErrorKind::OutOfRange) => "out of range",
            Error::Seek(SeekErrorKind::ForwardOnly) => "forward only",
        }
    }

    pub open spec fn describe_spec(&self) -> &'static str {
        match self {
            Error::Malformed(_) => "malformed",
            Error::Unsupported(_) => "unsupported",
            Error::ShortRead => "short read",
            Error::EndOfStream => "end of stream",
            Error::Seek(SeekErrorKind::Unseekable) => "unseekable",
            Error::Seek(SeekErrorKind::OutOfRange) => "out of range",
            Error::Seek(SeekErrorKind::ForwardOnly) => "forward only",
        }
    }
}

} // verus!
