use vstd::prelude::*;
use core::marker::PhantomData;
use crate::errors::Error;
use crate::source::{BufSource, be32, le32};

verus! {

/// Whether `t` is the 4-byte tag `a b c d`.
pub open spec fn tag_matches(t: Seq<u8>, a: u8, b: u8, c: u8, d: u8) -> bool {
    t.len() == 4 && t[0] == a && t[1] == b && t[2] == c && t[3] == d
}

/// Compares a tag against the four given bytes.
pub fn tag_eq(t: &[u8; 4], a: u8, b: u8, c: u8, d: u8) -> (r: bool)
    ensures
        r == tag_matches(t@, a, b, c, d),
{
    t[0] == a && t[1] == b && t[2] == c && t[3] == d
}

/// `ParseChunkTag` maps between a 4-byte chunk identifier and an
/// enumeration of the chunk kinds a container family recognizes. A chunk
/// handle produced by `parse_tag` is lazy: it carries only the tag and the
/// declared length, and payload parsing is a later, separate step.
pub trait ParseChunkTag: Sized {
    /// Whether this chunk set recognizes the given tag on a chunk of the
    /// given declared length.
    spec fn recognized(tag: Seq<u8>, len: u32) -> bool;

    /// Relates a produced chunk handle to the header it was made from.
    spec fn chunk_for(c: Self, tag: Seq<u8>, len: u32) -> bool;

    /// Whether this container family declares chunk lengths big-endian.
    spec fn len_big_endian() -> bool;

    fn len_is_big_endian() -> (r: bool)
        ensures
            r == Self::len_big_endian(),
    ;

    fn parse_tag(tag: [u8; 4], len: u32) -> (r: Option<Self>)
        ensures
            r.is_some() == Self::recognized(tag@, len),
            r matches Some(c) ==> Self::chunk_for(c, tag@, len),
    ;
}

/// A chunk set that recognizes nothing: traversing with it only skips.
pub(crate) struct NullChunks;

impl ParseChunkTag for NullChunks {
    open spec fn recognized(tag: Seq<u8>, len: u32) -> bool {
        false
    }

    open spec fn chunk_for(c: Self, tag: Seq<u8>, len: u32) -> bool {
        false
    }

    open spec fn len_big_endian() -> bool {
        false
    }

    fn len_is_big_endian() -> (r: bool) {
        false
    }

    fn parse_tag(tag: [u8; 4], len: u32) -> (r: Option<Self>) {
        None
    }
}

/// The declared length field of the chunk header at `i`, read in the byte
/// order of the chunk set `T`.
pub open spec fn header_len_at<T: ParseChunkTag>(d: Seq<u8>, i: int) -> int {
    if T::len_big_endian() {
        be32(d, i)
    } else {
        le32(d, i)
    }
}

/// What one call of `ChunksReader::next` comes to. `consumed` and `pos`
/// record the region accounting and the cursor when the call returns.
pub enum ScanOutcome {
    /// Fewer than 8 bytes remain in the region: a clean end of traversal.
    NoMore { consumed: u32, pos: int },
    /// A recognized chunk header was read; its payload is still unread.
    Found { tag: Seq<u8>, len: u32, consumed: u32, pos: int },
    /// A declared child length exceeds what remains of the region, and the
    /// unknown-length sentinel does not apply: a decode error.
    TooLong { consumed: u32, pos: int },
    /// The source ended inside a pad byte, a header, or a skipped payload.
    ShortRead,
}

/// One traversal step over the region `[.., len]` with `consumed` bytes
/// already accounted, the cursor at `pos` in the byte string `d`: when
/// the bytes consumed so far are odd in number, exactly one pad byte is
/// consumed first (chunks are 2-byte aligned), and the chunk header is
/// then read by `scan_aligned`; after an even count no pad byte is
/// touched.
pub open spec fn scan<T: ParseChunkTag>(d: Seq<u8>, pos: int, len: u32, consumed: u32) -> ScanOutcome
    decreases len - consumed, 1int,
{
    if consumed % 2 == 1 && consumed < len {
        if pos >= d.len() {
            ScanOutcome::ShortRead
        } else {
            scan_aligned::<T>(d, pos + 1, len, (consumed + 1) as u32)
        }
    } else {
        scan_aligned::<T>(d, pos, len, consumed)
    }
}

/// The header step of a traversal:
///
/// 1. a region with fewer than 8 bytes left has no more chunks;
/// 2. an 8-byte header (tag, declared length) is read; a declared length
///    larger than what remains of the region is refused, except that a
///    region and a chunk both declaring the all-ones length stand for
///    "unknown, extends to the end of the source";
/// 3. a recognized tag yields a handle; an unrecognized chunk's payload is
///    skipped and the walk continues.
pub open spec fn scan_aligned<T: ParseChunkTag>(
    d: Seq<u8>,
    pos: int,
    len: u32,
    consumed: u32,
) -> ScanOutcome
    decreases len - consumed, 0int,
{
    if len - consumed < 8 {
        ScanOutcome::NoMore { consumed, pos }
    } else if pos + 8 > d.len() {
        ScanOutcome::ShortRead
    } else {
        let tag: Seq<u8> = d.subrange(pos, pos + 4);
        let clen: u32 = header_len_at::<T>(d, pos + 4) as u32;
        let c2: u32 = (consumed + 8) as u32;
        if clen > len - c2 && !(len == u32::MAX && clen == u32::MAX) {
            ScanOutcome::TooLong { consumed: c2, pos: pos + 8 }
        } else {
            let c3: u32 = if c2 + clen > u32::MAX {
                u32::MAX
            } else {
                (c2 + clen) as u32
            };
            if T::recognized(tag, clen) {
                ScanOutcome::Found { tag, len: clen, consumed: c3, pos: pos + 8 }
            } else if pos + 8 + clen > d.len() {
                ScanOutcome::ShortRead
            } else {
                scan::<T>(d, pos + 8 + clen, len, c3)
            }
        }
    }
}

/// The two-byte alignment rule, as the traversal keeps it: after an odd
/// number of consumed bytes exactly one pad byte is skipped before the
/// next header is read, and after an even number none is.
pub proof fn lemma_alignment_pad<T: ParseChunkTag>(d: Seq<u8>, pos: int, len: u32, consumed: u32)
    ensures
        consumed % 2 == 1 && consumed < len && pos < d.len() ==> scan::<T>(d, pos, len, consumed)
            == scan_aligned::<T>(d, pos + 1, len, (consumed + 1) as u32),
        consumed % 2 == 1 && consumed < len && pos >= d.len() ==> scan::<T>(d, pos, len, consumed)
            == ScanOutcome::ShortRead,
        !(consumed % 2 == 1 && consumed < len) ==> scan::<T>(d, pos, len, consumed)
            == scan_aligned::<T>(d, pos, len, consumed),
{
}


/// The declared-length check, as the traversal applies it to the header
/// at the cursor: a child length past what remains of the region is a
/// decode error, except that a region and a chunk both declaring the
/// all-ones length stand for "unknown, extends to the end of the source"
/// and are accepted.
pub proof fn lemma_declared_length_check<T: ParseChunkTag>(
    d: Seq<u8>,
    pos: int,
    len: u32,
    consumed: u32,
)
    requires
        len - consumed >= 8,
        pos + 8 <= d.len(),
    ensures
        ({
            let tag = d.subrange(pos, pos + 4);
            let clen = header_len_at::<T>(d, pos + 4) as u32;
            let c2 = (consumed + 8) as u32;
            &&& (clen > len - c2 && !(len == u32::MAX && clen == u32::MAX)
                ==> scan_aligned::<T>(d, pos, len, consumed) == ScanOutcome::TooLong {
                    consumed: c2,
                    pos: pos + 8,
                })
            &&& (len == u32::MAX && clen == u32::MAX && T::recognized(tag, clen)
                ==> scan_aligned::<T>(d, pos, len, consumed) == ScanOutcome::Found {
                    tag,
                    len: clen,
                    consumed: u32::MAX,
                    pos: pos + 8,
                })
        }),
{
}

/// Bounds on the accounting of one traversal step: what is consumed never
/// exceeds the declared region length, never shrinks, and strictly grows
/// when a chunk is found; the cursor never moves backwards.
pub proof fn lemma_scan_bounds<T: ParseChunkTag>(d: Seq<u8>, pos: int, len: u32, consumed: u32)
    requires
        consumed <= len,
    ensures
        ({
            match scan::<T>(d, pos, len, consumed) {
                ScanOutcome::NoMore { consumed: c, pos: p } => consumed <= c <= len && p >= pos,
                ScanOutcome::Found { tag, len: clen, consumed: c, pos: p } => consumed < c <= len
                    && p >= pos + 8,
                ScanOutcome::TooLong { consumed: c, pos: p } => consumed <= c <= len && p >= pos
                    + 8,
                ScanOutcome::ShortRead => true,
            }
        }),
    decreases len - consumed, 1int,
{
    if consumed % 2 == 1 && consumed < len {
        if pos < d.len() {
            lemma_scan_aligned_bounds::<T>(d, pos + 1, len, (consumed + 1) as u32);
        }
    } else {
        lemma_scan_aligned_bounds::<T>(d, pos, len, consumed);
    }
}

/// Bounds on the accounting of the header step, as `lemma_scan_bounds`.
pub proof fn lemma_scan_aligned_bounds<T: ParseChunkTag>(
    d: Seq<u8>,
    pos: int,
    len: u32,
    consumed: u32,
)
    requires
        consumed <= len,
    ensures
        ({
            match scan_aligned::<T>(d, pos, len, consumed) {
                ScanOutcome::NoMore { consumed: c, pos: p } => consumed <= c <= len && p >= pos,
                ScanOutcome::Found { tag, len: clen, consumed: c, pos: p } => consumed < c <= len
                    && p >= pos + 8,
                ScanOutcome::TooLong { consumed: c, pos: p } => consumed <= c <= len && p >= pos
                    + 8,
                ScanOutcome::ShortRead => true,
            }
        }),
    decreases len - consumed, 0int,
{
    if len - consumed < 8 {
    } else if pos + 8 > d.len() {
    } else {
        let tag: Seq<u8> = d.subrange(pos, pos + 4);
        let clen: u32 = header_len_at::<T>(d, pos + 4) as u32;
        let c2: u32 = (consumed + 8) as u32;
        if clen > len - c2 && !(len == u32::MAX && clen == u32::MAX) {
        } else {
            let c3: u32 = if c2 + clen > u32::MAX {
                u32::MAX
            } else {
                (c2 + clen) as u32
            };
            if T::recognized(tag, clen) {
            } else if pos + 8 + clen > d.len() {
            } else {
                lemma_scan_bounds::<T>(d, pos + 8 + clen, len, c3);
            }
        }
    }
}

/// `ChunksReader` reads chunks from a byte source, within a region of a
/// declared total byte length. It is generic across a type, usually an
/// enumeration, implementing the `ParseChunkTag` trait: when a chunk
/// header is read, `parse_tag` either returns a lazy handle for it or, for
/// an unrecognized tag, lets the reader skip the chunk and continue.
pub struct ChunksReader<T: ParseChunkTag> {
    len: u32,
    consumed: u32,
    phantom: PhantomData<T>,
}

impl<T: ParseChunkTag> ChunksReader<T> {
    /// The declared total byte length of the region.
    pub closed spec fn declared_len(&self) -> u32 {
        self.len
    }

    /// How many bytes of the region have been accounted for, headers and
    /// pad bytes included.
    pub closed spec fn consumed_bytes(&self) -> u32 {
        self.consumed
    }

    /// What is consumed never exceeds the declared region length.
    pub open spec fn wf(&self) -> bool {
        self.consumed_bytes() <= self.declared_len()
    }

    pub fn new(len: u32) -> (r: Self)
        ensures
            r.wf(),
            r.declared_len() == len,
            r.consumed_bytes() == 0,
    {
        ChunksReader { len, consumed: 0, phantom: PhantomData }
    }

    /// Produces the next recognized chunk as a lazy handle, `None` once
    /// fewer than a header's worth of bytes remain in the region, or an
    /// error. Exactly `scan` says which, and how the accounting moves.
    pub fn next(&mut self, reader: &mut BufSource) -> (r: Result<Option<T>, Error>)
        requires
            old(self).wf(),
            old(reader).wf(),
        ensures
            final(self).wf(),
            final(reader).wf(),
            final(self).declared_len() == old(self).declared_len(),
            final(self).consumed_bytes() >= old(self).consumed_bytes(),
            final(reader).bytes() == old(reader).bytes(),
            final(reader).seekable_spec() == old(reader).seekable_spec(),
            final(reader).position() >= old(reader).position(),
            ({
                let out = scan::<T>(
                    old(reader).bytes(),
                    old(reader).position(),
                    old(self).declared_len(),
                    old(self).consumed_bytes(),
                );
                match out {
                    ScanOutcome::NoMore { consumed, pos } => r == Ok::<Option<T>, Error>(None)
                        && final(self).consumed_bytes() == consumed && final(reader).position()
                        == pos,
                    ScanOutcome::Found { tag, len, consumed, pos } => (r matches Ok(Some(c))
                        && T::chunk_for(c, tag, len)) && final(self).consumed_bytes() == consumed
                        && final(reader).position() == pos,
                    ScanOutcome::TooLong { consumed, pos } => (r matches Err(e) && e matches
                        Error::Malformed(_)) && final(self).consumed_bytes() == consumed
                        && final(reader).position() == pos,
                    ScanOutcome::ShortRead => r == Err::<Option<T>, Error>(Error::ShortRead),
                }
            }),
    {
        loop
            invariant
                self.wf(),
                reader.wf(),
                self.declared_len() == old(self).declared_len(),
                self.consumed_bytes() >= old(self).consumed_bytes(),
                reader.bytes() == old(reader).bytes(),
                reader.seekable_spec() == old(reader).seekable_spec(),
                reader.position() >= old(reader).position(),
                scan::<T>(
                    reader.bytes(),
                    reader.position(),
                    self.declared_len(),
                    self.consumed_bytes(),
                ) == scan::<T>(
                    old(reader).bytes(),
                    old(reader).position(),
                    old(self).declared_len(),
                    old(self).consumed_bytes(),
                ),
            decreases self.declared_len() - self.consumed_bytes(),
        {
            // Align to the next 2-byte boundary if not currently aligned.
            if self.consumed % 2 == 1 && self.consumed < self.len {
                let _pad = reader.read_u8()?;
                self.consumed = self.consumed + 1;
            }
            // Check if there are enough bytes for another chunk header; if
            // not, there are no more chunks.
            if self.len - self.consumed < 8 {
                return Ok(None);
            }
            // Read tag and declared length: the chunk header.
            let tag = reader.read_quad_bytes()?;
            let clen = if T::len_is_big_endian() {
                reader.read_be_u32()?
            } else {
                reader.read_u32()?
            };
            self.consumed = self.consumed + 8;
            // The declared length is untrusted: check it against what
            // remains of the region before any arithmetic on it. A region
            // and a chunk both declaring the all-ones length stand for a
            // producer that could not know the size ahead of time.
            if self.len - self.consumed < clen {
                if !(self.len == u32::MAX && clen == u32::MAX) {
                    return Err(
                        Error::Malformed("chunk length exceeds parent (list) chunk length"),
                    );
                }
            }
            // The declared length has been validated, so consume the chunk.
            self.consumed = self.consumed.saturating_add(clen);
            match T::parse_tag(tag, clen) {
                Some(chunk) => {
                    return Ok(Some(chunk));
                },
                None => {
                    // Unknown chunks are to be ignored: skip the unread
                    // payload and continue with the next header.
                    reader.ignore_bytes(clen as u64)?;
                },
            }
        }
    }

    /// Skips whatever of the region is still unconsumed, and one trailing
    /// pad byte if the total declared region length is odd. Call exactly
    /// once, when done pulling chunks from the region.
    pub fn finish(&mut self, reader: &mut BufSource) -> (r: Result<(), Error>)
        requires
            old(self).wf(),
            old(reader).wf(),
        ensures
            final(self).wf(),
            final(reader).wf(),
            final(self).declared_len() == old(self).declared_len(),
            final(self).consumed_bytes() >= old(self).consumed_bytes(),
            final(reader).bytes() == old(reader).bytes(),
            final(reader).seekable_spec() == old(reader).seekable_spec(),
            ({
                let p = old(reader).position();
                let n = old(reader).bytes().len();
                let rem = old(self).declared_len() - old(self).consumed_bytes();
                if p + rem > n {
                    r == Err::<(), Error>(Error::ShortRead) && final(self).consumed_bytes() == old(self).consumed_bytes() && final(reader).position() == p
                } else if old(self).declared_len() % 2 == 1 {
                    if p + rem + 1 > n {
                        r == Err::<(), Error>(Error::ShortRead) && final(self).consumed_bytes()
                            == old(self).declared_len() && final(reader).position() == p + rem
                    } else {
                        r == Ok::<(), Error>(()) && final(self).consumed_bytes() == old(self).declared_len() && final(reader).position() == p + rem + 1
                    }
                } else {
                    r == Ok::<(), Error>(()) && final(self).consumed_bytes() == old(self).declared_len() && final(reader).position() == p + rem
                }
            }),
    {
        // If data is remaining in this region, skip it.
        if self.consumed < self.len {
            let remaining = self.len - self.consumed;
            reader.ignore_bytes(remaining as u64)?;
            self.consumed = self.consumed + remaining;
        }
        // Pad the region to the next 2-byte boundary.
        if self.len % 2 == 1 {
            let _pad = reader.read_u8()?;
        }
        Ok(())
    }
}

/// Common trait implemented for all chunks that are parsed by a
/// `ChunkParser`. `parses_to` is each implementation's own statement of
/// what its `parse` returns, over the source bytes it was given.
pub trait ParseChunk: Sized {
    /// Relates a parse result and the final cursor position to the bytes
    /// under the cursor when `parse` was called with this tag and length.
    spec fn parses_to(
        d: Seq<u8>,
        pos: int,
        tag: Seq<u8>,
        len: u32,
        r: Result<Self, Error>,
        newpos: int,
    ) -> bool;

    fn parse(reader: &mut BufSource, tag: [u8; 4], len: u32) -> (r: Result<Self, Error>)
        requires
            old(reader).wf(),
        ensures
            final(reader).wf(),
            final(reader).bytes() == old(reader).bytes(),
            final(reader).seekable_spec() == old(reader).seekable_spec(),
            final(reader).position() >= old(reader).position(),
            Self::parses_to(
                old(reader).bytes(),
                old(reader).position(),
                tag@,
                len,
                r,
                final(reader).position(),
            ),
    ;
}

/// `ChunkParser` is a lazy handle to one chunk: it carries the tag and
/// declared length from the header, and parses the payload on demand.
pub struct ChunkParser<P: ParseChunk> {
    tag: [u8; 4],
    len: u32,
    phantom: PhantomData<P>,
}

impl<P: ParseChunk> ChunkParser<P> {
    /// The 4-byte tag from the chunk header.
    pub closed spec fn tag_spec(&self) -> Seq<u8> {
        self.tag@
    }

    /// The declared payload length from the chunk header.
    pub closed spec fn len_spec(&self) -> u32 {
        self.len
    }

    pub(crate) fn new(tag: [u8; 4], len: u32) -> (r: Self)
        ensures
            r.tag_spec() == tag@,
            r.len_spec() == len,
    {
        ChunkParser { tag, len, phantom: PhantomData }
    }

    /// Parses the chunk's payload from the source, which must stand at the
    /// first byte after this chunk's header.
    pub fn parse(&self, reader: &mut BufSource) -> (r: Result<P, Error>)
        requires
            old(reader).wf(),
        ensures
            final(reader).wf(),
            final(reader).bytes() == old(reader).bytes(),
            final(reader).seekable_spec() == old(reader).seekable_spec(),
            final(reader).position() >= old(reader).position(),
            P::parses_to(
                old(reader).bytes(),
                old(reader).position(),
                self.tag_spec(),
                self.len_spec(),
                r,
                final(reader).position(),
            ),
    {
        P::parse(reader, self.tag, self.len)
    }
}

} // verus!
