use vstd::prelude::*;
use crate::source::{be16, be32, BufSource};

verus! {

/// Reads one byte as a signed value. The caller must know a byte remains.
pub fn read_i8_be(r: &mut BufSource) -> (v: i8)
    requires
        old(r).wf(),
        old(r).remaining_spec() >= 1,
    ensures
        final(r).wf(),
        final(r).bytes() == old(r).bytes(),
        final(r).seekable_spec() == old(r).seekable_spec(),
        final(r).position() == old(r).position() + 1,
        v == old(r).bytes()[old(r).position()] as i8,
{
    match r.read_u8() {
        Ok(b) => b as i8,
        Err(_) => {
            proof {
                assert(false);
            }
            0
        },
    }
}

/// Reads a big-endian signed 16-bit value. The caller must know two bytes
/// remain.
pub fn read_i16_be(r: &mut BufSource) -> (v: i16)
    requires
        old(r).wf(),
        old(r).remaining_spec() >= 2,
    ensures
        final(r).wf(),
        final(r).bytes() == old(r).bytes(),
        final(r).seekable_spec() == old(r).seekable_spec(),
        final(r).position() == old(r).position() + 2,
        v == be16(old(r).bytes(), old(r).position()) as u16 as i16,
{
    match r.read_be_u16() {
        Ok(b) => b as i16,
        Err(_) => {
            proof {
                assert(false);
            }
            0
        },
    }
}

/// Reads a big-endian signed 32-bit value. The caller must know four
/// bytes remain.
pub fn read_i32_be(r: &mut BufSource) -> (v: i32)
    requires
        old(r).wf(),
        old(r).remaining_spec() >= 4,
    ensures
        final(r).wf(),
        final(r).bytes() == old(r).bytes(),
        final(r).seekable_spec() == old(r).seekable_spec(),
        final(r).position() == old(r).position() + 4,
        v == be32(old(r).bytes(), old(r).position()) as u32 as i32,
{
    match r.read_be_u32() {
        Ok(b) => b as i32,
        Err(_) => {
            proof {
                assert(false);
            }
            0
        },
    }
}

} // verus!
