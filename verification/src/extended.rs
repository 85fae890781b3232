use vstd::prelude::*;
use vstd::arithmetic::power2::{lemma2_to64, lemma2_to64_rest, lemma_pow2_pos,
    lemma_pow2_strictly_increases, pow2};
use vstd::arithmetic::div_mod::lemma_basic_div;
use vstd::arithmetic::mul::lemma_mul_inequality;
use vstd::bits::{lemma_u64_shl_is_mul, lemma_u64_shr_is_div};

verus! {

/// Whether the sign bit of an 80-bit extended-precision value is set.
pub open spec fn ext_sign(b: Seq<u8>) -> bool {
    b[0] & 0x80 != 0
}

/// The 15-bit biased exponent of an 80-bit extended-precision value.
pub open spec fn ext_exponent(b: Seq<u8>) -> int {
    (b[0] & 0x7f) * 0x100 + b[1]
}

/// The 64-bit mantissa of an 80-bit extended-precision value, integer bit
/// explicit.
pub open spec fn ext_mantissa(b: Seq<u8>) -> int {
    let m2: int = b[2] as int;
    let m3: int = m2 * 0x100 + b[3] as int;
    let m4: int = m3 * 0x100 + b[4] as int;
    let m5: int = m4 * 0x100 + b[5] as int;
    let m6: int = m5 * 0x100 + b[6] as int;
    let m7: int = m6 * 0x100 + b[7] as int;
    let m8: int = m7 * 0x100 + b[8] as int;
    m8 * 0x100 + b[9] as int
}

/// The value `mantissa * 2^(exponent - 16383 - 63)` of a non-negative
/// finite 80-bit extended-precision number, rounded down to a whole
/// number. The bias is 16383, and the 64-bit mantissa carries 63
/// fractional bits.
pub open spec fn ext_value_floor(b: Seq<u8>) -> int {
    if ext_exponent(b) >= 16446 {
        ext_mantissa(b) * pow2((ext_exponent(b) - 16446) as nat)
    } else {
        ext_mantissa(b) / pow2((16446 - ext_exponent(b)) as nat) as int
    }
}

/// The sample rate that an 80-bit extended-precision field decodes to:
/// whole samples per second, saturated to the 32-bit range. A negative
/// value, an infinity or a not-a-number (exponent all ones) has no use as
/// a sample rate and is refused.
#[verifier::opaque]
pub open spec fn extended_rate(b: Seq<u8>) -> Option<u32> {
    if ext_sign(b) || ext_exponent(b) == 0x7fff {
        None
    } else if ext_value_floor(b) > u32::MAX {
        Some(u32::MAX)
    } else {
        Some(ext_value_floor(b) as u32)
    }
}

/// Decodes the 10-byte extended-precision sample-rate field of a common
/// chunk into whole samples per second, without floating-point
/// arithmetic: the mantissa is shifted by the unbiased exponent, rounding
/// down and saturating to the 32-bit range.
pub fn parse_extended_precision_bytes(b: [u8; 10]) -> (r: Result<u32, ()>)
    ensures
        ({
            match extended_rate(b@) {
                Some(v) => r == Ok::<u32, ()>(v),
                None => r == Err::<u32, ()>(()),
            }
        }),
{
    proof {
        reveal(extended_rate);
    }
    let exp: u32 = ((b[0] & 0x7f) as u32) * 0x100 + (b[1] as u32);
    let m2: u64 = b[2] as u64;
    let m3: u64 = m2 * 0x100 + (b[3] as u64);
    let m4: u64 = m3 * 0x100 + (b[4] as u64);
    let m5: u64 = m4 * 0x100 + (b[5] as u64);
    let m6: u64 = m5 * 0x100 + (b[6] as u64);
    let m7: u64 = m6 * 0x100 + (b[7] as u64);
    let m8: u64 = m7 * 0x100 + (b[8] as u64);
    let m: u64 = m8 * 0x100 + (b[9] as u64);
    if b[0] & 0x80 != 0 {
        return Err(());
    }
    if exp == 0x7fff {
        return Err(());
    }
    if exp >= 16446 {
        let shift: u32 = exp - 16446;
        proof {
            lemma_pow2_pos(shift as nat);
        }
        if m == 0 {
            proof {
                assert(ext_mantissa(b@) == 0);
                assert(ext_value_floor(b@) == 0);
            }
            return Ok(0);
        }
        if shift >= 32 {
            // The value is at least 2^32, past the 32-bit range.
            proof {
                lemma2_to64();
                if shift > 32 {
                    lemma_pow2_strictly_increases(32, shift as nat);
                }
                lemma_mul_inequality(1, m as int, pow2(shift as nat) as int);
            }
            return Ok(u32::MAX);
        }
        if m > 0xffff_ffff {
            // Even unshifted the mantissa is past the 32-bit range.
            proof {
                lemma_mul_inequality(1, pow2(shift as nat) as int, m as int);
            }
            return Ok(u32::MAX);
        }
        proof {
            lemma2_to64();
            if shift < 31 {
                lemma_pow2_strictly_increases(shift as nat, 31);
            }
            assert(m * pow2(shift as nat) <= 0xffff_ffffu64 * 0x8000_0000u64)
                by (nonlinear_arith)
                requires
                    m <= 0xffff_ffffu64,
                    pow2(shift as nat) <= 0x8000_0000u64,
            ;
            lemma_u64_shl_is_mul(m, shift as u64);
        }
        let v: u64 = m << (shift as u64);
        if v > 0xffff_ffff {
            Ok(u32::MAX)
        } else {
            Ok(v as u32)
        }
    } else {
        let k: u32 = 16446 - exp;
        proof {
            lemma_pow2_pos(k as nat);
        }
        if k >= 64 {
            // The value is below 1: it floors to zero.
            proof {
                lemma2_to64();
                lemma2_to64_rest();
                if k > 64 {
                    lemma_pow2_strictly_increases(64, k as nat);
                }
                lemma_basic_div(m as int, pow2(k as nat) as int);
            }
            return Ok(0);
        }
        proof {
            lemma_u64_shr_is_div(m, k as u64);
        }
        let v: u64 = m >> (k as u64);
        if v > 0xffff_ffff {
            Ok(u32::MAX)
        } else {
            Ok(v as u32)
        }
    }
}

} // verus!
