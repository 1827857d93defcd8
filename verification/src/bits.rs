//! The numeric ground floor of the pipeline.
//!
//! Every frequency, duration, velocity and sample in this crate is an
//! IEEE-754 single-precision value carried as its raw 32-bit pattern
//! (`u32`).  Classifying a pattern (infinity, NaN), sanitizing it, and
//! truncating it to a sample count are plain integer work and are verified
//! here.  Multiplication, division, addition, conversion from an integer
//! and parsing from text are performed by `rustc_apfloat` behind trusted
//! wrappers; each result is named by an uninterpreted spec function, so
//! contracts up the stack can say exactly which operation produced a value
//! without this crate restating floating-point arithmetic.

use vstd::prelude::*;
use vstd::arithmetic::power2::{pow2, lemma2_to64, lemma2_to64_rest, lemma_pow2_adds, lemma_pow2_unfold, lemma_pow2_strictly_increases, lemma_pow2_pos};
use rustc_apfloat::Float;
use core::str::FromStr;

verus! {

/// Bit pattern of 0.0.
pub const ZERO_BITS: u32 = 0x0000_0000;

/// Bit pattern of 1.0.
pub const ONE_BITS: u32 = 0x3F80_0000;

/// Bit pattern of 440.0, the column's base frequency.
pub const BASE_FREQ_BITS: u32 = 0x43DC_0000;

/// Bit pattern of 44100.0, the sample rate as a value.
pub const RATE_BITS: u32 = 0x472C_4400;

/// The sample rate in samples per second.
pub const SAMPLE_RATE: usize = 44100;

/// Bit pattern of positive infinity.
pub const POS_INF_BITS: u32 = 0x7F80_0000;

/// Bit pattern of negative infinity.
pub const NEG_INF_BITS: u32 = 0xFF80_0000;

/// Bit pattern of the largest finite value.
pub const MAX_FINITE_BITS: u32 = 0x7F7F_FFFF;

/// Bit pattern of the smallest finite value (the negative of the largest).
pub const MIN_FINITE_BITS: u32 = 0xFF7F_FFFF;

/// The pattern with the sign bit cleared.
pub open spec fn abs_bits(x: u32) -> u32 {
    x & 0x7FFF_FFFF
}

/// A pattern is a NaN when its exponent field is all ones and its
/// significand field is not zero.
pub open spec fn is_nan_bits(x: u32) -> bool {
    abs_bits(x) > 0x7F80_0000
}

/// What the product of two patterns is: `rustc_apfloat`'s single-precision
/// multiplication, round to nearest, ties to even.
pub uninterp spec fn spec_mul_bits(a: u32, b: u32) -> u32;

/// What the quotient of two patterns is: `rustc_apfloat`'s single-precision
/// division, round to nearest, ties to even.
pub uninterp spec fn spec_div_bits(a: u32, b: u32) -> u32;

/// What the sum of two patterns is: `rustc_apfloat`'s single-precision
/// addition, round to nearest, ties to even.
pub uninterp spec fn spec_add_bits(a: u32, b: u32) -> u32;

/// What an unsigned integer converts to: `rustc_apfloat`'s conversion to
/// single precision, round to nearest, ties to even.
pub uninterp spec fn spec_uint_bits(n: usize) -> u32;

/// What a numeric token parses to, or `None` when the text is not a
/// number: `rustc_apfloat`'s single-precision string conversion.
pub uninterp spec fn spec_parse_bits(s: Seq<char>) -> Option<u32>;

/// Relies on `rustc_apfloat::ieee::Single`'s `Mul`: the IEEE-754 single
/// product of the two patterns, depending on the arguments alone.
#[verifier::external_body]
pub fn mul_bits(a: u32, b: u32) -> (r: u32)
    ensures
        r == spec_mul_bits(a, b),
{
    let x = rustc_apfloat::ieee::Single::from_bits(a as u128);
    let y = rustc_apfloat::ieee::Single::from_bits(b as u128);
    (x * y).value.to_bits() as u32
}

/// Relies on `rustc_apfloat::ieee::Single`'s `Div`: the IEEE-754 single
/// quotient of the two patterns, depending on the arguments alone.
#[verifier::external_body]
pub fn div_bits(a: u32, b: u32) -> (r: u32)
    ensures
        r == spec_div_bits(a, b),
{
    let x = rustc_apfloat::ieee::Single::from_bits(a as u128);
    let y = rustc_apfloat::ieee::Single::from_bits(b as u128);
    (x / y).value.to_bits() as u32
}

/// Relies on `rustc_apfloat::ieee::Single`'s `Add`: the IEEE-754 single
/// sum of the two patterns, depending on the arguments alone.  IEEE-754
/// addition of two positive zeros is exact, so that sum is again the
/// zero pattern.
#[verifier::external_body]
pub fn add_bits(a: u32, b: u32) -> (r: u32)
    ensures
        r == spec_add_bits(a, b),
        a == ZERO_BITS && b == ZERO_BITS ==> r == ZERO_BITS,
{
    let x = rustc_apfloat::ieee::Single::from_bits(a as u128);
    let y = rustc_apfloat::ieee::Single::from_bits(b as u128);
    (x + y).value.to_bits() as u32
}

/// Relies on `rustc_apfloat::ieee::Single::from_u128`: the pattern nearest
/// to the given integer, depending on the argument alone.
#[verifier::external_body]
pub fn uint_bits(n: usize) -> (r: u32)
    ensures
        r == spec_uint_bits(n),
{
    rustc_apfloat::ieee::Single::from_u128(n as u128).value.to_bits() as u32
}

/// Relies on `rustc_apfloat::ieee::Single::from_str`: the pattern a numeric
/// token denotes, or `None` when the token is not one, depending on the
/// argument alone.
#[verifier::external_body]
pub fn parse_bits(s: &str) -> (r: Option<u32>)
    ensures
        r == spec_parse_bits(s@),
{
    match rustc_apfloat::ieee::Single::from_str(s) {
        Ok(v) => Some(v.to_bits() as u32),
        Err(_) => None,
    }
}

/// Relies on `fastrand::usize`: a draw from the half-open range starting
/// at one.  Nothing more is assumed of the draw than its range.
#[verifier::external_body]
pub fn rand_below(bound: usize) -> (r: usize)
    requires
        2 <= bound,
    ensures
        1 <= r < bound,
{
    fastrand::usize(1..bound)
}

/// What sanitizing does to one channel of a mixed sample: positive
/// infinity becomes the largest finite value, negative infinity the
/// smallest, a NaN becomes zero, and every other pattern passes through.
pub open spec fn spec_sanitize(x: u32) -> u32 {
    if x == POS_INF_BITS {
        MAX_FINITE_BITS
    } else if x == NEG_INF_BITS {
        MIN_FINITE_BITS
    } else if is_nan_bits(x) {
        ZERO_BITS
    } else {
        x
    }
}

/// Sanitize one channel of a mixed sample.
pub fn sanitize_bits(x: u32) -> (r: u32)
    ensures
        r == spec_sanitize(x),
{
    if x == POS_INF_BITS {
        MAX_FINITE_BITS
    } else if x == NEG_INF_BITS {
        MIN_FINITE_BITS
    } else if (x & 0x7FFF_FFFF) > 0x7F80_0000 {
        ZERO_BITS
    } else {
        x
    }
}

/// The sample count a duration pattern stands for: the value truncated
/// toward zero and saturated to `usize`, with NaN and every negative
/// pattern giving zero.  This mirrors Rust's saturating float-to-integer
/// cast, written out over the bit fields.
pub open spec fn spec_bits_to_len(x: u32) -> nat {
    if x >= 0x8000_0000 {
        0
    } else if x > 0x7F80_0000 {
        0
    } else if x == 0x7F80_0000 {
        usize::MAX as nat
    } else {
        let e = x >> 23;
        if e < 127 {
            0
        } else {
            let sig = ((x & 0x007F_FFFF) + 0x0080_0000) as nat;
            if e >= 150 {
                let v = sig * pow2((e - 150) as nat);
                if v > usize::MAX as nat {
                    usize::MAX as nat
                } else {
                    v
                }
            } else {
                sig / pow2((150 - e) as nat)
            }
        }
    }
}

/// Two raised to a small power.
fn pow2_u64(k: u32) -> (r: u64)
    requires
        k <= 63,
    ensures
        r == pow2(k as nat),
{
    let mut r: u64 = 1;
    let mut i: u32 = 0;
    proof {
        lemma2_to64();
    }
    while i < k
        invariant
            i <= k <= 63,
            r == pow2(i as nat),
        decreases k - i,
    {
        proof {
            lemma_pow2_unfold((i + 1) as nat);
            lemma_pow2_strictly_increases((i + 1) as nat, 64);
            lemma2_to64();
        }
        r = r * 2;
        i = i + 1;
    }
    r
}

/// Truncate a duration pattern to a sample count.
pub fn bits_to_len(x: u32) -> (r: usize)
    ensures
        r == spec_bits_to_len(x),
{
    if x >= 0x8000_0000 {
        return 0;
    }
    if x > 0x7F80_0000 {
        return 0;
    }
    if x == 0x7F80_0000 {
        return usize::MAX;
    }
    let e: u32 = x >> 23;
    if e < 127 {
        return 0;
    }
    assert(e <= 254) by (bit_vector)
        requires
            x < 0x7F80_0000u32,
            e == x >> 23u32,
    ;
    assert(x & 0x007F_FFFF <= 0x007F_FFFF) by (bit_vector);
    let sig32: u32 = (x & 0x007F_FFFF) + 0x0080_0000;
    let sig: u64 = sig32 as u64;
    if e >= 150 {
        let k: u32 = e - 150;
        if k > 40 {
            proof {
                lemma2_to64();
                lemma2_to64_rest();
                if k > 41 {
                    lemma_pow2_strictly_increases(41, k as nat);
                }
                lemma_pow2_adds(23, 41);
                assert(sig * pow2(k as nat) >= 0x0080_0000 * pow2(41)) by (nonlinear_arith)
                    requires
                        sig >= 0x0080_0000,
                        pow2(k as nat) >= pow2(41),
                ;
            }
            return usize::MAX;
        }
        let p: u64 = pow2_u64(k);
        proof {
            lemma2_to64();
            lemma2_to64_rest();
            if k < 40 {
                lemma_pow2_strictly_increases(k as nat, 40);
            }
            assert(sig * p <= 0x00FF_FFFF * 0x100_0000_0000) by (nonlinear_arith)
                requires
                    sig <= 0x00FF_FFFF,
                    p <= 0x100_0000_0000,
            ;
        }
        let v: u64 = sig * p;
        if v > usize::MAX as u64 {
            usize::MAX
        } else {
            v as usize
        }
    } else {
        let k: u32 = 150 - e;
        let p: u64 = pow2_u64(k);
        proof {
            lemma_pow2_pos(k as nat);
            assert(sig / p <= sig) by (nonlinear_arith)
                requires
                    p >= 1,
                    sig >= 0,
            ;
        }
        (sig / p) as usize
    }
}

} // verus!
