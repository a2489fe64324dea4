use vstd::arithmetic::power2::{lemma2_to64, lemma_pow2_adds, lemma_pow2_strictly_increases, lemma_pow2_unfold, pow2};
use vstd::prelude::*;

verus! {

/// Mask of everything but the sign bit of a binary64 pattern.
pub const MAGNITUDE_MASK64: u64 = 0x7fff_ffff_ffff_ffff;

/// Mask of the fraction (stored significand) of a binary64 pattern.
pub const FRACTION_MASK64: u64 = 0x000f_ffff_ffff_ffff;

/// Largest biased exponent of binary64, used by NaN and the infinities.
pub const MAX_EXPONENT64: u64 = 0x7ff;

/// The class of a floating-point value, read from its bit pattern.
#[derive(Clone, Copy, Debug, PartialEq, Eq, Structural)]
pub enum FloatClass {
    Nan,
    PositiveInfinity,
    NegativeInfinity,
    PositiveZero,
    NegativeZero,
    Subnormal,
    Normal,
}

/// Sign bit of a binary64 pattern: 1 for negative.
pub open spec fn sign64(b: u64) -> u64 {
    b >> 63
}

/// Biased exponent field of a binary64 pattern.
pub open spec fn exponent64(b: u64) -> u64 {
    (b >> 52) & 0x7ff
}

/// Fraction field of a binary64 pattern.
pub open spec fn fraction64(b: u64) -> u64 {
    b & 0x000f_ffff_ffff_ffff
}

/// The pattern with the given sign, biased exponent and fraction.
pub open spec fn pattern64(sign: u64, exponent: u64, fraction: u64) -> u64 {
    (sign << 63) | (exponent << 52) | fraction
}

/// The class of a binary64 pattern, read from its exponent and fraction fields.
pub open spec fn class_of64(b: u64) -> FloatClass {
    if exponent64(b) == 0x7ff {
        if fraction64(b) != 0 {
            FloatClass::Nan
        } else if sign64(b) == 0 {
            FloatClass::PositiveInfinity
        } else {
            FloatClass::NegativeInfinity
        }
    } else if exponent64(b) == 0 {
        if fraction64(b) != 0 {
            FloatClass::Subnormal
        } else if sign64(b) == 0 {
            FloatClass::PositiveZero
        } else {
            FloatClass::NegativeZero
        }
    } else {
        FloatClass::Normal
    }
}

/// The fields of a pattern are in range.
pub proof fn lemma_fields64(b: u64)
    ensures
        sign64(b) < 2,
        exponent64(b) < 2048,
        fraction64(b) < 0x10_0000_0000_0000,
{
    assert(b >> 63 < 2) by (bit_vector);
    assert((b >> 52) & 0x7ff < 2048) by (bit_vector);
    assert(b & 0x000f_ffff_ffff_ffff < 0x10_0000_0000_0000) by (bit_vector);
}

/// Composing the fields of a pattern gives the pattern back.
pub proof fn lemma_compose_decompose64(b: u64)
    ensures
        pattern64(sign64(b), exponent64(b), fraction64(b)) == b,
{
    assert((((b >> 63) << 63) | ((((b >> 52) & 0x7ff)) << 52) | (b & 0x000f_ffff_ffff_ffff)) == b)
        by (bit_vector);
}

/// Decomposing a composed pattern gives its fields back.
pub proof fn lemma_decompose_compose64(sign: u64, exponent: u64, fraction: u64)
    requires
        sign < 2,
        exponent < 2048,
        fraction < 0x10_0000_0000_0000,
    ensures
        sign64(pattern64(sign, exponent, fraction)) == sign,
        exponent64(pattern64(sign, exponent, fraction)) == exponent,
        fraction64(pattern64(sign, exponent, fraction)) == fraction,
{
    let b = pattern64(sign, exponent, fraction);
    assert(((sign << 63) | (exponent << 52) | fraction) >> 63 == sign) by (bit_vector)
        requires
            sign < 2,
            exponent < 2048,
            fraction < 0x10_0000_0000_0000,
    ;
    assert((((sign << 63) | (exponent << 52) | fraction) >> 52) & 0x7ff == exponent)
        by (bit_vector)
        requires
            sign < 2,
            exponent < 2048,
            fraction < 0x10_0000_0000_0000,
    ;
    assert(((sign << 63) | (exponent << 52) | fraction) & 0x000f_ffff_ffff_ffff == fraction)
        by (bit_vector)
        requires
            sign < 2,
            exponent < 2048,
            fraction < 0x10_0000_0000_0000,
    ;
}

/// Splits a binary64 pattern into sign, biased exponent and fraction.
pub fn decompose64(b: u64) -> (r: (u64, u64, u64))
    ensures
        r == (sign64(b), exponent64(b), fraction64(b)),
        r.0 < 2,
        r.1 < 2048,
        r.2 < 0x10_0000_0000_0000,
{
    proof {
        lemma_fields64(b);
    }
    (b >> 63, (b >> 52) & MAX_EXPONENT64, b & FRACTION_MASK64)
}

/// Builds a binary64 pattern from sign, biased exponent and fraction.
pub fn compose64(sign: u64, exponent: u64, fraction: u64) -> (r: u64)
    requires
        sign < 2,
        exponent < 2048,
        fraction < 0x10_0000_0000_0000,
    ensures
        r == pattern64(sign, exponent, fraction),
        sign64(r) == sign,
        exponent64(r) == exponent,
        fraction64(r) == fraction,
{
    proof {
        lemma_decompose_compose64(sign, exponent, fraction);
    }
    (sign << 63) | (exponent << 52) | fraction
}

/// The pattern of the absolute value: the sign bit cleared.
pub fn abs64(b: u64) -> (r: u64)
    ensures
        r == pattern64(0, exponent64(b), fraction64(b)),
        r == b & 0x7fff_ffff_ffff_ffff,
        sign64(r) == 0,
        exponent64(r) == exponent64(b),
        fraction64(r) == fraction64(b),
{
    proof {
        lemma_fields64(b);
        lemma_decompose_compose64(0, exponent64(b), fraction64(b));
        assert(b & 0x7fff_ffff_ffff_ffff == ((0u64 << 63) | (((b >> 52) & 0x7ff) << 52) | (b
            & 0x000f_ffff_ffff_ffff))) by (bit_vector);
    }
    b & MAGNITUDE_MASK64
}

/// The class of a binary64 pattern.
pub fn classify64(b: u64) -> (r: FloatClass)
    ensures
        r == class_of64(b),
{
    let (sign, exponent, fraction) = decompose64(b);
    if exponent == MAX_EXPONENT64 {
        if fraction != 0 {
            FloatClass::Nan
        } else if sign == 0 {
            FloatClass::PositiveInfinity
        } else {
            FloatClass::NegativeInfinity
        }
    } else if exponent == 0 {
        if fraction != 0 {
            FloatClass::Subnormal
        } else if sign == 0 {
            FloatClass::PositiveZero
        } else {
            FloatClass::NegativeZero
        }
    } else {
        FloatClass::Normal
    }
}

/// Sign bit of a binary32 pattern: 1 for negative.
pub open spec fn sign32(b: u32) -> u32 {
    b >> 31
}

/// Biased exponent field of a binary32 pattern.
pub open spec fn exponent32(b: u32) -> u32 {
    (b >> 23) & 0xff
}

/// Fraction field of a binary32 pattern.
pub open spec fn fraction32(b: u32) -> u32 {
    b & 0x7f_ffff
}

/// The class of a binary32 pattern, read from its exponent and fraction fields.
pub open spec fn class_of32(b: u32) -> FloatClass {
    if exponent32(b) == 0xff {
        if fraction32(b) != 0 {
            FloatClass::Nan
        } else if sign32(b) == 0 {
            FloatClass::PositiveInfinity
        } else {
            FloatClass::NegativeInfinity
        }
    } else if exponent32(b) == 0 {
        if fraction32(b) != 0 {
            FloatClass::Subnormal
        } else if sign32(b) == 0 {
            FloatClass::PositiveZero
        } else {
            FloatClass::NegativeZero
        }
    } else {
        FloatClass::Normal
    }
}

/// A finite binary64 value is `(-1)^sign * significand64(b) * 2^scale64(b)`.
pub open spec fn significand64(b: u64) -> int {
    if exponent64(b) == 0 {
        fraction64(b) as int
    } else {
        fraction64(b) + 0x10_0000_0000_0000
    }
}

pub open spec fn scale64(b: u64) -> int {
    if exponent64(b) == 0 {
        -1074
    } else {
        exponent64(b) - 1075
    }
}

/// A finite binary32 value is `(-1)^sign * significand32(b) * 2^scale32(b)`.
pub open spec fn significand32(b: u32) -> int {
    if exponent32(b) == 0 {
        fraction32(b) as int
    } else {
        fraction32(b) + 0x80_0000
    }
}

pub open spec fn scale32(b: u32) -> int {
    if exponent32(b) == 0 {
        -149
    } else {
        exponent32(b) - 150
    }
}

/// The binary64 pattern `w` stands for the same real number as the finite binary32
/// pattern `b`: same sign, and equal magnitudes once both are put on the finer scale.
pub open spec fn same_value(b: u32, w: u64) -> bool {
    &&& sign64(w) == sign32(b)
    &&& scale64(w) <= scale32(b)
    &&& significand64(w) == significand32(b) * pow2((scale32(b) - scale64(w)) as nat)
}

/// What widening a binary32 value to binary64 gives: the same class (a subnormal
/// becomes normal), the same sign, the same value when finite, and the NaN payload
/// moved to the top of the wider fraction.
pub open spec fn widens_to(b: u32, w: u64) -> bool {
    &&& sign64(w) == sign32(b)
    &&& class_of64(w) == (if class_of32(b) == FloatClass::Subnormal {
        FloatClass::Normal
    } else {
        class_of32(b)
    })
    &&& exponent32(b) != 0xff ==> same_value(b, w)
    &&& class_of32(b) == FloatClass::Nan ==> fraction64(w) == fraction32(b) * 0x2000_0000
    &&& class_of32(b) == FloatClass::Normal ==> {
        &&& exponent64(w) == exponent32(b) + 896
        &&& fraction64(w) == fraction32(b) * 0x2000_0000
    }
    &&& class_of32(b) == FloatClass::Subnormal ==> exponent64(w) <= 896
}

/// The fields of a binary32 pattern are in range.
pub proof fn lemma_fields32(b: u32)
    ensures
        sign32(b) < 2,
        exponent32(b) < 256,
        fraction32(b) < 0x80_0000,
{
    assert(b >> 31 < 2) by (bit_vector);
    assert((b >> 23) & 0xff < 256) by (bit_vector);
    assert(b & 0x7f_ffff < 0x80_0000) by (bit_vector);
}

/// Splits a binary32 pattern into sign, biased exponent and fraction.
pub fn decompose32(b: u32) -> (r: (u32, u32, u32))
    ensures
        r == (sign32(b), exponent32(b), fraction32(b)),
        r.0 < 2,
        r.1 < 256,
        r.2 < 0x80_0000,
{
    proof {
        lemma_fields32(b);
    }
    (b >> 31, (b >> 23) & 0xff, b & 0x7f_ffff)
}

/// The class of a binary32 pattern.
pub fn classify32(b: u32) -> (r: FloatClass)
    ensures
        r == class_of32(b),
{
    let (sign, exponent, fraction) = decompose32(b);
    if exponent == 0xff {
        if fraction != 0 {
            FloatClass::Nan
        } else if sign == 0 {
            FloatClass::PositiveInfinity
        } else {
            FloatClass::NegativeInfinity
        }
    } else if exponent == 0 {
        if fraction != 0 {
            FloatClass::Subnormal
        } else if sign == 0 {
            FloatClass::PositiveZero
        } else {
            FloatClass::NegativeZero
        }
    } else {
        FloatClass::Normal
    }
}

/// The binary64 pattern of a binary32 value: the exact widening conversion.
pub fn widen32(b: u32) -> (r: u64)
    ensures
        widens_to(b, r),
{
    let (sign, exponent, fraction) = decompose32(b);
    let sign = sign as u64;
    let exponent = exponent as u64;
    let fraction = fraction as u64;
    proof {
        lemma2_to64();
        assert(fraction << 29 == fraction * 0x2000_0000) by (bit_vector)
            requires
                fraction < 0x80_0000,
        ;
    }
    if exponent == 0xff {
        let r = compose64(sign, MAX_EXPONENT64, fraction << 29);
        assert(class_of32(b) == FloatClass::Nan ==> class_of64(r) == FloatClass::Nan);
        r
    } else if exponent == 0 {
        if fraction == 0 {
            let r = compose64(sign, 0, 0);
            assert(significand64(r) == 0 && scale64(r) == -1074);
            assert(significand32(b) == 0);
            assert(significand32(b) * pow2((scale32(b) - scale64(r)) as nat) == 0);
            r
        } else {
            // A subnormal binary32 value is normal in binary64: shift its significand
            // until the leading one reaches the implicit bit, lowering the exponent by
            // one for each shift.
            let mut m: u64 = fraction;
            let mut k: u64 = 0;
            while m < 0x80_0000
                invariant
                    1 <= fraction < 0x80_0000,
                    1 <= m < 0x100_0000,
                    k <= 23,
                    m == fraction * pow2(k as nat),
                    pow2(k as nat) <= m,
                decreases 23 - k,
            {
                proof {
                    lemma2_to64();
                    if k >= 23 {
                        if k > 23 {
                            lemma_pow2_strictly_increases(23, k as nat);
                        }
                        assert(false);
                    }
                    lemma_pow2_unfold((k + 1) as nat);
                    assert(fraction * pow2((k + 1) as nat) == (fraction * pow2(k as nat)) * 2)
                        by (nonlinear_arith)
                        requires
                            pow2((k + 1) as nat) == 2 * pow2(k as nat),
                    ;
                }
                m = m * 2;
                k = k + 1;
            }
            let low: u64 = m - 0x80_0000;
            let top = low << 29;
            proof {
                assert(low << 29 == low * 0x2000_0000) by (bit_vector)
                    requires
                        low < 0x80_0000,
                ;
                lemma_pow2_adds(29, k as nat);
                assert(fraction * pow2((29 + k) as nat) == m * 0x2000_0000) by (nonlinear_arith)
                    requires
                        pow2((29 + k) as nat) == pow2(29) * pow2(k as nat),
                        pow2(29) == 0x2000_0000,
                        m == fraction * pow2(k as nat),
                ;
            }
            let r = compose64(sign, 897 - k, top);
            assert(significand64(r) == m * 0x2000_0000);
            assert(scale32(b) - scale64(r) == 29 + k);
            assert(significand64(r) == significand32(b) * pow2((scale32(b) - scale64(r)) as nat));
            r
        }
    } else {
        let r = compose64(sign, exponent + 896, fraction << 29);
        assert(significand64(r) == significand32(b) * 0x2000_0000);
        assert(scale32(b) - scale64(r) == 29);
        assert(significand64(r) == significand32(b) * pow2((scale32(b) - scale64(r)) as nat));
        r
    }
}

} // verus!
