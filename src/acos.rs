use crate::bits::{
    abs64, class_of32, class_of64, exponent32, exponent64, fraction32, fraction64, pattern64,
    sign32, sign64, widen32, widens_to, FloatClass,
};
use vstd::prelude::*;

verus! {

/// Pattern of 1.0 in binary64: the largest magnitude in the domain of the arc cosine.
pub const ONE64: u64 = 0x3ff0_0000_0000_0000;

/// What the arc cosine of a value comes to, given the arc sine of a value in [0, 1].
///
/// The arc cosine is derived from the arc sine by the half-domain identities
/// `acos(x) = pi/2 - asin(x)` for `x > 0` and `acos(x) = pi/2 + asin(|x|)` otherwise,
/// so that the arc sine is only ever asked for arguments in [0, 1].
#[derive(Clone, Copy, Debug, PartialEq, Eq, Structural)]
pub enum AcosStep {
    /// The input is NaN or lies outside [-1, 1]: the result is NaN.
    Invalid,
    /// The result is `pi/2 - asin(a)` for the binary64 pattern `a`.
    HalfPiMinusAsin(u64),
    /// The result is `pi/2 + asin(a)` for the binary64 pattern `a`.
    HalfPiPlusAsin(u64),
}

/// The magnitude of the binary64 value is greater than one (infinities and NaN included).
pub open spec fn exceeds_one64(b: u64) -> bool {
    exponent64(b) > 1023 || (exponent64(b) == 1023 && fraction64(b) != 0)
}

/// The magnitude of the binary32 value is greater than one (infinities and NaN included).
pub open spec fn exceeds_one32(b: u32) -> bool {
    exponent32(b) > 127 || (exponent32(b) == 127 && fraction32(b) != 0)
}

/// The binary64 value is greater than zero (NaN is not).
pub open spec fn is_positive64(b: u64) -> bool {
    sign64(b) == 0 && class_of64(b) != FloatClass::PositiveZero && class_of64(b) != FloatClass::Nan
}

/// The binary32 value is greater than zero (NaN is not).
pub open spec fn is_positive32(b: u32) -> bool {
    sign32(b) == 0 && class_of32(b) != FloatClass::PositiveZero && class_of32(b) != FloatClass::Nan
}

/// The binary64 value lies in [0, 1], with no negative zero.
pub open spec fn in_unit64(b: u64) -> bool {
    sign64(b) == 0 && class_of64(b) != FloatClass::Nan && !exceeds_one64(b)
}

/// The step that the arc cosine of the binary64 value `b` takes.
pub open spec fn acos_step_of(b: u64) -> AcosStep {
    if class_of64(b) == FloatClass::Nan || exceeds_one64(b) {
        AcosStep::Invalid
    } else if is_positive64(b) {
        AcosStep::HalfPiMinusAsin(b)
    } else {
        AcosStep::HalfPiPlusAsin(pattern64(0, exponent64(b), fraction64(b)))
    }
}

/// Decides how the arc cosine of the binary64 value `x` is computed.
pub fn acos(x: u64) -> (r: AcosStep)
    ensures
        r == acos_step_of(x),
        class_of64(x) == FloatClass::Nan ==> r == AcosStep::Invalid,
        r == AcosStep::Invalid <==> class_of64(x) == FloatClass::Nan || exceeds_one64(x),
        match r {
            AcosStep::Invalid => true,
            AcosStep::HalfPiMinusAsin(a) => in_unit64(a) && a == x,
            AcosStep::HalfPiPlusAsin(a) => in_unit64(a) && exponent64(a) == exponent64(x)
                && fraction64(a) == fraction64(x),
        },
{
    let magnitude = abs64(x);
    proof {
        assert((x & 0x7fff_ffff_ffff_ffff > 0x3ff0_0000_0000_0000) == (((x >> 52) & 0x7ff) > 1023
            || (((x >> 52) & 0x7ff) == 1023 && x & 0x000f_ffff_ffff_ffff != 0))) by (bit_vector);
        assert((x & 0x7fff_ffff_ffff_ffff == 0) == (((x >> 52) & 0x7ff) == 0 && x
            & 0x000f_ffff_ffff_ffff == 0)) by (bit_vector);
        assert(magnitude == x & 0x7fff_ffff_ffff_ffff);
    }
    if magnitude > ONE64 {
        AcosStep::Invalid
    } else if x >> 63 == 0 && magnitude != 0 {
        AcosStep::HalfPiMinusAsin(x)
    } else {
        AcosStep::HalfPiPlusAsin(magnitude)
    }
}

/// Decides how the arc cosine of the binary32 value `x` is computed: in binary64,
/// on the exact widening of `x`, before the caller narrows the result.
pub fn acosf(x: u32) -> (r: AcosStep)
    ensures
        exists|w: u64| widens_to(x, w) && r == acos_step_of(w),
        r == AcosStep::Invalid <==> class_of32(x) == FloatClass::Nan || exceeds_one32(x),
        r is HalfPiMinusAsin <==> is_positive32(x) && !exceeds_one32(x),
{
    let w = widen32(x);
    let r = acos(w);
    assert(class_of64(w) == FloatClass::Nan || exceeds_one64(w) <==> class_of32(x)
        == FloatClass::Nan || exceeds_one32(x));
    assert(is_positive64(w) <==> is_positive32(x));
    r
}

} // verus!
