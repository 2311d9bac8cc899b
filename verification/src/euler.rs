//! Quaternion-to-Euler conversion: branch selection and assembly.

use vstd::prelude::*;
use vstd::arithmetic::power2::{pow2, lemma_pow2_adds, lemma_pow2_pos, lemma2_to64};
use vstd::arithmetic::mul::lemma_mul_strict_inequality;
use crate::Euler;
use crate::bits::{
    is_nan, val, mag_val, mag_of, exp_of, dbl,
    is_nan_bits, lt_bits, gt_bits, abs_bits, copysign, double_bits, neg_bits,
    lemma_mag_val_nonneg, lemma_dbl_val,
};

verus! {

/// Bit pattern of `0.499f32`, the gimbal-lock detection threshold.
pub const POLE_LIMIT_BITS: u32 = 0x3eff7cee;

/// Bit pattern of `-0.499f32`.
pub const NEG_POLE_LIMIT_BITS: u32 = 0xbeff7cee;

/// Bit pattern of `core::f32::consts::FRAC_PI_2`.
pub const HALF_PI_BITS: u32 = 0x3fc90fdb;

/// Bit pattern of negative `core::f32::consts::FRAC_PI_2`.
pub const NEG_HALF_PI_BITS: u32 = 0xbfc90fdb;

/// Bit pattern of `1.0f32`.
pub const ONE_BITS: u32 = 0x3f800000;

/// The singularity test value `x*y + z*w` lies beyond the north-pole
/// threshold: `test > 0.499`. A NaN test value routes to neither pole.
pub open spec fn north_pole(test: u32) -> bool {
    !is_nan(test) && val(test) > val(POLE_LIMIT_BITS)
}

/// The singularity test value lies beyond the south-pole threshold:
/// `test < -0.499`.
pub open spec fn south_pole(test: u32) -> bool {
    !is_nan(test) && val(test) < val(NEG_POLE_LIMIT_BITS)
}

/// Field facts about the constants above, all fixed by their literal values.
pub proof fn lemma_euler_consts()
    ensures
        !is_nan(POLE_LIMIT_BITS),
        !is_nan(NEG_POLE_LIMIT_BITS),
        !is_nan(ONE_BITS),
        !is_nan(HALF_PI_BITS),
        val(NEG_POLE_LIMIT_BITS) == -val(POLE_LIMIT_BITS),
        val(POLE_LIMIT_BITS) == mag_val(POLE_LIMIT_BITS),
        val(POLE_LIMIT_BITS) > 0,
        val(ONE_BITS) == 0x800000 * pow2(126),
        mag_val(POLE_LIMIT_BITS) == 0xff7cee * pow2(124),
        mag_of(POLE_LIMIT_BITS) == 0x3eff7cee,
        (HALF_PI_BITS ^ 0x80000000) == NEG_HALF_PI_BITS,
{
    assert(((0x3eff7ceeu32 >> 23) & 0xff) == 125 && (0x3eff7ceeu32 & 0x7fffff) == 0x7f7cee
        && (0x3eff7ceeu32 >> 31) == 0 && (0x3eff7ceeu32 & 0x7fffffff) == 0x3eff7cee) by (bit_vector);
    assert(((0xbeff7ceeu32 >> 23) & 0xff) == 125 && (0xbeff7ceeu32 & 0x7fffff) == 0x7f7cee
        && (0xbeff7ceeu32 >> 31) == 1) by (bit_vector);
    assert(((0x3f800000u32 >> 23) & 0xff) == 127 && (0x3f800000u32 & 0x7fffff) == 0
        && (0x3f800000u32 >> 31) == 0) by (bit_vector);
    assert(((0x3fc90fdbu32 >> 23) & 0xff) == 127) by (bit_vector);
    assert((0x3fc90fdbu32 ^ 0x80000000) == 0xbfc90fdbu32) by (bit_vector);
    assert(val(POLE_LIMIT_BITS) == (0x800000 + 0x7f7cee) * pow2(124) as int);
    assert((0x800000 + 0x7f7cee) * pow2(124) as int == 0xff7cee * pow2(124) as int);
    lemma_pow2_pos(124);
    lemma_mul_strict_inequality(0, 0xff7cee, pow2(124) as int);
}

/// The pole-aware conversion result, assembled from the singularity test
/// value `test` (bits of `x*y + z*w`), the pole arctangent `pole_atan2`
/// (bits of `atan2(x, w)`), and the three general-case angles. At the north
/// pole the yaw is exactly pi/2 and the roll exactly zero; at the south pole
/// they are exactly -pi/2 and zero; everywhere else the general-case angles
/// pass through unchanged.
pub open spec fn euler_of_parts(test: u32, pole_atan2: u32, roll_g: u32, pitch_g: u32, yaw_g: u32) -> Euler {
    if north_pole(test) {
        Euler { roll: 0u32, pitch: dbl(pole_atan2), yaw: HALF_PI_BITS }
    } else if south_pole(test) {
        Euler { roll: 0u32, pitch: dbl(pole_atan2) ^ 0x80000000, yaw: NEG_HALF_PI_BITS }
    } else {
        Euler { roll: roll_g, pitch: pitch_g, yaw: yaw_g }
    }
}

/// The sign-preserving clamp of an arcsine: when the arcsine argument `sinp`
/// has magnitude at least one (so the arcsine itself would be ill-defined),
/// the angle saturates to pi/2 carrying the argument's sign; otherwise the
/// computed arcsine `asin_sinp` stands. A NaN argument passes the NaN through.
pub open spec fn clamped_asin(sinp: u32, asin_sinp: u32) -> u32 {
    if !is_nan(sinp) && mag_val(sinp) >= val(ONE_BITS) {
        if val(sinp) > 0 {
            HALF_PI_BITS
        } else {
            NEG_HALF_PI_BITS
        }
    } else {
        asin_sinp
    }
}

/// The general-form conversion result: roll and pitch pass through, the yaw
/// is the clamped arcsine.
pub open spec fn euler_of_general(roll_g: u32, sinp: u32, asin_sinp: u32, pitch_g: u32) -> Euler {
    Euler { roll: roll_g, pitch: pitch_g, yaw: clamped_asin(sinp, asin_sinp) }
}

impl Euler {
    /// Pole-aware quaternion-to-Euler conversion, given the bit patterns of
    /// the caller's floating-point intermediates: `test` is `x*y + z*w`,
    /// `pole_atan2` is `atan2(x, w)`, and `roll_g`, `pitch_g`, `yaw_g` are
    /// the general-case angles
    /// `atan2(2*x*w - 2*y*z, 1 - 2*x*x - 2*z*z)`,
    /// `atan2(2*y*w - 2*x*z, 1 - 2*y*y - 2*z*z)` and `asin(2*test)`.
    ///
    /// The result is a function of the arguments alone. Within the
    /// gimbal-lock margin of the north pole (`test > 0.499`) the yaw is the
    /// pattern of pi/2 exactly and the roll exactly zero, with the pitch
    /// exactly twice the pole arctangent; symmetrically at the south pole;
    /// away from both poles the general-case angles are returned unchanged.
    pub fn from_parts(test: u32, pole_atan2: u32, roll_g: u32, pitch_g: u32, yaw_g: u32) -> (r: Euler)
        ensures
            r == euler_of_parts(test, pole_atan2, roll_g, pitch_g, yaw_g),
            north_pole(test) ==> r.yaw == HALF_PI_BITS && r.roll == 0,
            south_pole(test) ==> r.yaw == NEG_HALF_PI_BITS && r.roll == 0,
            !north_pole(test) && !south_pole(test) ==> r == (Euler { roll: roll_g, pitch: pitch_g, yaw: yaw_g }),
            north_pole(test) && !is_nan(pole_atan2) && exp_of(pole_atan2) < 254
                ==> val(r.pitch) == 2 * val(pole_atan2),
            south_pole(test) && !is_nan(pole_atan2) && exp_of(pole_atan2) < 254
                ==> val(r.pitch) == -2 * val(pole_atan2),
    {
        proof {
            lemma_euler_consts();
            if !is_nan(pole_atan2) && exp_of(pole_atan2) < 254 {
                lemma_dbl_val(pole_atan2);
                crate::bits::lemma_neg_val(dbl(pole_atan2));
            }
        }
        if is_nan_bits(test) {
            Euler { roll: roll_g, pitch: pitch_g, yaw: yaw_g }
        } else if gt_bits(test, POLE_LIMIT_BITS) {
            Euler { roll: 0, pitch: double_bits(pole_atan2), yaw: HALF_PI_BITS }
        } else if lt_bits(test, NEG_POLE_LIMIT_BITS) {
            Euler { roll: 0, pitch: neg_bits(double_bits(pole_atan2)), yaw: NEG_HALF_PI_BITS }
        } else {
            Euler { roll: roll_g, pitch: pitch_g, yaw: yaw_g }
        }
    }
}

/// General-form quaternion-to-Euler conversion with the sign-preserving
/// arcsine clamp, given the bit patterns of the caller's floating-point
/// intermediates: `roll_g` and `pitch_g` as in [`Euler::from_parts`],
/// `sinp` the arcsine argument `2*(x*y + z*w)`, and `asin_sinp` its
/// arcsine. The result is a function of the arguments alone; in this
/// convention the arcsine-derived angle is the yaw.
pub fn to_euler_angle(roll_g: u32, sinp: u32, asin_sinp: u32, pitch_g: u32) -> (r: Euler)
    ensures
        r == euler_of_general(roll_g, sinp, asin_sinp, pitch_g),
{
    proof {
        lemma_euler_consts();
    }
    if !is_nan_bits(sinp) && !lt_bits(abs_bits(sinp), ONE_BITS) {
        proof {
            lemma_mag_val_nonneg(sinp);
        }
        Euler { roll: roll_g, pitch: pitch_g, yaw: copysign(HALF_PI_BITS, sinp) }
    } else {
        Euler { roll: roll_g, pitch: pitch_g, yaw: asin_sinp }
    }
}

/// Cross-formulation agreement: away from the two gimbal-lock poles, the
/// pole-aware conversion and the clamped general-form conversion yield
/// identical angles, bit for bit, given the same general-case inputs. The
/// general form receives the arcsine argument `2*test` — the exact double
/// `dbl(test)`, which is what floating-point doubling computes — and the
/// same arcsine result `yaw_g`; since `|test| <= 0.499` forces
/// `|2*test| < 1`, its clamp never fires, and both conversions return the
/// three general-case angles unchanged.
pub proof fn lemma_formulations_agree(test: u32, pole_atan2: u32, roll_g: u32, pitch_g: u32, yaw_g: u32)
    requires
        !is_nan(test),
        !north_pole(test),
        !south_pole(test),
    ensures
        euler_of_parts(test, pole_atan2, roll_g, pitch_g, yaw_g)
            == euler_of_general(roll_g, dbl(test), yaw_g, pitch_g),
{
    lemma_euler_consts();
    lemma_mag_val_nonneg(test);
    assert(test >> 31 == 0 || test >> 31 == 1) by (bit_vector);
    // |val(test)| <= val(0.499), so the magnitude is bounded by the threshold's.
    assert(mag_val(test) <= mag_val(POLE_LIMIT_BITS));
    // A magnitude at most 0.499's keeps the exponent field far below the
    // overflow band, so doubling is exact.
    crate::bits::lemma_mag_order(POLE_LIMIT_BITS, test);
    assert(mag_of(test) <= 0x3eff7cee);
    assert((test & 0x7fffffff) <= 0x3eff7cee ==> ((test >> 23) & 0xff) < 254) by (bit_vector);
    lemma_dbl_val(test);
    // 2 * mag_val(test) <= 2 * (0xff7cee * 2^124) == 0xff7cee * 2^125
    //                    < 0x1000000 * 2^125 == 0x800000 * 2^126 == val(1.0).
    lemma2_to64();
    lemma_pow2_adds(1, 124);
    lemma_pow2_adds(1, 125);
    assert(2 * (0xff7cee * pow2(124) as int) == 0xff7cee * pow2(125) as int) by (nonlinear_arith)
        requires pow2(125) == 2 * pow2(124);
    assert(0x800000 * pow2(126) as int == 0x1000000 * pow2(125) as int) by (nonlinear_arith)
        requires pow2(126) == 2 * pow2(125);
    lemma_pow2_pos(125);
    lemma_mul_strict_inequality(0xff7cee, 0x1000000, pow2(125) as int);
    assert(mag_val(dbl(test)) < val(ONE_BITS));
}

} // verus!
