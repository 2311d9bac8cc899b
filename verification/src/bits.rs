//! An exact model of IEEE-754 single-precision bit patterns, and verified
//! operations on them.
//!
//! A pattern `b: u32` has a sign bit, an 8-bit biased exponent and a 23-bit
//! fraction. Every finite pattern denotes the value `val(b) / 2^149`: the
//! scaling by `2^149` (the reciprocal of the smallest subnormal) turns every
//! representable magnitude into an integer, so contracts can speak about
//! float values without any rounding model. Infinities are mapped above all
//! finite magnitudes, which is exactly how IEEE-754 orders them; NaN patterns
//! carry no value and are excluded where an operation's result depends on one.

use vstd::prelude::*;
use vstd::arithmetic::power2::{pow2, lemma_pow2_adds, lemma_pow2_pos, lemma_pow2_strictly_increases, lemma2_to64};
use vstd::arithmetic::mul::{lemma_mul_inequality, lemma_mul_strict_inequality};

verus! {

/// Sign bit of a pattern: 1 for negative, 0 for positive.
pub open spec fn sign_of(b: u32) -> u32 {
    b >> 31
}

/// Biased exponent field (bits 23..31).
pub open spec fn exp_of(b: u32) -> u32 {
    (b >> 23) & 0xff
}

/// Fraction field (low 23 bits).
pub open spec fn frac_of(b: u32) -> u32 {
    b & 0x7fffff
}

/// The pattern with its sign bit cleared.
pub open spec fn mag_of(b: u32) -> u32 {
    b & 0x7fffffff
}

/// The pattern is a NaN (exponent all ones, nonzero fraction).
pub open spec fn is_nan(b: u32) -> bool {
    exp_of(b) == 255 && frac_of(b) != 0
}

/// Magnitude denoted by an exponent field `e` and fraction field `f`,
/// scaled by `2^149`: subnormals are `f` itself, normal numbers carry the
/// hidden leading bit.
pub open spec fn mag_from(e: u32, f: u32) -> int {
    if e == 0 {
        f as int
    } else {
        (0x800000 + f as int) * pow2((e - 1) as nat) as int
    }
}

/// Magnitude of a pattern, scaled by `2^149`.
pub open spec fn mag_val(b: u32) -> int {
    mag_from(exp_of(b), frac_of(b))
}

/// Exact value of a pattern, scaled by `2^149`. For finite patterns this is
/// the denoted real times `2^149`; infinities land above (below) every
/// finite value, matching the IEEE-754 order. Meaningless for NaN patterns.
pub open spec fn val(b: u32) -> int {
    if sign_of(b) == 1 {
        -mag_val(b)
    } else {
        mag_val(b)
    }
}

/// The magnitude scale is nonnegative, and zero exactly on the two zero
/// patterns.
pub proof fn lemma_mag_val_nonneg(b: u32)
    ensures
        mag_val(b) >= 0,
        (mag_val(b) == 0) == (mag_of(b) == 0),
{
    assert((b & 0x7fffff) < 0x800000 && ((b >> 23) & 0xff) <= 255) by (bit_vector);
    assert(((b & 0x7fffffff) == 0) == (((b >> 23) & 0xff) == 0 && (b & 0x7fffff) == 0)) by (bit_vector);
    if exp_of(b) != 0 {
        lemma_pow2_pos((exp_of(b) - 1) as nat);
        assert(mag_val(b) > 0) by {
            lemma_mul_strict_inequality(0, 0x800000 + frac_of(b) as int, pow2((exp_of(b) - 1) as nat) as int);
        }
    }
}

/// Bit-pattern magnitudes order lexicographically by (exponent, fraction).
proof fn lemma_mag_lex(a: u32, b: u32)
    ensures
        ((mag_of(a) < mag_of(b)) == (exp_of(a) < exp_of(b)
            || (exp_of(a) == exp_of(b) && frac_of(a) < frac_of(b)))),
        ((mag_of(a) == mag_of(b)) == (exp_of(a) == exp_of(b) && frac_of(a) == frac_of(b))),
{
    assert(((a & 0x7fffffff) < (b & 0x7fffffff)) == (((a >> 23) & 0xff) < ((b >> 23) & 0xff)
        || ((((a >> 23) & 0xff) == ((b >> 23) & 0xff)) && ((a & 0x7fffff) < (b & 0x7fffff))))) by (bit_vector);
    assert(((a & 0x7fffffff) == (b & 0x7fffffff)) == ((((a >> 23) & 0xff) == ((b >> 23) & 0xff))
        && ((a & 0x7fffff) == (b & 0x7fffff)))) by (bit_vector);
}

/// The denoted magnitude is strictly monotone in the lexicographic order of
/// (exponent, fraction).
proof fn lemma_mag_from_lt(ea: u32, fa: u32, eb: u32, fb: u32)
    requires
        fa < 0x800000,
        fb < 0x800000,
        ea < eb || (ea == eb && fa < fb),
    ensures
        mag_from(ea, fa) < mag_from(eb, fb),
{
    lemma2_to64();
    if ea == eb {
        if ea != 0 {
            let p = pow2((ea - 1) as nat) as int;
            lemma_pow2_pos((ea - 1) as nat);
            lemma_mul_strict_inequality(0x800000 + fa as int, 0x800000 + fb as int, p);
        }
    } else {
        let nb = (eb - 1) as nat;
        let pb = pow2(nb) as int;
        lemma_pow2_pos(nb);
        // mag_from(eb, fb) >= pow2(23) * pow2(eb - 1) == pow2(eb + 22)
        lemma_mul_inequality(0x800000, 0x800000 + fb as int, pb);
        lemma_pow2_adds(23, nb);
        assert(0x800000 * pb == pow2((23 + nb) as nat));
        if ea == 0 {
            // mag_from(ea, fa) = fa < pow2(23) <= pow2(eb + 22)
            if nb > 0 {
                lemma_pow2_strictly_increases(23, (23 + nb) as nat);
            }
            assert(fa < pow2(23));
        } else {
            let na = (ea - 1) as nat;
            let pa = pow2(na) as int;
            lemma_pow2_pos(na);
            // mag_from(ea, fa) < pow2(24) * pow2(ea - 1) == pow2(ea + 23)
            lemma_mul_strict_inequality(0x800000 + fa as int, 0x1000000, pa);
            lemma_pow2_adds(24, na);
            assert(0x1000000 * pa == pow2((24 + na) as nat));
            // pow2(ea + 23) <= pow2(eb + 22) since ea + 1 <= eb
            if 24 + na < 23 + nb {
                lemma_pow2_strictly_increases((24 + na) as nat, (23 + nb) as nat);
            }
            assert((0x800000 + fa as int) * pa < 0x1000000 * pa);
        }
    }
}

/// The order of two magnitudes matches the order of the denoted values.
pub proof fn lemma_mag_order(a: u32, b: u32)
    ensures
        (mag_of(a) < mag_of(b)) == (mag_val(a) < mag_val(b)),
        (mag_of(a) == mag_of(b)) ==> (mag_val(a) == mag_val(b)),
{
    lemma_mag_lex(a, b);
    lemma_mag_lex(b, a);
    assert((a & 0x7fffff) < 0x800000) by (bit_vector);
    assert((b & 0x7fffff) < 0x800000) by (bit_vector);
    if mag_of(a) < mag_of(b) {
        lemma_mag_from_lt(exp_of(a), frac_of(a), exp_of(b), frac_of(b));
    } else if mag_of(b) < mag_of(a) {
        lemma_mag_from_lt(exp_of(b), frac_of(b), exp_of(a), frac_of(a));
    }
}

/// Tests whether a pattern is a NaN.
pub fn is_nan_bits(b: u32) -> (r: bool)
    ensures
        r == is_nan(b),
{
    ((b >> 23) & 0xff) == 255 && (b & 0x7fffff) != 0
}

/// Clears the sign bit: the absolute value of the denoted float, exactly.
pub fn abs_bits(b: u32) -> (r: u32)
    ensures
        r == mag_of(b),
        is_nan(r) == is_nan(b),
        val(r) == mag_val(b),
        val(r) == if val(b) >= 0 { val(b) } else { -val(b) },
{
    proof {
        assert(((b & 0x7fffffff) >> 31) == 0
            && (((b & 0x7fffffff) >> 23) & 0xff) == ((b >> 23) & 0xff)
            && ((b & 0x7fffffff) & 0x7fffff) == (b & 0x7fffff)) by (bit_vector);
        lemma_mag_val_nonneg(b);
    }
    b & 0x7fffffff
}

/// Strict order on two non-NaN patterns: exactly the `<` of the denoted
/// floats (the two zeros compare equal; infinities sit beyond all finite
/// values).
pub fn lt_bits(a: u32, b: u32) -> (r: bool)
    requires
        !is_nan(a),
        !is_nan(b),
    ensures
        r == (val(a) < val(b)),
{
    let ma = a & 0x7fffffff;
    let mb = b & 0x7fffffff;
    let sa = a >> 31;
    let sb = b >> 31;
    proof {
        assert(a >> 31 == 0 || a >> 31 == 1) by (bit_vector);
        assert(b >> 31 == 0 || b >> 31 == 1) by (bit_vector);
        lemma_mag_order(a, b);
        lemma_mag_order(b, a);
        lemma_mag_val_nonneg(a);
        lemma_mag_val_nonneg(b);
    }
    if sa == sb {
        if sa == 0 {
            ma < mb
        } else {
            mb < ma
        }
    } else {
        sa == 1 && (ma != 0 || mb != 0)
    }
}

/// Strict order on two non-NaN patterns: exactly the `>` of the denoted
/// floats.
pub fn gt_bits(a: u32, b: u32) -> (r: bool)
    requires
        !is_nan(a),
        !is_nan(b),
    ensures
        r == (val(a) > val(b)),
{
    lt_bits(b, a)
}

/// The magnitude of `x` carrying the sign that `y > 0.0` selects: `x` itself
/// when `y` is strictly positive, `x` negated otherwise (also for a NaN `y`,
/// for which the comparison is false).
pub open spec fn copysign_of(x: u32, y: u32) -> u32 {
    if !is_nan(y) && val(y) > 0 {
        x
    } else {
        x ^ 0x80000000
    }
}

/// `x` if `y > 0.0`, `-x` otherwise; NaN `y` counts as not positive, as the
/// float comparison does.
pub fn copysign(x: u32, y: u32) -> (r: u32)
    ensures
        r == copysign_of(x, y),
{
    proof {
        assert(((0u32 >> 23) & 0xff) == 0 && (0u32 & 0x7fffff) == 0 && 0u32 >> 31 == 0) by (bit_vector);
    }
    if !is_nan_bits(y) && gt_bits(y, 0) {
        x
    } else {
        neg_bits(x)
    }
}

/// The pattern of twice the denoted value: a one-bit shift of a subnormal
/// fraction, an exponent increment on a normal number, an infinity of the
/// same sign once the exponent field saturates, and NaN for NaN.
pub open spec fn dbl(b: u32) -> u32 {
    if is_nan(b) {
        b
    } else if exp_of(b) == 0 {
        (b & 0x80000000) | ((b & 0x7fffff) << 1u32)
    } else if exp_of(b) >= 254 {
        (b & 0x80000000) | 0x7f800000
    } else {
        (b + 0x800000) as u32
    }
}

/// Doubling is exact in binary floating point until the exponent range runs
/// out: for every non-NaN pattern below the overflow band the result denotes
/// exactly twice the input's value.
pub proof fn lemma_dbl_val(b: u32)
    requires
        !is_nan(b),
        exp_of(b) < 254,
    ensures
        !is_nan(dbl(b)),
        sign_of(dbl(b)) == sign_of(b),
        val(dbl(b)) == 2 * val(b),
        mag_val(dbl(b)) == 2 * mag_val(b),
        exp_of(dbl(b)) <= exp_of(b) + 1,
{
    lemma2_to64();
    let r = dbl(b);
    if exp_of(b) == 0 {
        let f = frac_of(b);
        assert(((b >> 23) & 0xff) == 0 ==> (
            (((b & 0x80000000) | ((b & 0x7fffff) << 1u32)) >> 31) == (b >> 31)
            && ((b & 0x7fffff) < 0x400000 ==> (
                ((((b & 0x80000000) | ((b & 0x7fffff) << 1u32)) >> 23) & 0xff) == 0
                && (((b & 0x80000000) | ((b & 0x7fffff) << 1u32)) & 0x7fffff) == 2 * (b & 0x7fffff)))
            && ((b & 0x7fffff) >= 0x400000 ==> (
                ((((b & 0x80000000) | ((b & 0x7fffff) << 1u32)) >> 23) & 0xff) == 1
                && (((b & 0x80000000) | ((b & 0x7fffff) << 1u32)) & 0x7fffff) == 2 * (b & 0x7fffff) - 0x800000))
        )) by (bit_vector);
        if f >= 0x400000 {
            assert(mag_val(r) == (0x800000 + (2 * f - 0x800000)) * pow2(0) as int);
            assert(mag_val(r) == 2 * f);
        }
    } else {
        let e = exp_of(b);
        assert((((b >> 23) & 0xff) >= 1 && ((b >> 23) & 0xff) < 254) ==> (
            ((((b + 0x800000) as u32) >> 23) & 0xff) == ((b >> 23) & 0xff) + 1
            && (((b + 0x800000) as u32) & 0x7fffff) == (b & 0x7fffff)
            && (((b + 0x800000) as u32) >> 31) == (b >> 31)
        )) by (bit_vector);
        assert(exp_of(r) == e + 1 && frac_of(r) == frac_of(b) && sign_of(r) == sign_of(b));
        lemma_pow2_adds(1, (e - 1) as nat);
        assert(pow2((e + 1 - 1) as nat) == pow2(1) * pow2((e - 1) as nat));
        assert(mag_val(r) == (0x800000 + frac_of(b) as int) * (2 * pow2((e - 1) as nat) as int));
        assert((0x800000 + frac_of(b) as int) * (2 * pow2((e - 1) as nat) as int)
            == 2 * ((0x800000 + frac_of(b) as int) * pow2((e - 1) as nat) as int)) by (nonlinear_arith);
    }
}

/// Doubles the denoted value exactly, saturating to an infinity of the same
/// sign where single precision overflows, and propagating NaN.
pub fn double_bits(b: u32) -> (r: u32)
    ensures
        r == dbl(b),
{
    if is_nan_bits(b) {
        b
    } else {
        let e = (b >> 23) & 0xff;
        if e == 0 {
            (b & 0x80000000) | ((b & 0x7fffff) << 1u32)
        } else if e >= 254 {
            (b & 0x80000000) | 0x7f800000
        } else {
            proof {
                assert(((b >> 23) & 0xff) < 254 ==> b + 0x800000 < 0x100000000) by (bit_vector);
            }
            b + 0x800000
        }
    }
}

/// A flipped sign bit negates the denoted value and changes nothing else.
pub proof fn lemma_neg_val(b: u32)
    ensures
        val(b ^ 0x80000000) == -val(b),
        is_nan(b ^ 0x80000000) == is_nan(b),
        mag_of(b ^ 0x80000000) == mag_of(b),
        sign_of(b ^ 0x80000000) == 1 - sign_of(b),
{
    assert((((b ^ 0x80000000) >> 23) & 0xff) == ((b >> 23) & 0xff)
        && ((b ^ 0x80000000) & 0x7fffff) == (b & 0x7fffff)
        && ((b ^ 0x80000000) & 0x7fffffff) == (b & 0x7fffffff)
        && (b >> 31 == 0 || b >> 31 == 1)
        && ((b ^ 0x80000000) >> 31) == 1 - (b >> 31)) by (bit_vector);
}

/// Flips the sign bit: negation of the denoted float, exactly.
pub fn neg_bits(b: u32) -> (r: u32)
    ensures
        r == (b ^ 0x80000000),
        val(r) == -val(b),
        is_nan(r) == is_nan(b),
        mag_of(r) == mag_of(b),
        sign_of(r) == 1 - sign_of(b),
{
    proof {
        lemma_neg_val(b);
    }
    b ^ 0x80000000
}

} // verus!
