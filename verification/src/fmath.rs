use vstd::prelude::*;

use crate::bits::{
    f32_cmp, f32_is_nan, f32_is_zero, f32_lt, f64_cmp, lemma_f32_eq_same_bits, CMP_EQ, CMP_GT,
    CMP_LT,
};

verus! {

// The arithmetic primitives of the signal chain. Floating-point values are
// carried as raw bit patterns, and each primitive is a trusted wrapper
// around the corresponding operation of std. Comparisons, absolute value and
// the integer-float casts carry an exact specification; each remaining
// operation's result is given an uninterpreted name, one fixed function of
// the argument bits, and everything built on top is verified relative to
// those names.
//
// THE FIXED-ARITHMETIC ASSUMPTION. Treating these operations as fixed
// functions of the bits says more than Rust promises, in exactly two places:
//
// - Arithmetic, rounding, floor, min/max and the float-float casts are
//   pinned down bit for bit by IEEE 754 on every input whose result is a
//   number; but when the result is a NaN, Rust leaves its sign and payload
//   bits unspecified and allows them to vary from one invocation to the
//   next. The names fix one NaN choice per input.
// - For sin, cos, exp, log10 (and hypot and the transform, in the complex
//   module) Rust documents the precision itself as non-deterministic: it may
//   differ by platform, by Rust version, and even between invocations within
//   one execution. The names model each as the single fixed function that
//   one deterministically evaluated math library computes.
//
// Every common platform behaves as one fixed arithmetic in practice, and the
// crate's tests exercise nothing else; but every proof in this crate holds
// relative to this assumption, not to Rust's weaker documented contract.
//
// Inside the wrapper bodies, bytemuck::cast reinterprets each pattern as the
// machine value it encodes, and num_complex's component pairs anchor the
// types of those values; no precision is gained or lost on the way in or
// out.

/// What f32 addition returns on two bit patterns.
pub uninterp spec fn f32_add(a: u32, b: u32) -> u32;

/// What f32 subtraction returns on two bit patterns.
pub uninterp spec fn f32_sub(a: u32, b: u32) -> u32;

/// What f32 multiplication returns on two bit patterns.
pub uninterp spec fn f32_mul(a: u32, b: u32) -> u32;

/// What f32 division returns on two bit patterns.
pub uninterp spec fn f32_div(a: u32, b: u32) -> u32;

/// What f32::cos returns.
pub uninterp spec fn f32_cos(x: u32) -> u32;

/// What f32::sin returns.
pub uninterp spec fn f32_sin(x: u32) -> u32;

/// What f32::exp returns.
pub uninterp spec fn f32_exp(x: u32) -> u32;

/// What f32::log10 returns.
pub uninterp spec fn f32_log10(x: u32) -> u32;

/// What f32::round returns.
pub uninterp spec fn f32_round(x: u32) -> u32;

/// What `(v as f32)` returns for an i8.
pub uninterp spec fn f32_of_i8(v: i8) -> u32;

/// What `(v as f32)` returns for a usize.
pub uninterp spec fn f32_of_usize(v: usize) -> u32;

/// What `(x as i8)` returns for an f32 (a saturating, truncating cast).
pub uninterp spec fn i8_of_f32(x: u32) -> i8;

/// What `(x as u32)` returns for an f32 (a saturating, truncating cast).
pub uninterp spec fn u32_of_f32(x: u32) -> u32;

/// What `(x as f32)` returns for an f64.
pub uninterp spec fn f32_of_f64(x: u64) -> u32;

/// What `(x as f64)` returns for an f32 (the exact widening).
pub uninterp spec fn f64_of_f32(x: u32) -> u64;

/// What `(v as f64)` returns for a usize.
pub uninterp spec fn f64_of_usize(v: usize) -> u64;

/// What `(v as f64)` returns for a u32.
pub uninterp spec fn f64_of_u32(v: u32) -> u64;

/// What `(v as f64)` returns for an isize.
pub uninterp spec fn f64_of_isize(v: isize) -> u64;

/// What `(x as isize)` returns for an f64 (a saturating, truncating cast).
pub uninterp spec fn isize_of_f64(x: u64) -> isize;

/// What `(x as usize)` returns for an f64 (a saturating, truncating cast).
pub uninterp spec fn usize_of_f64(x: u64) -> usize;

/// What f64 addition returns on two bit patterns.
pub uninterp spec fn f64_add(a: u64, b: u64) -> u64;

/// What f64 subtraction returns on two bit patterns.
pub uninterp spec fn f64_sub(a: u64, b: u64) -> u64;

/// What f64 multiplication returns on two bit patterns.
pub uninterp spec fn f64_mul(a: u64, b: u64) -> u64;

/// What f64 division returns on two bit patterns.
pub uninterp spec fn f64_div(a: u64, b: u64) -> u64;

/// What f64::floor returns.
pub uninterp spec fn f64_floor(x: u64) -> u64;

/// What f64::sin returns.
pub uninterp spec fn f64_sin(x: u64) -> u64;

/// What f64::cos returns.
pub uninterp spec fn f64_cos(x: u64) -> u64;

/// Relies on f32 addition: IEEE 754 rounds the sum of the encoded values to
/// nearest-even, which fixes the result bits exactly whenever the sum is a
/// number; a NaN result's payload is unspecified and covered by the module's
/// fixed-arithmetic assumption. Adding +0.0 to a value other than -0.0 or a
/// NaN returns that value unchanged.
#[verifier::external_body]
pub(crate) fn add32(a: u32, b: u32) -> (r: u32)
    ensures
        r == f32_add(a, b),
        b == crate::bits::F32_ZERO && !f32_is_nan(a) && a != crate::bits::F32_NEG_ZERO ==> r == a,
{
    let v: num_complex::Complex32 = num_complex::Complex32::new(bytemuck::cast(a), bytemuck::cast(b));
    bytemuck::cast(v.re + v.im)
}

/// Relies on f32 subtraction: IEEE 754 rounds the difference to
/// nearest-even, exact but for a NaN result's payload (see the module note);
/// x - x is exactly +0.0 for finite x.
#[verifier::external_body]
pub(crate) fn sub32(a: u32, b: u32) -> (r: u32)
    ensures
        r == f32_sub(a, b),
        a == b && crate::bits::f32_is_finite(a) ==> r == crate::bits::F32_ZERO,
{
    let v: num_complex::Complex32 = num_complex::Complex32::new(bytemuck::cast(a), bytemuck::cast(b));
    bytemuck::cast(v.re - v.im)
}

/// Relies on f32 multiplication: IEEE 754 rounds the product to
/// nearest-even, exact but for a NaN result's payload (see the module note);
/// 1.0 * x is exactly x for non-NaN x, and +0.0 times a positive finite
/// value is exactly +0.0.
#[verifier::external_body]
pub(crate) fn mul32(a: u32, b: u32) -> (r: u32)
    ensures
        r == f32_mul(a, b),
        a == crate::bits::F32_ONE && !f32_is_nan(b) ==> r == b,
        a == crate::bits::F32_ZERO && crate::bits::f32_is_finite(b) && crate::bits::f32_sign(b)
            == 0 ==> r == crate::bits::F32_ZERO,
{
    let v: num_complex::Complex32 = num_complex::Complex32::new(bytemuck::cast(a), bytemuck::cast(b));
    bytemuck::cast(v.re * v.im)
}

/// Relies on f32 division: IEEE 754 rounds the quotient to nearest-even,
/// exact but for a NaN result's payload (see the module note); division by
/// zero yields an infinity or NaN, never a trap.
#[verifier::external_body]
pub(crate) fn div32(a: u32, b: u32) -> (r: u32)
    ensures
        r == f32_div(a, b),
{
    let v: num_complex::Complex32 = num_complex::Complex32::new(bytemuck::cast(a), bytemuck::cast(b));
    bytemuck::cast(v.re / v.im)
}

/// Relies on f32::partial_cmp: IEEE 754 orders non-NaN values by signed
/// magnitude of their encodings, and every comparison with a NaN is
/// unordered.
#[verifier::external_body]
pub(crate) fn cmp32(a: u32, b: u32) -> (r: u8)
    ensures
        r == f32_cmp(a, b),
{
    let v: num_complex::Complex32 = num_complex::Complex32::new(bytemuck::cast(a), bytemuck::cast(b));
    match v.re.partial_cmp(&v.im) {
        Some(core::cmp::Ordering::Less) => crate::bits::CMP_LT,
        Some(core::cmp::Ordering::Equal) => crate::bits::CMP_EQ,
        Some(core::cmp::Ordering::Greater) => crate::bits::CMP_GT,
        None => crate::bits::CMP_UN,
    }
}

/// Relies on f32::min: it returns the smaller argument and ignores a NaN in
/// favour of the other argument (with two NaN arguments the returned payload
/// falls under the module's fixed-arithmetic assumption). Arguments that
/// compare equal with distinct encodings (the two zeros) are excluded, since
/// there std leaves the choice open.
#[verifier::external_body]
pub(crate) fn min32(a: u32, b: u32) -> (r: u32)
    requires
        f32_cmp(a, b) == CMP_EQ ==> a == b,
    ensures
        r == crate::bits::f32_min(a, b),
{
    let v: num_complex::Complex32 = num_complex::Complex32::new(bytemuck::cast(a), bytemuck::cast(b));
    bytemuck::cast(v.re.min(v.im))
}

/// Relies on f32::max: it returns the larger argument and ignores a NaN in
/// favour of the other argument, under the same tie exclusion and two-NaN
/// caveat as the minimum.
#[verifier::external_body]
pub(crate) fn max32(a: u32, b: u32) -> (r: u32)
    requires
        f32_cmp(a, b) == CMP_EQ ==> a == b,
    ensures
        r == crate::bits::f32_max(a, b),
{
    let v: num_complex::Complex32 = num_complex::Complex32::new(bytemuck::cast(a), bytemuck::cast(b));
    bytemuck::cast(v.re.max(v.im))
}

/// Relies on f32::cos. Rust documents this function's precision as
/// non-deterministic; the name models it as one fixed function of the
/// argument bits, under the module's fixed-arithmetic assumption.
#[verifier::external_body]
pub(crate) fn cos32(x: u32) -> (r: u32)
    ensures
        r == f32_cos(x),
{
    let v: num_complex::Complex32 = num_complex::Complex32::new(bytemuck::cast(x), bytemuck::cast(x));
    bytemuck::cast(v.re.cos())
}

/// Relies on f32::sin. Rust documents this function's precision as
/// non-deterministic; the name models it as one fixed function of the
/// argument bits, under the module's fixed-arithmetic assumption.
#[verifier::external_body]
pub(crate) fn sin32(x: u32) -> (r: u32)
    ensures
        r == f32_sin(x),
{
    let v: num_complex::Complex32 = num_complex::Complex32::new(bytemuck::cast(x), bytemuck::cast(x));
    bytemuck::cast(v.re.sin())
}

/// Relies on f32::exp. Rust documents this function's precision as
/// non-deterministic; the name models it as one fixed function of the
/// argument bits, under the module's fixed-arithmetic assumption.
#[verifier::external_body]
pub(crate) fn exp32(x: u32) -> (r: u32)
    ensures
        r == f32_exp(x),
{
    let v: num_complex::Complex32 = num_complex::Complex32::new(bytemuck::cast(x), bytemuck::cast(x));
    bytemuck::cast(v.re.exp())
}

/// Relies on f32::log10. Rust documents this function's precision as
/// non-deterministic; the name models it as one fixed function of the
/// argument bits, under the module's fixed-arithmetic assumption.
#[verifier::external_body]
pub(crate) fn log10_32(x: u32) -> (r: u32)
    ensures
        r == f32_log10(x),
{
    let v: num_complex::Complex32 = num_complex::Complex32::new(bytemuck::cast(x), bytemuck::cast(x));
    bytemuck::cast(v.re.log10())
}

/// Relies on f32::round: rounding to the nearest integer, half away from
/// zero, exactly specified but for a NaN input's payload (see the module
/// note).
#[verifier::external_body]
pub(crate) fn round32(x: u32) -> (r: u32)
    ensures
        r == f32_round(x),
{
    let v: num_complex::Complex32 = num_complex::Complex32::new(bytemuck::cast(x), bytemuck::cast(x));
    bytemuck::cast(v.re.round())
}

/// Relies on the `as f32` cast of an i8, which is exact.
#[verifier::external_body]
pub(crate) fn i8_to_f32(v: i8) -> (r: u32)
    ensures
        r == f32_of_i8(v),
{
    let v: num_complex::Complex32 = num_complex::Complex32::new(v as _, v as _);
    bytemuck::cast(v.re)
}

/// Relies on the `as f32` cast of a usize, which rounds to nearest-even.
#[verifier::external_body]
pub(crate) fn usize_to_f32(v: usize) -> (r: u32)
    ensures
        r == f32_of_usize(v),
{
    let v: num_complex::Complex32 = num_complex::Complex32::new(v as _, v as _);
    bytemuck::cast(v.re)
}

/// Relies on the `as i8` cast of an f32: truncation toward zero, saturating,
/// with NaN mapped to 0.
#[verifier::external_body]
pub(crate) fn f32_to_i8(x: u32) -> (r: i8)
    ensures
        r == i8_of_f32(x),
{
    let v: num_complex::Complex32 = num_complex::Complex32::new(bytemuck::cast(x), bytemuck::cast(x));
    let r: i8 = v.re as _;
    r
}

/// Relies on the `as u32` cast of an f32: truncation toward zero, saturating,
/// with NaN mapped to 0.
#[verifier::external_body]
pub(crate) fn f32_to_u32(x: u32) -> (r: u32)
    ensures
        r == u32_of_f32(x),
{
    let v: num_complex::Complex32 = num_complex::Complex32::new(bytemuck::cast(x), bytemuck::cast(x));
    let r: u32 = v.re as _;
    r
}

/// Relies on the `as f32` cast of an f64, which rounds to nearest-even; a
/// NaN stays a NaN with an unspecified payload (see the module note).
#[verifier::external_body]
pub(crate) fn f64_to_f32(x: u64) -> (r: u32)
    ensures
        r == f32_of_f64(x),
{
    let v: num_complex::Complex64 = num_complex::Complex64::new(bytemuck::cast(x), bytemuck::cast(x));
    let w: num_complex::Complex32 = num_complex::Complex32::new(v.re as _, v.im as _);
    bytemuck::cast(w.re)
}

/// Relies on the `as f64` cast of an f32, exact for every number; a NaN
/// stays a NaN with an unspecified payload (see the module note).
#[verifier::external_body]
pub(crate) fn f32_to_f64(x: u32) -> (r: u64)
    ensures
        r == f64_of_f32(x),
{
    let v: num_complex::Complex32 = num_complex::Complex32::new(bytemuck::cast(x), bytemuck::cast(x));
    let w: num_complex::Complex64 = num_complex::Complex64::new(v.re as _, v.im as _);
    bytemuck::cast(w.re)
}

/// Relies on the `as f64` cast of a usize, which rounds to nearest-even.
#[verifier::external_body]
pub(crate) fn usize_to_f64(v: usize) -> (r: u64)
    ensures
        r == f64_of_usize(v),
{
    let v: num_complex::Complex64 = num_complex::Complex64::new(v as _, v as _);
    bytemuck::cast(v.re)
}

/// Relies on the `as f64` cast of a u32, which is exact.
#[verifier::external_body]
pub(crate) fn u32_to_f64(v: u32) -> (r: u64)
    ensures
        r == f64_of_u32(v),
{
    let v: num_complex::Complex64 = num_complex::Complex64::new(v as _, v as _);
    bytemuck::cast(v.re)
}

/// Relies on the `as f64` cast of an isize, which rounds to nearest-even.
#[verifier::external_body]
pub(crate) fn isize_to_f64(v: isize) -> (r: u64)
    ensures
        r == f64_of_isize(v),
{
    let v: num_complex::Complex64 = num_complex::Complex64::new(v as _, v as _);
    bytemuck::cast(v.re)
}

/// Relies on the `as isize` cast of an f64: truncation toward zero,
/// saturating, with NaN mapped to 0.
#[verifier::external_body]
pub(crate) fn f64_to_isize(x: u64) -> (r: isize)
    ensures
        r == isize_of_f64(x),
{
    let v: num_complex::Complex64 = num_complex::Complex64::new(bytemuck::cast(x), bytemuck::cast(x));
    let r: isize = v.re as _;
    r
}

/// Relies on the `as usize` cast of an f64: truncation toward zero,
/// saturating, with NaN mapped to 0.
#[verifier::external_body]
pub(crate) fn f64_to_usize(x: u64) -> (r: usize)
    ensures
        r == usize_of_f64(x),
{
    let v: num_complex::Complex64 = num_complex::Complex64::new(bytemuck::cast(x), bytemuck::cast(x));
    let r: usize = v.re as _;
    r
}

/// Relies on f64 addition: IEEE 754 rounds the sum to nearest-even, exact
/// but for a NaN result's payload (see the module note).
#[verifier::external_body]
pub(crate) fn add64(a: u64, b: u64) -> (r: u64)
    ensures
        r == f64_add(a, b),
{
    let v: num_complex::Complex64 = num_complex::Complex64::new(bytemuck::cast(a), bytemuck::cast(b));
    bytemuck::cast(v.re + v.im)
}

/// Relies on f64 subtraction: IEEE 754 rounds the difference to
/// nearest-even, exact but for a NaN result's payload (see the module note).
#[verifier::external_body]
pub(crate) fn sub64(a: u64, b: u64) -> (r: u64)
    ensures
        r == f64_sub(a, b),
{
    let v: num_complex::Complex64 = num_complex::Complex64::new(bytemuck::cast(a), bytemuck::cast(b));
    bytemuck::cast(v.re - v.im)
}

/// Relies on f64 multiplication: IEEE 754 rounds the product to
/// nearest-even, exact but for a NaN result's payload (see the module note).
#[verifier::external_body]
pub(crate) fn mul64(a: u64, b: u64) -> (r: u64)
    ensures
        r == f64_mul(a, b),
{
    let v: num_complex::Complex64 = num_complex::Complex64::new(bytemuck::cast(a), bytemuck::cast(b));
    bytemuck::cast(v.re * v.im)
}

/// Relies on f64 division: IEEE 754 rounds the quotient to nearest-even,
/// exact but for a NaN result's payload (see the module note).
#[verifier::external_body]
pub(crate) fn div64(a: u64, b: u64) -> (r: u64)
    ensures
        r == f64_div(a, b),
{
    let v: num_complex::Complex64 = num_complex::Complex64::new(bytemuck::cast(a), bytemuck::cast(b));
    bytemuck::cast(v.re / v.im)
}

/// Relies on f64::partial_cmp, as for the f32 comparison.
#[verifier::external_body]
pub(crate) fn cmp64(a: u64, b: u64) -> (r: u8)
    ensures
        r == f64_cmp(a, b),
{
    let v: num_complex::Complex64 = num_complex::Complex64::new(bytemuck::cast(a), bytemuck::cast(b));
    match v.re.partial_cmp(&v.im) {
        Some(core::cmp::Ordering::Less) => crate::bits::CMP_LT,
        Some(core::cmp::Ordering::Equal) => crate::bits::CMP_EQ,
        Some(core::cmp::Ordering::Greater) => crate::bits::CMP_GT,
        None => crate::bits::CMP_UN,
    }
}

/// Relies on f64::floor: IEEE 754 roundToIntegralTowardNegative, exactly
/// specified but for a NaN input's payload (see the module note).
#[verifier::external_body]
pub(crate) fn floor64(x: u64) -> (r: u64)
    ensures
        r == f64_floor(x),
{
    let v: num_complex::Complex64 = num_complex::Complex64::new(bytemuck::cast(x), bytemuck::cast(x));
    bytemuck::cast(v.re.floor())
}

/// Relies on f64::abs, which clears the sign bit and changes nothing else.
#[verifier::external_body]
pub(crate) fn abs64(x: u64) -> (r: u64)
    ensures
        r == crate::bits::f64_mag(x),
{
    let v: num_complex::Complex64 = num_complex::Complex64::new(bytemuck::cast(x), bytemuck::cast(x));
    bytemuck::cast(v.re.abs())
}

/// Relies on f64::sin. Rust documents this function's precision as
/// non-deterministic; the name models it as one fixed function of the
/// argument bits, under the module's fixed-arithmetic assumption.
#[verifier::external_body]
pub(crate) fn sin64(x: u64) -> (r: u64)
    ensures
        r == f64_sin(x),
{
    let v: num_complex::Complex64 = num_complex::Complex64::new(bytemuck::cast(x), bytemuck::cast(x));
    bytemuck::cast(v.re.sin())
}

/// Relies on f64::cos. Rust documents this function's precision as
/// non-deterministic; the name models it as one fixed function of the
/// argument bits, under the module's fixed-arithmetic assumption.
#[verifier::external_body]
pub(crate) fn cos64(x: u64) -> (r: u64)
    ensures
        r == f64_cos(x),
{
    let v: num_complex::Complex64 = num_complex::Complex64::new(bytemuck::cast(x), bytemuck::cast(x));
    bytemuck::cast(v.re.cos())
}

/// IEEE 754 negation: the sign bit flipped.
pub(crate) fn neg32(x: u32) -> (r: u32)
    ensures
        r == crate::bits::f32_neg(x),
{
    x ^ 0x8000_0000
}

/// `a < b` on encoded f32 values.
pub(crate) fn lt32(a: u32, b: u32) -> (r: bool)
    ensures
        r == f32_lt(a, b),
{
    cmp32(a, b) == CMP_LT
}

/// `a > b` on encoded f32 values.
pub(crate) fn gt32(a: u32, b: u32) -> (r: bool)
    ensures
        r == f32_lt(b, a),
{
    cmp32(a, b) == CMP_GT
}

/// `a >= b` on encoded f32 values (false whenever a NaN is involved).
pub(crate) fn ge32(a: u32, b: u32) -> (r: bool)
    ensures
        r == (f32_lt(b, a) || f32_cmp(a, b) == CMP_EQ),
{
    let c = cmp32(a, b);
    c == CMP_GT || c == CMP_EQ
}

/// `a <= b` on encoded f32 values (false whenever a NaN is involved).
pub(crate) fn le32(a: u32, b: u32) -> (r: bool)
    ensures
        r == (f32_lt(a, b) || f32_cmp(a, b) == CMP_EQ),
{
    let c = cmp32(a, b);
    c == CMP_LT || c == CMP_EQ
}

/// `a == b` on encoded f32 values.
pub(crate) fn eq32(a: u32, b: u32) -> (r: bool)
    ensures
        r == (f32_cmp(a, b) == CMP_EQ),
{
    cmp32(a, b) == CMP_EQ
}

/// `a < b` on encoded f64 values.
pub(crate) fn lt64(a: u64, b: u64) -> (r: bool)
    ensures
        r == crate::bits::f64_lt(a, b),
{
    cmp64(a, b) == CMP_LT
}

/// The clamp of an encoded f32 value to the closed interval of two encoded
/// bounds, written with plain comparisons exactly as f32::clamp resolves for
/// ordered, non-NaN bounds: below the interval the lower bound, above it the
/// upper bound, otherwise (a NaN included) the value itself.
pub open spec fn f32_clamp(x: u32, lo: u32, hi: u32) -> u32 {
    if f32_lt(x, lo) {
        lo
    } else if f32_lt(hi, x) {
        hi
    } else {
        x
    }
}

/// Clamp an encoded f32 value between two encoded bounds.
pub(crate) fn clamp32(x: u32, lo: u32, hi: u32) -> (r: u32)
    ensures
        r == f32_clamp(x, lo, hi),
{
    if lt32(x, lo) {
        lo
    } else if gt32(x, hi) {
        hi
    } else {
        x
    }
}

/// A minimum of two encoded f32 values under the tie exclusion of the
/// trusted primitive, re-exported with the proof obligation discharged for a
/// non-zero second argument.
pub(crate) fn min32_nz(a: u32, b: u32) -> (r: u32)
    requires
        !f32_is_zero(b),
    ensures
        r == crate::bits::f32_min(a, b),
{
    proof {
        if f32_cmp(a, b) == CMP_EQ {
            lemma_f32_eq_same_bits(b, a);
        }
    }
    min32(a, b)
}

/// A maximum of two encoded f32 values, as for the minimum.
pub(crate) fn max32_nz(a: u32, b: u32) -> (r: u32)
    requires
        !f32_is_zero(b),
    ensures
        r == crate::bits::f32_max(a, b),
{
    proof {
        if f32_cmp(a, b) == CMP_EQ {
            lemma_f32_eq_same_bits(b, a);
        }
    }
    max32(a, b)
}

} // verus!
