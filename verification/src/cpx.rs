use vstd::prelude::*;

use crate::fmath::{f32_add, f32_mul, f32_sub};

verus! {

/// One complex baseband sample, both components carried as f32 bit patterns.
#[derive(Clone, Copy, PartialEq, Eq, Structural, Debug)]
pub struct Cx {
    pub re: u32,
    pub im: u32,
}

impl Cx {
    /// The complex zero.
    pub open spec fn spec_zero() -> Cx {
        Cx { re: crate::bits::F32_ZERO, im: crate::bits::F32_ZERO }
    }

    /// The complex zero.
    pub fn zero() -> (r: Cx)
        ensures
            r == Cx::spec_zero(),
    {
        Cx { re: crate::bits::F32_ZERO, im: crate::bits::F32_ZERO }
    }

    /// Build a sample from two component bit patterns.
    pub fn new(re: u32, im: u32) -> (r: Cx)
        ensures
            r == (Cx { re, im }),
    {
        Cx { re, im }
    }
}

/// Componentwise complex sum.
pub open spec fn cx_add(a: Cx, b: Cx) -> Cx {
    Cx { re: f32_add(a.re, b.re), im: f32_add(a.im, b.im) }
}

/// Componentwise complex difference.
pub open spec fn cx_sub(a: Cx, b: Cx) -> Cx {
    Cx { re: f32_sub(a.re, b.re), im: f32_sub(a.im, b.im) }
}

/// Complex product, in the operation order of num_complex.
pub open spec fn cx_mul(a: Cx, b: Cx) -> Cx {
    Cx {
        re: f32_sub(f32_mul(a.re, b.re), f32_mul(a.im, b.im)),
        im: f32_add(f32_mul(a.re, b.im), f32_mul(a.im, b.re)),
    }
}

/// Complex value scaled componentwise by a real factor.
pub open spec fn cx_scale(a: Cx, s: u32) -> Cx {
    Cx { re: f32_mul(a.re, s), im: f32_mul(a.im, s) }
}

/// What Complex::norm returns on a sample's component bits: the hypotenuse
/// of the two encoded values, one fixed function under the fixed-arithmetic
/// assumption of the scalar primitives module.
pub uninterp spec fn f32_hypot(re: u32, im: u32) -> u32;

/// What an in-place forward FFT of rustfft leaves in a buffer of samples,
/// one fixed function under the same assumption.
pub uninterp spec fn fft_of(input: Seq<Cx>) -> Seq<Cx>;

/// Relies on num_complex's Add for Complex<f32>: the componentwise sum. The
/// NaN-payload caveat of the scalar primitives applies to each component.
#[verifier::external_body]
pub(crate) fn add(a: Cx, b: Cx) -> (r: Cx)
    ensures
        r == cx_add(a, b),
{
    let x: num_complex::Complex32 = num_complex::Complex32::new(bytemuck::cast(a.re), bytemuck::cast(a.im));
    let y: num_complex::Complex32 = num_complex::Complex32::new(bytemuck::cast(b.re), bytemuck::cast(b.im));
    let c = x + y;
    Cx { re: bytemuck::cast(c.re), im: bytemuck::cast(c.im) }
}

/// Relies on num_complex's Sub for Complex<f32>: the componentwise
/// difference, under the same NaN-payload caveat as the scalar primitives.
#[verifier::external_body]
pub(crate) fn sub(a: Cx, b: Cx) -> (r: Cx)
    ensures
        r == cx_sub(a, b),
{
    let x: num_complex::Complex32 = num_complex::Complex32::new(bytemuck::cast(a.re), bytemuck::cast(a.im));
    let y: num_complex::Complex32 = num_complex::Complex32::new(bytemuck::cast(b.re), bytemuck::cast(b.im));
    let c = x - y;
    Cx { re: bytemuck::cast(c.re), im: bytemuck::cast(c.im) }
}

/// Relies on num_complex's Mul for Complex<f32>, which computes
/// (a.re*b.re - a.im*b.im, a.re*b.im + a.im*b.re) in that order, under the
/// same NaN-payload caveat as the scalar primitives.
#[verifier::external_body]
pub(crate) fn mul(a: Cx, b: Cx) -> (r: Cx)
    ensures
        r == cx_mul(a, b),
{
    let x: num_complex::Complex32 = num_complex::Complex32::new(bytemuck::cast(a.re), bytemuck::cast(a.im));
    let y: num_complex::Complex32 = num_complex::Complex32::new(bytemuck::cast(b.re), bytemuck::cast(b.im));
    let c = x * y;
    Cx { re: bytemuck::cast(c.re), im: bytemuck::cast(c.im) }
}

/// Relies on num_complex's Mul<f32> for Complex<f32>: both components scaled
/// by the factor, under the same NaN-payload caveat as the scalar
/// primitives.
#[verifier::external_body]
pub(crate) fn scale(a: Cx, s: u32) -> (r: Cx)
    ensures
        r == cx_scale(a, s),
{
    let x: num_complex::Complex32 = num_complex::Complex32::new(bytemuck::cast(a.re), bytemuck::cast(a.im));
    let f: num_complex::Complex32 = num_complex::Complex32::new(bytemuck::cast(s), bytemuck::cast(s));
    let c = x * f.re;
    Cx { re: bytemuck::cast(c.re), im: bytemuck::cast(c.im) }
}

/// Relies on num_complex's Complex::norm, which returns re.hypot(im). Rust
/// documents hypot's precision as non-deterministic; the name models it as
/// one fixed function of the component bits, under the fixed-arithmetic
/// assumption of the scalar primitives module.
#[verifier::external_body]
pub(crate) fn norm(a: Cx) -> (r: u32)
    ensures
        r == f32_hypot(a.re, a.im),
{
    let x: num_complex::Complex32 = num_complex::Complex32::new(bytemuck::cast(a.re), bytemuck::cast(a.im));
    bytemuck::cast(x.norm())
}

/// Relies on rustfft's FftPlanner::plan_fft_forward and Fft::process: an
/// in-place forward FFT over the whole buffer, which keeps its length. The
/// planner picks its kernel from the running machine's CPU features, so the
/// low-order result bits are a property of the machine; the name models the
/// transform as one fixed function of the contents, under the
/// fixed-arithmetic assumption of the scalar primitives module.
#[verifier::external_body]
pub(crate) fn fft_in_place(buf: &mut Vec<Cx>)
    requires
        old(buf)@.len() >= 1,
    ensures
        final(buf)@ == fft_of(old(buf)@),
        final(buf)@.len() == old(buf)@.len(),
{
    let mut b: Vec<num_complex::Complex32> = buf
        .iter()
        .map(|c| num_complex::Complex32::new(bytemuck::cast(c.re), bytemuck::cast(c.im)))
        .collect();
    let fft = rustfft::FftPlanner::new().plan_fft_forward(b.len());
    fft.process(&mut b);
    for (i, c) in b.iter().enumerate() {
        buf[i] = Cx { re: bytemuck::cast(c.re), im: bytemuck::cast(c.im) };
    }
}

} // verus!
