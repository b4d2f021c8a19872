use vstd::prelude::*;

verus! {

// Bit patterns of the IEEE 754 values that the signal chain uses. Every
// floating-point quantity in this crate is carried as its raw bit pattern
// (`u32` for single precision, `u64` for double precision), so that the
// surrounding logic can be verified while the arithmetic itself is performed
// by trusted primitives.

/// +0.0f32
pub const F32_ZERO: u32 = 0x0000_0000;
/// -0.0f32
pub const F32_NEG_ZERO: u32 = 0x8000_0000;
/// 1.0f32
pub const F32_ONE: u32 = 0x3f80_0000;
/// 2.0f32
pub const F32_TWO: u32 = 0x4000_0000;
/// 0.5f32
pub const F32_HALF: u32 = 0x3f00_0000;
/// 10.0f32
pub const F32_TEN: u32 = 0x4120_0000;
/// 100.0f32
pub const F32_HUNDRED: u32 = 0x42c8_0000;
/// 128.0f32
pub const F32_128: u32 = 0x4300_0000;
/// 200.0f32
pub const F32_200: u32 = 0x4348_0000;
/// 4500.0f32
pub const F32_4500: u32 = 0x458c_a000;
/// 0.49f32
pub const F32_049: u32 = 0x3efa_e148;
/// pi as f32
pub const F32_PI: u32 = 0x4049_0fdb;
/// 2.0 * pi as f32 (the doubling is exact)
pub const F32_TWO_PI: u32 = 0x40c9_0fdb;
/// -2.0 * pi as f32
pub const F32_NEG_TWO_PI: u32 = 0xc0c9_0fdb;
/// -1.0f32
pub const F32_NEG_ONE: u32 = 0xbf80_0000;
/// 0.9921875f32, that is 127/128, the largest value that re-quantizes to 127
pub const F32_127_128: u32 = 0x3f7e_0000;
/// -120.0f32, the fill value of spectrum buffers before any transform ran
pub const F32_NEG_120: u32 = 0xc2f0_0000;
/// 1e-10f32, the magnitude floor that yields the -100 dB spectrum floor
pub const F32_DB_FLOOR: u32 = 0x2edb_e6ff;
/// 0.54f32, Hamming window weight
pub const F32_HAMMING_A: u32 = 0x3f0a_3d71;
/// 0.46f32, Hamming window weight
pub const F32_HAMMING_B: u32 = 0x3eeb_851f;
/// 1000.0f32, the fixed narrowing factor of the receiver's DC notch
pub const F32_DC_NOTCH_Q: u32 = 0x447a_0000;
/// 2e-4f32, envelope tracker coefficient
pub const F32_CARRIER_ALPHA: u32 = 0x3951_b717;
/// 2e-3f32, gain-increase smoothing coefficient
pub const F32_AGC_ATTACK: u32 = 0x3b03_126f;
/// 2e-2f32, gain-decrease smoothing coefficient
pub const F32_AGC_RELEASE: u32 = 0x3ca3_d70a;
/// 0.3f32, automatic gain control target level
pub const F32_AGC_TARGET: u32 = 0x3e99_999a;
/// 50.0f32, gain ceiling
pub const F32_MAX_GAIN: u32 = 0x4248_0000;
/// 0.98f32, audio output clip level
pub const F32_OUTPUT_CLIP: u32 = 0x3f7a_e148;
/// 1e-4f32, carrier level under which the gain target is zero
pub const F32_CARRIER_MIN: u32 = 0x38d1_b717;

/// +0.0f64
pub const F64_ZERO: u64 = 0x0000_0000_0000_0000;
/// 0.5f64
pub const F64_HALF: u64 = 0x3fe0_0000_0000_0000;
/// 2.0f64
pub const F64_TWO: u64 = 0x4000_0000_0000_0000;
/// 1.0f64
pub const F64_ONE: u64 = 0x3ff0_0000_0000_0000;
/// 0.95f64, transition-band margin of the resampler cutoff
pub const F64_095: u64 = 0x3fee_6666_6666_6666;
/// pi as f64
pub const F64_PI: u64 = 0x4009_21fb_5444_2d18;
/// 2.0 * pi as f64 (the doubling is exact)
pub const F64_TWO_PI: u64 = 0x4019_21fb_5444_2d18;
/// 4.0 * pi as f64
pub const F64_FOUR_PI: u64 = 0x4029_21fb_5444_2d18;
/// 0.42f64, Blackman window weight
pub const F64_BLACKMAN_A: u64 = 0x3fda_e147_ae14_7ae1;
/// 0.5f64, Blackman window weight
pub const F64_BLACKMAN_B: u64 = 0x3fe0_0000_0000_0000;
/// 0.08f64, Blackman window weight
pub const F64_BLACKMAN_C: u64 = 0x3fb4_7ae1_47ae_147b;
/// 1e-12f64, below which a sinc argument is treated as zero
pub const F64_SINC_EPS: u64 = 0x3d71_9799_812d_ea11;

// Outcomes of a floating-point comparison, shared by the single- and
// double-precision comparison primitives.

/// The left operand is smaller.
pub const CMP_LT: u8 = 0;
/// The operands are numerically equal.
pub const CMP_EQ: u8 = 1;
/// The left operand is larger.
pub const CMP_GT: u8 = 2;
/// At least one operand is a NaN.
pub const CMP_UN: u8 = 3;

/// Magnitude bits (everything but the sign) of an f32 pattern.
pub open spec fn f32_mag(x: u32) -> u32 {
    x & 0x7fff_ffff
}

/// The pattern encodes a NaN.
pub open spec fn f32_is_nan(x: u32) -> bool {
    f32_mag(x) > 0x7f80_0000
}

/// The pattern encodes a finite number (neither infinity nor NaN).
pub open spec fn f32_is_finite(x: u32) -> bool {
    f32_mag(x) < 0x7f80_0000
}

/// Sign bit of the pattern.
pub open spec fn f32_sign(x: u32) -> u32 {
    x >> 31u32
}

/// The pattern encodes a zero of either sign.
pub open spec fn f32_is_zero(x: u32) -> bool {
    f32_mag(x) == 0
}

/// Non-NaN f32 patterns ordered as signed magnitudes: this integer order
/// coincides with the IEEE 754 order of the encoded values, with both zeros
/// mapped to 0.
pub open spec fn f32_ord(x: u32) -> int {
    if f32_sign(x) == 0 {
        f32_mag(x) as int
    } else {
        -(f32_mag(x) as int)
    }
}

/// What `a < b` returns on the encoded f32 values.
pub open spec fn f32_lt(a: u32, b: u32) -> bool {
    !f32_is_nan(a) && !f32_is_nan(b) && f32_ord(a) < f32_ord(b)
}

/// The encoded value is strictly positive (so in particular not a NaN).
pub open spec fn f32_gt_zero(x: u32) -> bool {
    f32_lt(F32_ZERO, x)
}

/// Three-way comparison of two f32 patterns, as `partial_cmp` decides it.
pub open spec fn f32_cmp(a: u32, b: u32) -> u8 {
    if f32_is_nan(a) || f32_is_nan(b) {
        CMP_UN
    } else if f32_ord(a) < f32_ord(b) {
        CMP_LT
    } else if f32_ord(a) == f32_ord(b) {
        CMP_EQ
    } else {
        CMP_GT
    }
}

/// The encoded value with its sign flipped: exactly IEEE 754 negation.
pub open spec fn f32_neg(x: u32) -> u32 {
    x ^ 0x8000_0000
}

/// What f32::min returns, for arguments that do not compare equal with
/// distinct encodings: the smaller value, a NaN ignored in favour of the
/// other argument.
pub open spec fn f32_min(a: u32, b: u32) -> u32 {
    if f32_is_nan(a) {
        b
    } else if f32_is_nan(b) {
        a
    } else if f32_lt(b, a) {
        b
    } else {
        a
    }
}

/// What f32::max returns, under the same tie exclusion as the minimum.
pub open spec fn f32_max(a: u32, b: u32) -> u32 {
    if f32_is_nan(a) {
        b
    } else if f32_is_nan(b) {
        a
    } else if f32_lt(a, b) {
        b
    } else {
        a
    }
}

/// Magnitude bits of an f64 pattern.
pub open spec fn f64_mag(x: u64) -> u64 {
    x & 0x7fff_ffff_ffff_ffff
}

/// The pattern encodes a NaN.
pub open spec fn f64_is_nan(x: u64) -> bool {
    f64_mag(x) > 0x7ff0_0000_0000_0000
}

/// Sign bit of the pattern.
pub open spec fn f64_sign(x: u64) -> u64 {
    x >> 63u64
}

/// Non-NaN f64 patterns ordered as signed magnitudes, as for f32.
pub open spec fn f64_ord(x: u64) -> int {
    if f64_sign(x) == 0 {
        f64_mag(x) as int
    } else {
        -(f64_mag(x) as int)
    }
}

/// What `a < b` returns on the encoded f64 values.
pub open spec fn f64_lt(a: u64, b: u64) -> bool {
    !f64_is_nan(a) && !f64_is_nan(b) && f64_ord(a) < f64_ord(b)
}

/// Three-way comparison of two f64 patterns, as `partial_cmp` decides it.
pub open spec fn f64_cmp(a: u64, b: u64) -> u8 {
    if f64_is_nan(a) || f64_is_nan(b) {
        CMP_UN
    } else if f64_ord(a) < f64_ord(b) {
        CMP_LT
    } else if f64_ord(a) == f64_ord(b) {
        CMP_EQ
    } else {
        CMP_GT
    }
}

/// Two f32 patterns that compare numerically equal are the same pattern,
/// unless they are the two zeros.
pub proof fn lemma_f32_eq_same_bits(a: u32, b: u32)
    requires
        f32_cmp(a, b) == CMP_EQ,
        !f32_is_zero(a),
    ensures
        a == b,
{
    assert((a & 0x7fff_ffff) == (b & 0x7fff_ffff) && (a >> 31u32) == (b >> 31u32) ==> a == b)
        by (bit_vector);
    assert((a >> 31u32) == 0 || (a >> 31u32) == 1) by (bit_vector);
    assert((b >> 31u32) == 0 || (b >> 31u32) == 1) by (bit_vector);
    assert(f32_ord(a) == f32_ord(b));
    if f32_sign(a) == f32_sign(b) {
        if f32_sign(a) == 0 {
            assert(f32_mag(a) as int == f32_mag(b) as int);
        } else {
            assert(-(f32_mag(a) as int) == -(f32_mag(b) as int));
        }
        assert(f32_mag(a) == f32_mag(b));
    } else if f32_sign(a) == 0 {
        assert(f32_mag(a) as int == -(f32_mag(b) as int));
        assert(f32_mag(a) == 0);
    } else {
        assert(-(f32_mag(a) as int) == f32_mag(b) as int);
        assert(f32_mag(a) == 0);
    }
}

} // verus!
