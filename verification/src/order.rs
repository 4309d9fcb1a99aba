//! Equality and order of scalars: the encodings, read as sign and magnitude,
//! stand in the same order as the numbers they encode.
use crate::scalar::{
    decode, encode, exponent_field, fraction_field, lemma_finite_magnitude_bound, magnitude_bits,
    scale, sign_field, significand, Scalar, INFINITY_BITS, SIGN_BIT,
};
use vstd::arithmetic::power2::{
    lemma2_to64, lemma_pow2_adds, lemma_pow2_pos, lemma_pow2_strictly_increases, pow2,
};
use vstd::prelude::*;
use vstd::std_specs::cmp::PartialEqSpecImpl;

verus! {

/// The encoding read as a signed integer: the magnitude bits, negated where
/// the sign bit is set.
pub open spec fn ordinal(bits: u32) -> int {
    if sign_field(bits) {
        -(magnitude_bits(bits) as int)
    } else {
        magnitude_bits(bits) as int
    }
}

/// Among encodings without a sign that are no NaN, a larger encoding stands
/// for a larger number.
pub proof fn lemma_position_increases(x: u32, y: u32)
    requires
        x < y <= INFINITY_BITS,
    ensures
        0 <= decode(x).position() < decode(y).position(),
{
    let ex = exponent_field(x);
    let ey = exponent_field(y);
    let kx = scale(x);
    let ky = scale(y);
    let sx = significand(x);
    let sy = significand(y);
    lemma2_to64();
    lemma_pow2_pos(kx);
    lemma_pow2_pos(ky);
    lemma_finite_magnitude_bound(x);
    assert(sx * pow2(kx) >= 0) by (nonlinear_arith)
        requires
            sx >= 0,
            pow2(kx) > 0,
    ;
    if ey == 0xff {
        assert(fraction_field(y) == 0);
    } else if ex == ey {
        assert(sx * pow2(kx) < sy * pow2(ky)) by (nonlinear_arith)
            requires
                sx < sy,
                kx == ky,
                pow2(kx) > 0,
        ;
    } else if ex == 0 {
        assert(sy * pow2(ky) >= 0x80_0000) by (nonlinear_arith)
            requires
                sy >= 0x80_0000,
                pow2(ky) >= 1,
        ;
        assert(sx * pow2(0) == sx);
    } else {
        lemma_pow2_adds(1, kx);
        if kx + 1 < ky {
            lemma_pow2_strictly_increases(kx + 1, ky);
        }
        assert(sx * pow2(kx) < sy * pow2(ky)) by (nonlinear_arith)
            requires
                sx < 0x100_0000,
                sy >= 0x80_0000,
                pow2(kx + 1) == 2 * pow2(kx),
                pow2(kx + 1) <= pow2(ky),
                pow2(kx) > 0,
        ;
    }
}

/// The encoding without its sign stands for the number without its sign.
pub proof fn lemma_position_of_magnitude(bits: u32)
    requires
        !decode(bits).is_nan(),
    ensures
        !decode(magnitude_bits(bits) as u32).is_nan(),
        magnitude_bits(bits) <= INFINITY_BITS,
        decode(bits).position() == if sign_field(bits) {
            -decode(magnitude_bits(bits) as u32).position()
        } else {
            decode(magnitude_bits(bits) as u32).position()
        },
{
    let m = magnitude_bits(bits) as u32;
    assert(exponent_field(m) == exponent_field(bits));
    assert(fraction_field(m) == fraction_field(bits));
    assert(!sign_field(m));
}

/// Encodings that are no NaN stand in the order of their numbers.
pub proof fn lemma_ordinal_order(x: u32, y: u32)
    requires
        !decode(x).is_nan(),
        !decode(y).is_nan(),
    ensures
        (ordinal(x) < ordinal(y)) == (decode(x).position() < decode(y).position()),
        (ordinal(x) == ordinal(y)) == (decode(x).position() == decode(y).position()),
{
    let mx = magnitude_bits(x) as u32;
    let my = magnitude_bits(y) as u32;
    lemma_position_of_magnitude(x);
    lemma_position_of_magnitude(y);
    lemma2_to64();
    assert(decode(0).position() == 0) by {
        assert(exponent_field(0) == 0);
        assert(0 * pow2(0) == 0);
    }
    if mx < my {
        lemma_position_increases(mx, my);
    } else if my < mx {
        lemma_position_increases(my, mx);
    }
    if 0 < mx {
        lemma_position_increases(0, mx);
    }
    if 0 < my {
        lemma_position_increases(0, my);
    }
}

/// Two encodings of one number are one encoding.
pub proof fn lemma_decode_injective(x: u32, y: u32)
    requires
        !decode(x).is_nan(),
        decode(x) == decode(y),
    ensures
        x == y,
{
    lemma_ordinal_order(x, y);
    assert(sign_field(x) == sign_field(y));
}

/// Two canonical scalars of one value are one scalar.
pub proof fn lemma_canonical_unique(a: Scalar, b: Scalar)
    requires
        a.is_canonical(),
        b.is_canonical(),
        a@ == b@,
    ensures
        a == b,
{
    if !a@.is_nan() {
        lemma_decode_injective(a.bits, b.bits);
    }
}

/// A canonical scalar is the encoding of its own value.
pub proof fn lemma_encode_own_value(s: Scalar)
    requires
        s.is_canonical(),
    ensures
        encode(s@) == s,
{
    reveal(encode);
    if !s@.is_nan() {
        let bits = choose|bits: u32| decode(bits) == s@;
        assert(decode(s.bits) == s@);
        lemma_decode_injective(s.bits, bits);
    }
}

impl Scalar {
    /// The encoding read as a signed integer.
    pub fn ordinal(self) -> (r: i64)
        ensures
            r == ordinal(self.bits),
    {
        let magnitude = (self.bits % SIGN_BIT) as i64;
        if self.bits >= SIGN_BIT {
            -magnitude
        } else {
            magnitude
        }
    }

    /// Numeric `<`: false when either side is a NaN.
    pub fn lt(self, rhs: Scalar) -> (r: bool)
        ensures
            r == self@.less_than(rhs@),
    {
        if self.is_nan() || rhs.is_nan() {
            return false;
        }
        proof {
            lemma_ordinal_order(self.bits, rhs.bits);
        }
        self.ordinal() < rhs.ordinal()
    }

    /// Numeric `<=`: false when either side is a NaN.
    pub fn le(self, rhs: Scalar) -> (r: bool)
        ensures
            r == self@.at_most(rhs@),
    {
        if self.is_nan() || rhs.is_nan() {
            return false;
        }
        proof {
            lemma_ordinal_order(self.bits, rhs.bits);
        }
        self.ordinal() <= rhs.ordinal()
    }

    /// Numeric `>`: false when either side is a NaN.
    pub fn gt(self, rhs: Scalar) -> (r: bool)
        ensures
            r == rhs@.less_than(self@),
    {
        rhs.lt(self)
    }

    /// Numeric `>=`: false when either side is a NaN.
    pub fn ge(self, rhs: Scalar) -> (r: bool)
        ensures
            r == rhs@.at_most(self@),
    {
        rhs.le(self)
    }
}

impl PartialEq for Scalar {
    /// Numeric equality: a NaN equals nothing, and the two zeros are equal.
    fn eq(&self, other: &Scalar) -> (r: bool) {
        if self.is_nan() || other.is_nan() {
            return false;
        }
        proof {
            lemma_ordinal_order(self.bits, other.bits);
        }
        self.ordinal() == other.ordinal()
    }
}

impl PartialEqSpecImpl for Scalar {
    open spec fn obeys_eq_spec() -> bool {
        true
    }

    open spec fn eq_spec(&self, other: &Scalar) -> bool {
        self@.same_number(other@)
    }
}

} // verus!
