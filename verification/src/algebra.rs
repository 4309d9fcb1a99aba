//! What the arithmetic of scalars obeys: which values have encodings, and
//! what one and zero do in products and sums.
use crate::rounding::{
    lemma_round_is_nearest, lemma_round_magnitude_scale, lemma_round_representable,
    lemma_round_value_has_encoding, lemma_round_zero, round_magnitude, round_value,
};
use crate::scalar::{
    decode, exponent_field, fraction_field, lemma_decode_one, lemma_finite_magnitude_bound,
    one_value, representable, scale, significand, Scalar, Value, INFINITY_BITS, NAN_BITS,
    ONE_BITS, SIGN_BIT,
};
use vstd::arithmetic::power2::{lemma2_to64, lemma_pow2_pos, pow2};
use vstd::prelude::*;

verus! {

/// Whether `v` is `a`, or both are zeros: what is left of `a` after zeros
/// have been added to it.
pub open spec fn same_up_to_zero_sign(v: Value, a: Value) -> bool {
    v == a || (v.is_zero() && a.is_zero())
}

/// The zeros of both signs have encodings.
pub proof fn lemma_zero_representable(negative: bool)
    ensures
        representable(Value::Finite { negative, magnitude: 0 }),
{
    lemma2_to64();
    assert(exponent_field(0) == 0 && fraction_field(0) == 0);
    assert(exponent_field(SIGN_BIT) == 0 && fraction_field(SIGN_BIT) == 0);
    assert(0 * pow2(0) == 0);
    if negative {
        assert(decode(SIGN_BIT) == Value::Finite { negative, magnitude: 0 });
    } else {
        assert(decode(0) == Value::Finite { negative, magnitude: 0 });
    }
}

/// One has an encoding.
pub proof fn lemma_one_representable()
    ensures
        representable(one_value()),
{
    lemma_decode_one();
    assert(decode(ONE_BITS) == one_value());
}

/// The infinities of both signs have encodings.
pub proof fn lemma_infinity_representable(negative: bool)
    ensures
        representable(Value::Infinite { negative }),
{
    assert(exponent_field(INFINITY_BITS) == 0xff && fraction_field(INFINITY_BITS) == 0);
    assert(exponent_field(0xff80_0000u32) == 0xff && fraction_field(0xff80_0000u32) == 0);
    if negative {
        assert(decode(0xff80_0000u32) == Value::Infinite { negative });
    } else {
        assert(decode(INFINITY_BITS) == Value::Infinite { negative });
    }
}

/// NaN has an encoding.
pub proof fn lemma_nan_representable()
    ensures
        representable(Value::Nan),
{
    assert(exponent_field(NAN_BITS) == 0xff && fraction_field(NAN_BITS) == 0x40_0000);
    assert(decode(NAN_BITS) == Value::Nan);
}

/// The value of a scalar has an encoding.
pub proof fn lemma_scalar_representable(s: Scalar)
    ensures
        representable(s@),
{
    assert(decode(s.bits) == s@);
}

/// A finite value that has an encoding is what its own number of steps
/// rounds to.
pub proof fn lemma_round_own_magnitude(v: Value)
    requires
        representable(v),
        v.is_finite(),
    ensures
        v == round_value(v.is_negative(), v->magnitude, 1),
{
    let bits = choose|bits: u32| decode(bits) == v;
    lemma_round_representable(bits);
    lemma_finite_magnitude_bound(bits);
}

/// One times a value is that value, on either side.
pub proof fn lemma_times_one(a: Value)
    requires
        representable(a),
        !a.is_nan(),
    ensures
        one_value().times(a) == a,
        a.times(one_value()) == a,
{
    lemma_pow2_pos(149);
    if a.is_finite() {
        let m = a->magnitude;
        lemma_round_own_magnitude(a);
        lemma_round_magnitude_scale(m, 1, pow2(149));
        assert(pow2(149) * m == m * pow2(149)) by (nonlinear_arith);
        assert(1 * pow2(149) == pow2(149));
    }
}

/// One times a value with an encoding is that value, NaN included.
pub proof fn lemma_times_one_any(a: Value)
    requires
        representable(a),
    ensures
        a.times(one_value()) == a,
        one_value().times(a) == a,
{
    if !a.is_nan() {
        lemma_times_one(a);
    }
}

/// Zero times a finite value is a zero, on either side.
pub proof fn lemma_times_zero(z: Value, a: Value)
    requires
        z.is_zero(),
        a.is_finite(),
    ensures
        z.times(a).is_zero(),
        a.times(z).is_zero(),
        z.times(a).is_negative() == (z.is_negative() != a.is_negative()),
        a.times(z).is_negative() == (z.is_negative() != a.is_negative()),
{
    let m = a->magnitude;
    lemma_pow2_pos(149);
    lemma_pow2_pos(277);
    lemma_round_zero(pow2(149));
    assert(0 * m == 0 && m * 0 == 0) by (nonlinear_arith);
}

/// Adding a zero to a number that has an encoding leaves the number, on
/// either side; only the sign of a zero may change.
pub proof fn lemma_plus_zero(z: Value, a: Value)
    requires
        z.is_zero(),
        representable(a),
        !a.is_nan(),
    ensures
        same_up_to_zero_sign(z.plus(a), a),
        same_up_to_zero_sign(a.plus(z), a),
{
    if a.is_finite() {
        lemma_round_own_magnitude(a);
    }
}

/// What is left of a number after zeros were added is a number with an
/// encoding, and is the same number.
pub proof fn lemma_same_up_to_zero_sign(v: Value, a: Value)
    requires
        same_up_to_zero_sign(v, a),
        representable(a),
        !a.is_nan(),
    ensures
        representable(v),
        !v.is_nan(),
        v.same_number(a),
{
    if v != a {
        lemma_zero_representable(v.is_negative());
    }
}

/// A sum has an encoding, whatever it is formed of.
pub proof fn lemma_sum_representable(a: Value, b: Value)
    ensures
        representable(a.plus(b)),
{
    lemma_nan_representable();
    lemma_infinity_representable(true);
    lemma_infinity_representable(false);
    lemma_zero_representable(true);
    lemma_zero_representable(false);
    if a.is_finite() && b.is_finite() {
        let steps = a.position() + b.position();
        if steps < 0 {
            lemma_round_value_has_encoding(true, (-steps) as nat, 1);
        } else {
            lemma_round_value_has_encoding(false, steps as nat, 1);
        }
    }
}

/// Sums, differences, products and quotients have encodings, whatever they
/// are formed of.
pub proof fn lemma_results_representable(a: Value, b: Value)
    ensures
        representable(a.plus(b)),
        representable(a.minus(b)),
        representable(a.times(b)),
        representable(a.divided_by(b)),
{
    lemma_nan_representable();
    lemma_infinity_representable(true);
    lemma_infinity_representable(false);
    lemma_zero_representable(true);
    lemma_zero_representable(false);
    lemma_pow2_pos(149);
    lemma_sum_representable(a, b);
    lemma_sum_representable(a, b.negated());
    if a.is_finite() && b.is_finite() {
        let negative = a.is_negative() != b.is_negative();
        lemma_round_value_has_encoding(negative, a->magnitude * b->magnitude, pow2(149));
        if b->magnitude != 0 {
            lemma_round_value_has_encoding(negative, a->magnitude * pow2(149), b->magnitude);
        }
    }
}

/// A sum of three terms of which one is a number with an encoding and the
/// other two are zeros is that number, up to the sign of a zero.  `place`
/// says which term the number is, counted from one in the order in which
/// the terms are added.
pub proof fn lemma_sum_with_zeros(first: Value, second: Value, third: Value, a: Value, place: int)
    requires
        representable(a),
        !a.is_nan(),
        1 <= place <= 3,
        place == 1 ==> first == a && second.is_zero() && third.is_zero(),
        place == 2 ==> first.is_zero() && second == a && third.is_zero(),
        place == 3 ==> first.is_zero() && second.is_zero() && third == a,
    ensures
        third.plus(second.plus(first)).same_number(a),
{
    let inner = second.plus(first);
    if place == 1 {
        lemma_plus_zero(second, a);
        lemma_same_up_to_zero_sign(inner, a);
        lemma_plus_zero(third, inner);
        lemma_same_up_to_zero_sign(third.plus(inner), inner);
    } else if place == 2 {
        lemma_plus_zero(first, a);
        lemma_same_up_to_zero_sign(inner, a);
        lemma_plus_zero(third, inner);
        lemma_same_up_to_zero_sign(third.plus(inner), inner);
    } else {
        lemma_zero_representable(first.is_negative());
        lemma_plus_zero(second, first);
        lemma_same_up_to_zero_sign(inner, first);
        lemma_plus_zero(inner, a);
        lemma_same_up_to_zero_sign(third.plus(inner), a);
    }
}

/// The distance between two whole numbers of either sign.
pub open spec fn far(x: int, y: int) -> int {
    if x >= y {
        x - y
    } else {
        y - x
    }
}

/// A magnitude with a sign.
pub open spec fn signed(negative: bool, magnitude: nat) -> int {
    if negative {
        -(magnitude as int)
    } else {
        magnitude as int
    }
}

/// What rounding to a nearest magnitude means once signs are attached: the
/// rounded magnitude with the sign of the exact number lies no farther from
/// the exact number than any magnitude of the grid with either sign.
pub proof fn lemma_nearest_with_signs(
    negative: bool,
    num: nat,
    den: nat,
    other_negative: bool,
    n: nat,
    k: nat,
)
    requires
        den > 0,
        n < 0x100_0000,
    ensures
        far(signed(negative, round_magnitude(num, den) * den), signed(negative, num)) <= far(
            signed(other_negative, n * pow2(k) * den),
            signed(negative, num),
        ),
{
    lemma_round_is_nearest(num, den, n, k);
    lemma_round_is_nearest(num, den, 0, 0);
    assert(0 * pow2(0) * den == 0) by (nonlinear_arith);
}

/// The sum of two finite values, where it is finite, is a scalar nearest to
/// their exact sum: no finite scalar `g` lies nearer.
pub proof fn lemma_sum_is_nearest(a: Value, b: Value, g: Scalar)
    requires
        a.is_finite(),
        b.is_finite(),
        a.plus(b).is_finite(),
        g@.is_finite(),
    ensures
        far(a.plus(b).position(), a.position() + b.position()) <= far(
            g@.position(),
            a.position() + b.position(),
        ),
{
    let exact = a.position() + b.position();
    if exact != 0 {
        let negative = exact < 0;
        let num: nat = if negative {
            (-exact) as nat
        } else {
            exact as nat
        };
        let sig = significand(g.bits);
        let k = scale(g.bits);
        lemma_nearest_with_signs(negative, num, 1, g@.is_negative(), sig, k);
        assert(round_magnitude(num, 1) * 1 == round_magnitude(num, 1));
        assert(sig * pow2(k) * 1 == sig * pow2(k));
    }
}

/// The product of two finite values, where it is finite, is a scalar
/// nearest to their exact product: no finite scalar `g` lies nearer.  The
/// product of two numbers of steps counts steps of steps, so the scalars
/// are measured in those.
pub proof fn lemma_product_is_nearest(a: Value, b: Value, g: Scalar)
    requires
        a.is_finite(),
        b.is_finite(),
        a.times(b).is_finite(),
        g@.is_finite(),
    ensures
        far(a.times(b).position() * pow2(149), a.position() * b.position()) <= far(
            g@.position() * pow2(149),
            a.position() * b.position(),
        ),
{
    let negative = a.is_negative() != b.is_negative();
    let m1 = a->magnitude;
    let m2 = b->magnitude;
    let num = m1 * m2;
    let den = pow2(149);
    let rounded = round_magnitude(num, den);
    let sig = significand(g.bits);
    let k = scale(g.bits);
    lemma_pow2_pos(149);
    lemma_nearest_with_signs(negative, num, den, g@.is_negative(), sig, k);
    assert(a.position() * b.position() == signed(negative, num)) by (nonlinear_arith)
        requires
            a.position() == signed(a.is_negative(), m1),
            b.position() == signed(b.is_negative(), m2),
            negative == (a.is_negative() != b.is_negative()),
            num == m1 * m2,
    ;
    assert(a.times(b).position() * den == signed(negative, rounded * den)) by (nonlinear_arith)
        requires
            a.times(b).position() == signed(negative, rounded),
    ;
    assert(g@.position() * den == signed(g@.is_negative(), sig * pow2(k) * den))
        by (nonlinear_arith)
        requires
            g@.position() == signed(g@.is_negative(), sig * pow2(k)),
    ;
}

/// The quotient of two finite values, the second not zero, where it is
/// finite, is a scalar nearest to their exact quotient: no finite scalar
/// `g` lies nearer.  Both sides are multiplied by the divisor, so that only
/// whole numbers are compared.
pub proof fn lemma_quotient_is_nearest(a: Value, b: Value, g: Scalar)
    requires
        a.is_finite(),
        b.is_finite(),
        !b.is_zero(),
        a.divided_by(b).is_finite(),
        g@.is_finite(),
    ensures
        far(a.divided_by(b).position() * b.position(), a.position() * pow2(149)) <= far(
            g@.position() * b.position(),
            a.position() * pow2(149),
        ),
{
    let negative = a.is_negative() != b.is_negative();
    let m1 = a->magnitude;
    let m2 = b->magnitude;
    let num = m1 * pow2(149);
    let den = m2;
    let rounded = round_magnitude(num, den);
    let sig = significand(g.bits);
    let k = scale(g.bits);
    let other = g@.is_negative() != b.is_negative();
    lemma_nearest_with_signs(a.is_negative(), num, den, other, sig, k);
    assert(a.position() * pow2(149) == signed(a.is_negative(), num)) by (nonlinear_arith)
        requires
            a.position() == signed(a.is_negative(), m1),
            num == m1 * pow2(149),
    ;
    assert(a.divided_by(b).position() * b.position() == signed(a.is_negative(), rounded * den))
        by (nonlinear_arith)
        requires
            a.divided_by(b).position() == signed(negative, rounded),
            b.position() == signed(b.is_negative(), den),
            negative == (a.is_negative() != b.is_negative()),
    ;
    assert(g@.position() * b.position() == signed(other, sig * pow2(k) * den))
        by (nonlinear_arith)
        requires
            g@.position() == signed(g@.is_negative(), sig * pow2(k)),
            b.position() == signed(b.is_negative(), den),
            other == (g@.is_negative() != b.is_negative()),
    ;
}

} // verus!
