//! Addition, subtraction, multiplication and division of scalars.
//!
//! Each operation is stated on values: the exact result of the operation on
//! the two numbers of steps, rounded once to nearest with ties to even.
use crate::order::lemma_encode_own_value;
use crate::rounding::{
    bit_length, lemma_quotient_at_least, lemma_quotient_below, lemma_round_magnitude_scale,
    lemma_round_zero, power_of_two, round_pack, round_value,
};
use crate::scalar::{
    encode, fraction_field, magnitude_bits, scale, sign_field, significand, Scalar, Value,
    SIGN_BIT,
};
use core::ops::{Add, Div, Mul, Neg, Sub};
use vstd::arithmetic::div_mod::lemma_fundamental_div_mod_converse;
use vstd::arithmetic::power2::{
    lemma2_to64, lemma2_to64_rest, lemma_pow2_adds, lemma_pow2_pos,
    lemma_pow2_strictly_increases, pow2,
};
use vstd::prelude::*;

verus! {

/// The value that a whole number of steps rounds to; zero is positive.
pub open spec fn round_steps(steps: int) -> Value {
    if steps < 0 {
        round_value(true, (-steps) as nat, 1)
    } else {
        round_value(false, steps as nat, 1)
    }
}

impl Value {
    /// The sum of two values.
    ///
    /// The sum of two finite values is their exact sum, rounded; an exact
    /// zero is negative only when both terms are.  Infinities of opposite
    /// sign have no sum.
    pub open spec fn plus(self, rhs: Value) -> Value {
        match (self, rhs) {
            (Value::Nan, _) => Value::Nan,
            (_, Value::Nan) => Value::Nan,
            (Value::Infinite { negative: n1 }, Value::Infinite { negative: n2 }) => if n1 == n2 {
                self
            } else {
                Value::Nan
            },
            (Value::Infinite { .. }, _) => self,
            (_, Value::Infinite { .. }) => rhs,
            (Value::Finite { negative: n1, .. }, Value::Finite { negative: n2, .. }) => {
                let steps = self.position() + rhs.position();
                if steps == 0 {
                    Value::Finite { negative: n1 && n2, magnitude: 0 }
                } else {
                    round_steps(steps)
                }
            },
        }
    }

    /// The difference of two values: the sum with the second negated.
    pub open spec fn minus(self, rhs: Value) -> Value {
        self.plus(rhs.negated())
    }

    /// The product of two values.
    ///
    /// The product of two finite values is their exact product, rounded; its
    /// sign is negative when exactly one factor is.  An infinity times a zero
    /// has no product.
    pub open spec fn times(self, rhs: Value) -> Value {
        let negative = self.is_negative() != rhs.is_negative();
        match (self, rhs) {
            (Value::Nan, _) => Value::Nan,
            (_, Value::Nan) => Value::Nan,
            (Value::Finite { magnitude: m1, .. }, Value::Finite { magnitude: m2, .. }) => round_value(
                negative,
                m1 * m2,
                pow2(149),
            ),
            _ => if self.is_zero() || rhs.is_zero() {
                Value::Nan
            } else {
                Value::Infinite { negative }
            },
        }
    }

    /// The quotient of two values.
    ///
    /// The quotient of two finite values, the second not zero, is their
    /// exact quotient, rounded.  Zero by zero and infinity by infinity have
    /// no quotient; anything else by zero is an infinity.
    pub open spec fn divided_by(self, rhs: Value) -> Value {
        let negative = self.is_negative() != rhs.is_negative();
        match (self, rhs) {
            (Value::Nan, _) => Value::Nan,
            (_, Value::Nan) => Value::Nan,
            (Value::Infinite { .. }, Value::Infinite { .. }) => Value::Nan,
            (Value::Infinite { .. }, Value::Finite { .. }) => Value::Infinite { negative },
            (Value::Finite { .. }, Value::Infinite { .. }) => Value::Finite {
                negative,
                magnitude: 0,
            },
            (Value::Finite { magnitude: m1, .. }, Value::Finite { magnitude: m2, .. }) => if m2
                == 0 {
                if m1 == 0 {
                    Value::Nan
                } else {
                    Value::Infinite { negative }
                }
            } else {
                round_value(negative, m1 * pow2(149), m2)
            },
        }
    }
}

/// The scalar nearest to the difference or sum of two magnitudes whose
/// scales lie far apart: `high * 2^scale_high` and `low * 2^scale_low`.
/// The lower one cannot reach the place where the higher one is rounded, so
/// two more bits of the higher one and the fact that something lies beyond
/// them decide.
fn add_far(
    negative: bool,
    high: u64,
    scale_high: i32,
    low: u64,
    scale_low: i32,
    same_sign: bool,
) -> (r: Scalar)
    requires
        0x80_0000 <= high < 0x100_0000,
        low < 0x100_0000,
        0 <= scale_low,
        scale_low + 32 < scale_high <= 254,
    ensures
        ({
            let big: nat = high as nat * pow2(scale_high as nat);
            let small: nat = low as nat * pow2(scale_low as nat);
            r@ == round_value(
                negative,
                if same_sign {
                    big + small
                } else {
                    (big - small) as nat
                },
                1,
            )
        }),
{
    let ghost gap = (scale_high - scale_low) as nat;
    let ghost unit = pow2((gap - 2) as nat);
    let ghost a: nat = if same_sign {
        high as nat * pow2(gap) + low as nat
    } else {
        (high as nat * pow2(gap) - low) as nat
    };
    let m: u64 = if same_sign || low == 0 {
        high * 4
    } else {
        high * 4 - 1
    };
    proof {
        lemma2_to64();
        lemma_pow2_adds(2, (gap - 2) as nat);
        lemma_pow2_pos((gap - 2) as nat);
        if gap - 2 > 24 {
            lemma_pow2_strictly_increases(24, (gap - 2) as nat);
        }
        assert(low < unit);
        assert(high * pow2(gap) == (high * 4) * unit) by (nonlinear_arith)
            requires
                pow2(gap) == 4 * unit,
        ;
        if same_sign || low == 0 {
            lemma_fundamental_div_mod_converse(
                a as int,
                unit as int,
                m as int,
                low as int,
            );
        } else {
            assert((high * 4) * unit == (high * 4 - 1) * unit + unit) by (nonlinear_arith);
            lemma_fundamental_div_mod_converse(
                a as int,
                unit as int,
                m as int,
                (unit - low) as int,
            );
        }
    }
    let r = round_pack(negative, m, scale_high - 2, low != 0, Ghost(a), Ghost(unit));
    proof {
        let steps: nat = a * pow2(scale_low as nat);
        let big: nat = high as nat * pow2(scale_high as nat);
        let small: nat = low as nat * pow2(scale_low as nat);
        lemma_pow2_adds(gap, scale_low as nat);
        lemma_pow2_adds((gap - 2) as nat, scale_low as nat);
        assert(high * pow2(gap) * pow2(scale_low as nat) == big) by (nonlinear_arith)
            requires
                pow2(scale_high as nat) == pow2(gap) * pow2(scale_low as nat),
                big == high * pow2(scale_high as nat),
        ;
        if same_sign {
            assert(steps == big + small) by (nonlinear_arith)
                requires
                    steps == (high * pow2(gap) + low) * pow2(scale_low as nat),
                    high * pow2(gap) * pow2(scale_low as nat) == big,
                    small == low * pow2(scale_low as nat),
            ;
        } else {
            assert(steps == big - small) by (nonlinear_arith)
                requires
                    steps == (high * pow2(gap) - low) * pow2(scale_low as nat),
                    high * pow2(gap) * pow2(scale_low as nat) == big,
                    small == low * pow2(scale_low as nat),
            ;
        }
        assert(a * pow2((scale_high - 2) as nat) == steps * unit) by (nonlinear_arith)
            requires
                steps == a * pow2(scale_low as nat),
                pow2((scale_high - 2) as nat) == unit * pow2(scale_low as nat),
        ;
        lemma_round_magnitude_scale(steps, 1, unit);
        assert(1 * unit == unit);
    }
    r
}

/// The scalar nearest to the sum of two signed magnitudes whose scales lie
/// close enough for the sum to be formed exactly: `high * 2^scale_high`
/// with the sign `negative_high`, and `low * 2^scale_low` with the sign
/// `negative_low`.
fn add_near(
    negative_high: bool,
    high: u64,
    scale_high: i32,
    negative_low: bool,
    low: u64,
    scale_low: i32,
) -> (r: Scalar)
    requires
        high < 0x100_0000,
        low < 0x100_0000,
        0 <= scale_low <= scale_high <= scale_low + 32,
        scale_high <= 254,
    ensures
        ({
            let big = Value::Finite {
                negative: negative_high,
                magnitude: high as nat * pow2(scale_high as nat),
            };
            let small = Value::Finite {
                negative: negative_low,
                magnitude: low as nat * pow2(scale_low as nat),
            };
            r@ == big.plus(small)
        }),
{
    let gap: u32 = (scale_high - scale_low) as u32;
    let factor = power_of_two(gap);
    proof {
        lemma2_to64();
        if gap < 32 {
            lemma_pow2_strictly_increases(gap as nat, 32);
        }
        lemma_pow2_adds(gap as nat, scale_low as nat);
        assert(high * factor < 0x100_0000 * 0x1_0000_0000) by (nonlinear_arith)
            requires
                high < 0x100_0000,
                factor <= 0x1_0000_0000,
        ;
    }
    let lifted: u64 = high * factor;
    let ghost unit = pow2(scale_low as nat);
    let ghost big: nat = high as nat * pow2(scale_high as nat);
    let ghost small: nat = low as nat * unit;
    proof {
        assert(big == lifted * unit) by (nonlinear_arith)
            requires
                big == high as nat * pow2(scale_high as nat),
                pow2(scale_high as nat) == factor * unit,
                lifted == high * factor,
        ;
        lemma_pow2_pos(scale_low as nat);
    }
    if negative_high == negative_low {
        let total: u64 = lifted + low;
        proof {
            assert(total * unit == big + small) by (nonlinear_arith)
                requires
                    total == lifted + low,
                    big == lifted * unit,
                    small == low * unit,
            ;
            if total == 0 {
                lemma_round_zero(1);
                assert(0 * unit == 0);
            } else {
                assert(total * unit > 0) by (nonlinear_arith)
                    requires
                        total > 0,
                        unit > 0,
                ;
            }
        }
        let r = round_pack(negative_high, total, scale_low, false, Ghost(total as nat), Ghost(1));
        proof {
            if total == 0 {
                lemma_pow2_pos(277);
            }
        }
        r
    } else if lifted > low {
        let rest: u64 = lifted - low;
        proof {
            assert(rest * unit == big - small) by (nonlinear_arith)
                requires
                    rest == lifted - low,
                    big == lifted * unit,
                    small == low * unit,
            ;
            assert(rest * unit > 0) by (nonlinear_arith)
                requires
                    rest > 0,
                    unit > 0,
            ;
        }
        round_pack(negative_high, rest, scale_low, false, Ghost(rest as nat), Ghost(1))
    } else if lifted < low {
        let rest: u64 = low - lifted;
        proof {
            assert(rest * unit == small - big) by (nonlinear_arith)
                requires
                    rest == low - lifted,
                    big == lifted * unit,
                    small == low * unit,
            ;
            assert(rest * unit > 0) by (nonlinear_arith)
                requires
                    rest > 0,
                    unit > 0,
            ;
        }
        round_pack(negative_low, rest, scale_low, false, Ghost(rest as nat), Ghost(1))
    } else {
        Scalar::signed_zero(false)
    }
}

/// The sum of two scalars, rounded to nearest with ties to even.
fn sum(lhs: Scalar, rhs: Scalar) -> (r: Scalar)
    ensures
        r@ == lhs@.plus(rhs@),
        r.is_canonical(),
{
    if lhs.is_nan() || rhs.is_nan() {
        return Scalar::nan();
    }
    if lhs.is_infinite() {
        if rhs.is_infinite() && lhs.is_sign_negative() != rhs.is_sign_negative() {
            return Scalar::nan();
        }
        return lhs;
    }
    if rhs.is_infinite() {
        return rhs;
    }
    let scale_left = lhs.scale();
    let scale_right = rhs.scale();
    if scale_left >= scale_right {
        add_ordered(lhs, rhs)
    } else {
        let r = add_ordered(rhs, lhs);
        proof {
            lemma_plus_commutes(lhs@, rhs@);
        }
        r
    }
}

/// The sum of two finite scalars of which the first has the larger scale.
fn add_ordered(high: Scalar, low: Scalar) -> (r: Scalar)
    requires
        high@.is_finite(),
        low@.is_finite(),
        scale(high.bits) >= scale(low.bits),
    ensures
        r@ == high@.plus(low@),
        !r@.is_nan(),
{
    let negative_high = high.is_sign_negative();
    let negative_low = low.is_sign_negative();
    let scale_high = high.scale();
    let scale_low = low.scale();
    if scale_high - scale_low <= 32 {
        add_near(
            negative_high,
            high.significand(),
            scale_high,
            negative_low,
            low.significand(),
            scale_low,
        )
    } else {
        let r = add_far(
            negative_high,
            high.significand(),
            scale_high,
            low.significand(),
            scale_low,
            negative_high == negative_low,
        );
        proof {
            let big: nat = significand(high.bits) * pow2(scale(high.bits));
            let small: nat = significand(low.bits) * pow2(scale(low.bits));
            lemma2_to64();
            lemma_pow2_adds(24, scale(low.bits));
            lemma_pow2_adds(23, scale(high.bits));
            lemma_pow2_strictly_increases(
                24 + scale(low.bits),
                23 + scale(high.bits),
            );
            lemma_pow2_pos(scale(low.bits));
            lemma_pow2_pos(scale(high.bits));
            assert(small < pow2(24 + scale(low.bits))) by (nonlinear_arith)
                requires
                    small == significand(low.bits) * pow2(scale(low.bits)),
                    significand(low.bits) < 0x100_0000,
                    pow2(24 + scale(low.bits)) == 0x100_0000 * pow2(scale(low.bits)),
                    pow2(scale(low.bits)) > 0,
            ;
            assert(big >= pow2(23 + scale(high.bits))) by (nonlinear_arith)
                requires
                    big == significand(high.bits) * pow2(scale(high.bits)),
                    significand(high.bits) >= 0x80_0000,
                    pow2(23 + scale(high.bits)) == 0x80_0000 * pow2(scale(high.bits)),
                    pow2(scale(high.bits)) > 0,
            ;
            assert(small < big);
        }
        r
    }
}

/// The product of two scalars, rounded to nearest with ties to even.
fn product(lhs: Scalar, rhs: Scalar) -> (r: Scalar)
    ensures
        r@ == lhs@.times(rhs@),
        r.is_canonical(),
{
    if lhs.is_nan() || rhs.is_nan() {
        return Scalar::nan();
    }
    let negative = lhs.is_sign_negative() != rhs.is_sign_negative();
    if lhs.is_infinite() || rhs.is_infinite() {
        if lhs.is_zero() || rhs.is_zero() {
            return Scalar::nan();
        }
        return Scalar::infinity(negative);
    }
    let left = lhs.significand();
    let right = rhs.significand();
    proof {
        assert(left * right < 0x100_0000 * 0x100_0000) by (nonlinear_arith)
            requires
                left < 0x100_0000,
                right < 0x100_0000,
        ;
    }
    let product: u64 = left * right;
    let e: i32 = lhs.scale() + rhs.scale() - 149;
    let r = round_pack(negative, product, e, false, Ghost(product as nat), Ghost(1));
    proof {
        let k1 = scale(lhs.bits);
        let k2 = scale(rhs.bits);
        let m1: nat = significand(lhs.bits) * pow2(k1);
        let m2: nat = significand(rhs.bits) * pow2(k2);
        let p = product as nat;
        lemma_pow2_adds(k1, k2);
        assert(m1 * m2 == p * pow2(k1 + k2)) by (nonlinear_arith)
            requires
                m1 == left * pow2(k1),
                m2 == right * pow2(k2),
                p == left * right,
                pow2(k1 + k2) == pow2(k1) * pow2(k2),
        ;
        lemma_pow2_pos(149);
        if e >= 0 {
            lemma_pow2_adds(e as nat, 149);
            assert(m1 * m2 == (p * pow2(e as nat)) * pow2(149)) by (nonlinear_arith)
                requires
                    m1 * m2 == p * pow2(k1 + k2),
                    pow2(k1 + k2) == pow2(e as nat) * pow2(149),
            ;
            lemma_round_magnitude_scale(p * pow2(e as nat), 1, pow2(149));
            assert(1 * pow2(149) == pow2(149));
        } else {
            lemma_pow2_adds((-e) as nat, k1 + k2);
            lemma_pow2_pos((-e) as nat);
            lemma_pow2_pos(k1 + k2);
            assert(1 * pow2((-e) as nat) == pow2((-e) as nat));
            lemma_round_magnitude_scale(p, pow2((-e) as nat), pow2(k1 + k2));
        }
    }
    r
}

/// The quotient of two scalars, rounded to nearest with ties to even.
fn quotient(lhs: Scalar, rhs: Scalar) -> (r: Scalar)
    ensures
        r@ == lhs@.divided_by(rhs@),
        r.is_canonical(),
{
    if lhs.is_nan() || rhs.is_nan() {
        return Scalar::nan();
    }
    let negative = lhs.is_sign_negative() != rhs.is_sign_negative();
    if lhs.is_infinite() {
        if rhs.is_infinite() {
            return Scalar::nan();
        }
        return Scalar::infinity(negative);
    }
    if rhs.is_infinite() {
        return Scalar::signed_zero(negative);
    }
    if rhs.is_zero() {
        if lhs.is_zero() {
            return Scalar::nan();
        }
        return Scalar::infinity(negative);
    }
    let ghost k1 = scale(lhs.bits);
    let ghost k2 = scale(rhs.bits);
    let ghost m1: nat = significand(lhs.bits) * pow2(k1);
    let ghost m2: nat = significand(rhs.bits) * pow2(k2);
    if lhs.is_zero() {
        proof {
            assert(0 * pow2(149) == 0);
            lemma_round_zero(m2);
            lemma_pow2_pos(277);
        }
        return Scalar::signed_zero(negative);
    }
    let top = lhs.significand();
    let bottom = rhs.significand();
    proof {
        lemma_pow2_pos(k1);
        lemma_pow2_pos(k2);
        assert(top > 0 && bottom > 0) by (nonlinear_arith)
            requires
                m1 == top * pow2(k1),
                m2 == bottom * pow2(k2),
                m1 > 0,
                m2 > 0,
        ;
    }
    let len = bit_length(top);
    proof {
        lemma2_to64();
        if len > 24 {
            lemma_pow2_strictly_increases(24, (len - 1) as nat);
        }
    }
    let lift: u32 = 24 - len + 38;
    let factor = power_of_two(lift);
    proof {
        lemma_pow2_adds((len - 1) as nat, lift as nat);
        lemma_pow2_adds(len as nat, lift as nat);
        lemma2_to64_rest();
        assert(0x2000_0000_0000_0000 <= top * factor < 0x4000_0000_0000_0000)
            by (nonlinear_arith)
            requires
                pow2((len - 1) as nat) <= top < pow2(len as nat),
                pow2((len - 1) as nat) * factor == 0x2000_0000_0000_0000,
                pow2(len as nat) * factor == 0x4000_0000_0000_0000,
                factor > 0,
        ;
    }
    let dividend: u64 = top * factor;
    let m = dividend / bottom;
    let sticky = dividend % bottom != 0;
    let e: i32 = lhs.scale() - rhs.scale() + 149 - (lift as i32);
    proof {
        assert(dividend >= 0x20_0000_0000 * bottom) by (nonlinear_arith)
            requires
                dividend >= 0x2000_0000_0000_0000,
                bottom < 0x100_0000,
        ;
        lemma_quotient_at_least(dividend as nat, bottom as nat, 0x20_0000_0000);
        assert(dividend < 0x4000_0000_0000_0000 * bottom) by (nonlinear_arith)
            requires
                dividend < 0x4000_0000_0000_0000,
                bottom >= 1,
        ;
        lemma_quotient_below(
            dividend as nat,
            bottom as nat,
            0x4000_0000_0000_0000,
        );
    }
    let r = round_pack(negative, m, e, sticky, Ghost(dividend as nat), Ghost(bottom as nat));
    proof {
        let a = dividend as nat;
        let b = bottom as nat;
        let w = (k1 + 149 - lift) as nat;
        lemma_pow2_adds(k1, 149);
        lemma_pow2_adds(lift as nat, w);
        assert(m1 * pow2(149) == a * pow2(w)) by (nonlinear_arith)
            requires
                m1 == top * pow2(k1),
                a == top * factor,
                pow2(k1 + 149) == pow2(k1) * pow2(149),
                pow2(k1 + 149) == factor * pow2(w),
        ;
        if e >= 0 {
            lemma_pow2_adds(e as nat, k2);
            assert((a * pow2(e as nat)) * pow2(k2) == a * pow2(w)) by (nonlinear_arith)
                requires
                    pow2(w) == pow2(e as nat) * pow2(k2),
            ;
            lemma_round_magnitude_scale(a * pow2(e as nat), b, pow2(k2));
        } else {
            lemma_pow2_adds((-e) as nat, w);
            lemma_pow2_pos(w);
            lemma_pow2_pos((-e) as nat);
            assert((b * pow2((-e) as nat)) * pow2(w) == m2) by (nonlinear_arith)
                requires
                    m2 == b * pow2(k2),
                    pow2(k2) == pow2((-e) as nat) * pow2(w),
            ;
            assert(b * pow2((-e) as nat) > 0) by (nonlinear_arith)
                requires
                    b > 0,
                    pow2((-e) as nat) > 0,
            ;
            lemma_round_magnitude_scale(a, b * pow2((-e) as nat), pow2(w));
        }
    }
    r
}

impl Neg for Scalar {
    type Output = Scalar;

    /// The scalar with its sign flipped.
    fn neg(self) -> (r: Scalar)
        ensures
            r@ == self@.negated(),
    {
        let r = if self.bits >= SIGN_BIT {
            Scalar { bits: self.bits - SIGN_BIT }
        } else {
            Scalar { bits: self.bits + SIGN_BIT }
        };
        proof {
            assert(magnitude_bits(r.bits) == magnitude_bits(self.bits));
            assert(fraction_field(r.bits) == fraction_field(self.bits));
        }
        r
    }
}

impl vstd::std_specs::ops::NegSpecImpl for Scalar {
    open spec fn obeys_neg_spec() -> bool {
        true
    }

    open spec fn neg_req(self) -> bool {
        true
    }

    open spec fn neg_spec(self) -> Scalar {
        if sign_field(self.bits) {
            Scalar { bits: (self.bits - SIGN_BIT) as u32 }
        } else {
            Scalar { bits: (self.bits + SIGN_BIT) as u32 }
        }
    }
}

impl Add for Scalar {
    type Output = Scalar;

    /// The sum of two scalars, rounded to nearest with ties to even.
    fn add(self, rhs: Scalar) -> (r: Scalar)
        ensures
            r@ == self@.plus(rhs@),
            r.is_canonical(),
    {
        let r = sum(self, rhs);
        proof {
            lemma_encode_own_value(r);
        }
        r
    }
}

impl vstd::std_specs::ops::AddSpecImpl for Scalar {
    open spec fn obeys_add_spec() -> bool {
        true
    }

    open spec fn add_req(self, rhs: Scalar) -> bool {
        true
    }

    open spec fn add_spec(self, rhs: Scalar) -> Scalar {
        encode(self@.plus(rhs@))
    }
}

impl Sub for Scalar {
    type Output = Scalar;

    /// The difference of two scalars, rounded to nearest with ties to even.
    fn sub(self, rhs: Scalar) -> (r: Scalar)
        ensures
            r@ == self@.minus(rhs@),
            r.is_canonical(),
    {
        let r = sum(self, rhs.neg());
        proof {
            lemma_encode_own_value(r);
        }
        r
    }
}

impl vstd::std_specs::ops::SubSpecImpl for Scalar {
    open spec fn obeys_sub_spec() -> bool {
        true
    }

    open spec fn sub_req(self, rhs: Scalar) -> bool {
        true
    }

    open spec fn sub_spec(self, rhs: Scalar) -> Scalar {
        encode(self@.minus(rhs@))
    }
}

impl Mul for Scalar {
    type Output = Scalar;

    /// The product of two scalars, rounded to nearest with ties to even.
    fn mul(self, rhs: Scalar) -> (r: Scalar)
        ensures
            r@ == self@.times(rhs@),
            r.is_canonical(),
    {
        let r = product(self, rhs);
        proof {
            lemma_encode_own_value(r);
        }
        r
    }
}

impl vstd::std_specs::ops::MulSpecImpl for Scalar {
    open spec fn obeys_mul_spec() -> bool {
        true
    }

    open spec fn mul_req(self, rhs: Scalar) -> bool {
        true
    }

    open spec fn mul_spec(self, rhs: Scalar) -> Scalar {
        encode(self@.times(rhs@))
    }
}

impl Div for Scalar {
    type Output = Scalar;

    /// The quotient of two scalars, rounded to nearest with ties to even.
    /// Division by zero is no error: it gives an infinity, or a NaN for
    /// zero by zero.
    fn div(self, rhs: Scalar) -> (r: Scalar)
        ensures
            r@ == self@.divided_by(rhs@),
            r.is_canonical(),
    {
        let r = quotient(self, rhs);
        proof {
            lemma_encode_own_value(r);
        }
        r
    }
}

impl vstd::std_specs::ops::DivSpecImpl for Scalar {
    open spec fn obeys_div_spec() -> bool {
        true
    }

    open spec fn div_req(self, rhs: Scalar) -> bool {
        true
    }

    open spec fn div_spec(self, rhs: Scalar) -> Scalar {
        encode(self@.divided_by(rhs@))
    }
}

/// The sum does not depend on the order of its terms.
pub proof fn lemma_plus_commutes(a: Value, b: Value)
    ensures
        a.plus(b) == b.plus(a),
{
}

} // verus!
