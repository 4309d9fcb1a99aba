//! The scalar type: a single-precision value held as its encoding, and the
//! mathematical value that each encoding stands for.
use vstd::arithmetic::power2::pow2;
use vstd::prelude::*;

verus! {

/// What an encoding stands for.
///
/// Every finite single-precision number is a whole multiple of the smallest
/// subnormal, two to the power -149.  `magnitude` counts those steps, so the
/// finite values are the integers of a grid and their sums are exact.
pub enum Value {
    Nan,
    Infinite { negative: bool },
    Finite { negative: bool, magnitude: nat },
}

/// The hidden bit of a normal significand, two to the power 23: the
/// encoding has 23 fraction bits below it.
pub const HIDDEN_BIT: u32 = 0x80_0000;

/// The sign bit of the encoding.
pub const SIGN_BIT: u32 = 0x8000_0000;

/// The encoding of positive infinity; every larger magnitude is a NaN.
pub const INFINITY_BITS: u32 = 0x7f80_0000;

/// The encoding of the NaN that the arithmetic returns.
pub const NAN_BITS: u32 = 0x7fc0_0000;

/// The encoding of one.
pub const ONE_BITS: u32 = 0x3f80_0000;

/// The exponent of two, counted in steps, at which a magnitude no longer fits
/// a finite encoding: the largest finite magnitude is `(2^24 - 1) * 2^253`.
pub open spec fn overflow_exponent() -> nat {
    277
}

/// The encoding without its sign bit.
pub open spec fn magnitude_bits(bits: u32) -> nat {
    bits as nat % SIGN_BIT as nat
}

/// The biased exponent field of an encoding.
pub open spec fn exponent_field(bits: u32) -> nat {
    magnitude_bits(bits) / HIDDEN_BIT as nat
}

/// The fraction field of an encoding.
pub open spec fn fraction_field(bits: u32) -> nat {
    bits as nat % HIDDEN_BIT as nat
}

/// Whether the sign bit of an encoding is set.
pub open spec fn sign_field(bits: u32) -> bool {
    bits >= SIGN_BIT
}

/// The significand of a finite encoding: the fraction, with the hidden bit
/// for a normal number.
pub open spec fn significand(bits: u32) -> nat {
    if exponent_field(bits) == 0 {
        fraction_field(bits)
    } else {
        HIDDEN_BIT as nat + fraction_field(bits)
    }
}

/// The power of two, in steps, that scales the significand of a finite
/// encoding.
pub open spec fn scale(bits: u32) -> nat {
    if exponent_field(bits) == 0 {
        0
    } else {
        (exponent_field(bits) - 1) as nat
    }
}

/// The value that an encoding stands for.
pub open spec fn decode(bits: u32) -> Value {
    if exponent_field(bits) == 0xff {
        if fraction_field(bits) == 0 {
            Value::Infinite { negative: sign_field(bits) }
        } else {
            Value::Nan
        }
    } else {
        Value::Finite {
            negative: sign_field(bits),
            magnitude: significand(bits) * pow2(scale(bits)),
        }
    }
}

/// Whether a value has an encoding.
pub open spec fn representable(v: Value) -> bool {
    exists|bits: u32| decode(bits) == v
}

/// The value of positive zero.
pub open spec fn zero_value() -> Value {
    Value::Finite { negative: false, magnitude: 0 }
}

/// The value of one: two to the power 149 steps.
pub open spec fn one_value() -> Value {
    Value::Finite { negative: false, magnitude: pow2(149) }
}

/// The value of a sign and a magnitude in steps; a magnitude beyond the
/// finite range is an infinity.
pub open spec fn magnitude_value(negative: bool, magnitude: nat) -> Value {
    if magnitude >= pow2(overflow_exponent()) {
        Value::Infinite { negative }
    } else {
        Value::Finite { negative, magnitude }
    }
}

impl Value {
    /// Whether the value is no number.
    pub open spec fn is_nan(self) -> bool {
        self is Nan
    }

    /// Whether the value is an infinity of either sign.
    pub open spec fn is_infinite(self) -> bool {
        self is Infinite
    }

    /// Whether the value is a number of the grid.
    pub open spec fn is_finite(self) -> bool {
        self is Finite
    }

    /// Whether the value is a zero of either sign.
    pub open spec fn is_zero(self) -> bool {
        match self {
            Value::Finite { magnitude, .. } => magnitude == 0,
            _ => false,
        }
    }

    /// The sign of a value that is not a NaN.
    pub open spec fn is_negative(self) -> bool {
        match self {
            Value::Nan => false,
            Value::Infinite { negative } => negative,
            Value::Finite { negative, .. } => negative,
        }
    }

    /// The value with its sign flipped.
    pub open spec fn negated(self) -> Value {
        match self {
            Value::Nan => Value::Nan,
            Value::Infinite { negative } => Value::Infinite { negative: !negative },
            Value::Finite { negative, magnitude } => Value::Finite {
                negative: !negative,
                magnitude,
            },
        }
    }

    /// The value with its sign cleared.
    pub open spec fn absolute(self) -> Value {
        match self {
            Value::Nan => Value::Nan,
            Value::Infinite { .. } => Value::Infinite { negative: false },
            Value::Finite { magnitude, .. } => Value::Finite { negative: false, magnitude },
        }
    }

    /// Where a value that is not a NaN stands on the number line, in steps;
    /// the infinities stand just outside the finite range.
    pub open spec fn position(self) -> int {
        match self {
            Value::Nan => 0,
            Value::Infinite { negative } => if negative {
                -(pow2(overflow_exponent()) as int)
            } else {
                pow2(overflow_exponent()) as int
            },
            Value::Finite { negative, magnitude } => if negative {
                -(magnitude as int)
            } else {
                magnitude as int
            },
        }
    }

    /// Numeric equality: false when either side is a NaN, and the two zeros
    /// are equal.
    pub open spec fn same_number(self, other: Value) -> bool {
        !self.is_nan() && !other.is_nan() && self.position() == other.position()
    }

    /// Numeric `<`: false when either side is a NaN.
    pub open spec fn less_than(self, other: Value) -> bool {
        !self.is_nan() && !other.is_nan() && self.position() < other.position()
    }

    /// Numeric `<=`: false when either side is a NaN.
    pub open spec fn at_most(self, other: Value) -> bool {
        !self.is_nan() && !other.is_nan() && self.position() <= other.position()
    }
}

/// A single-precision number, held as its IEEE 754 encoding.
#[derive(Clone, Copy, Debug)]
pub struct Scalar {
    pub bits: u32,
}

/// The scalar that stands for a value: the one encoding that a number has,
/// and for a NaN the encoding `NAN_BITS`.
#[verifier::opaque]
pub open spec fn encode(v: Value) -> Scalar {
    if v.is_nan() {
        Scalar { bits: NAN_BITS }
    } else {
        Scalar { bits: choose|bits: u32| decode(bits) == v }
    }
}

impl View for Scalar {
    type V = Value;

    open spec fn view(&self) -> Value {
        decode(self.bits)
    }
}

impl Scalar {
    /// Whether the scalar is the one encoding that the arithmetic gives its
    /// value: true of every number, and of the NaN with the encoding
    /// `NAN_BITS`.  A value and this together fix the encoding.
    pub open spec fn is_canonical(self) -> bool {
        self@.is_nan() ==> self.bits == NAN_BITS
    }

    /// The scalar with the given encoding.
    pub fn from_bits(bits: u32) -> (r: Scalar)
        ensures
            r.bits == bits,
    {
        Scalar { bits }
    }

    /// The encoding of the scalar.
    pub fn to_bits(self) -> (r: u32)
        ensures
            r == self.bits,
    {
        self.bits
    }

    /// Positive zero.
    pub fn zero() -> (r: Scalar)
        ensures
            r.bits == 0,
            r@ == zero_value(),
    {
        proof {
            lemma_decode_small(0);
        }
        Scalar { bits: 0 }
    }

    /// One.
    pub fn one() -> (r: Scalar)
        ensures
            r.bits == ONE_BITS,
            r@ == one_value(),
    {
        proof {
            lemma_decode_one();
        }
        Scalar { bits: ONE_BITS }
    }

    /// The NaN that the arithmetic returns.
    pub fn nan() -> (r: Scalar)
        ensures
            r.bits == NAN_BITS,
            r@ == Value::Nan,
    {
        assert(exponent_field(NAN_BITS) == 0xff);
        assert(fraction_field(NAN_BITS) == 0x40_0000);
        Scalar { bits: NAN_BITS }
    }

    /// The infinity of the given sign.
    pub fn infinity(negative: bool) -> (r: Scalar)
        ensures
            r@ == (Value::Infinite { negative }),
    {
        assert(exponent_field(INFINITY_BITS) == 0xff);
        assert(fraction_field(INFINITY_BITS) == 0);
        assert(exponent_field(0xff80_0000u32) == 0xff);
        assert(fraction_field(0xff80_0000u32) == 0);
        if negative {
            Scalar { bits: INFINITY_BITS + SIGN_BIT }
        } else {
            Scalar { bits: INFINITY_BITS }
        }
    }

    /// The zero of the given sign.
    pub fn signed_zero(negative: bool) -> (r: Scalar)
        ensures
            r@ == (Value::Finite { negative, magnitude: 0 }),
    {
        proof {
            vstd::arithmetic::power2::lemma2_to64();
        }
        assert(exponent_field(SIGN_BIT) == 0);
        assert(fraction_field(SIGN_BIT) == 0);
        assert(exponent_field(0u32) == 0);
        assert(0 * pow2(0) == 0);
        if negative {
            Scalar { bits: SIGN_BIT }
        } else {
            Scalar { bits: 0 }
        }
    }

    /// Whether the scalar is a NaN.
    pub fn is_nan(self) -> (r: bool)
        ensures
            r == self@.is_nan(),
    {
        self.bits % SIGN_BIT > INFINITY_BITS
    }

    /// Whether the scalar is an infinity.
    pub fn is_infinite(self) -> (r: bool)
        ensures
            r == self@.is_infinite(),
    {
        self.bits % SIGN_BIT == INFINITY_BITS
    }

    /// Whether the scalar is neither an infinity nor a NaN.
    pub fn is_finite(self) -> (r: bool)
        ensures
            r == self@.is_finite(),
    {
        self.bits % SIGN_BIT < INFINITY_BITS
    }

    /// Whether the scalar is a zero of either sign.
    pub fn is_zero(self) -> (r: bool)
        ensures
            r == self@.is_zero(),
    {
        proof {
            let sig = significand(self.bits);
            let unit = pow2(scale(self.bits));
            vstd::arithmetic::power2::lemma_pow2_pos(scale(self.bits));
            assert((sig * unit == 0) == (sig == 0)) by (nonlinear_arith)
                requires
                    unit > 0,
                    sig >= 0,
            ;
        }
        self.bits % SIGN_BIT == 0
    }

    /// Whether the sign bit is set; true of a NaN with the bit set as well.
    pub fn is_sign_negative(self) -> (r: bool)
        ensures
            r == sign_field(self.bits),
            !self@.is_nan() ==> r == self@.is_negative(),
    {
        self.bits >= SIGN_BIT
    }

    /// The significand of a finite scalar.
    pub fn significand(self) -> (r: u64)
        ensures
            r == significand(self.bits),
            r < 0x100_0000,
            exponent_field(self.bits) != 0 ==> r >= 0x80_0000,
    {
        let field = (self.bits % SIGN_BIT) / HIDDEN_BIT;
        let fraction = self.bits % HIDDEN_BIT;
        if field == 0 {
            fraction as u64
        } else {
            (HIDDEN_BIT + fraction) as u64
        }
    }

    /// The power of two, in steps, that scales the significand of a finite
    /// scalar.
    pub fn scale(self) -> (r: i32)
        ensures
            r == scale(self.bits),
            0 <= r <= 254,
            exponent_field(self.bits) != 0xff ==> r <= 253,
            (r > 0) ==> exponent_field(self.bits) != 0,
    {
        let field = (self.bits % SIGN_BIT) / HIDDEN_BIT;
        if field == 0 {
            0
        } else {
            (field - 1) as i32
        }
    }

    /// The scalar with its sign cleared.
    pub fn abs(self) -> (r: Scalar)
        ensures
            r@ == self@.absolute(),
            r.bits == magnitude_bits(self.bits),
    {
        let r = Scalar { bits: self.bits % SIGN_BIT };
        proof {
            assert(magnitude_bits(r.bits) == magnitude_bits(self.bits));
            assert(fraction_field(r.bits) == fraction_field(self.bits));
        }
        r
    }
}

/// An encoding below the hidden bit is subnormal and stands for its own
/// number of steps.
pub proof fn lemma_decode_small(bits: u32)
    requires
        bits < 0x80_0000,
    ensures
        decode(bits) == (Value::Finite { negative: false, magnitude: bits as nat }),
{
    vstd::arithmetic::power2::lemma2_to64();
    assert(exponent_field(bits) == 0);
    assert(significand(bits) == bits);
    assert(significand(bits) * pow2(0) == bits);
}

/// The encoding of one stands for two to the power 149 steps.
pub proof fn lemma_decode_one()
    ensures
        decode(ONE_BITS) == (Value::Finite { negative: false, magnitude: pow2(149) }),
{
    assert(exponent_field(ONE_BITS) == 127);
    assert(fraction_field(ONE_BITS) == 0);
    vstd::arithmetic::power2::lemma2_to64();
    vstd::arithmetic::power2::lemma_pow2_adds(23, 126);
}

/// The magnitude of a finite encoding lies below the overflow bound.
pub proof fn lemma_finite_magnitude_bound(bits: u32)
    requires
        exponent_field(bits) != 0xff,
    ensures
        significand(bits) * pow2(scale(bits)) < pow2(overflow_exponent()),
{
    let sig = significand(bits);
    let k = scale(bits);
    vstd::arithmetic::power2::lemma2_to64();
    if k < 253 {
        vstd::arithmetic::power2::lemma_pow2_strictly_increases(k, 253);
    }
    vstd::arithmetic::power2::lemma_pow2_adds(24, 253);
    vstd::arithmetic::power2::lemma_pow2_pos(k);
    assert(sig * pow2(k) < pow2(overflow_exponent())) by (nonlinear_arith)
        requires
            sig < 0x100_0000,
            0 < pow2(k) <= pow2(253),
            pow2(overflow_exponent()) == 0x100_0000 * pow2(253),
    ;
}

} // verus!
