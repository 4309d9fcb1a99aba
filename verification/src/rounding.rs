//! Rounding to nearest, ties to even: what it means for a rational number of
//! steps, and the integer code that carries it out.
use crate::scalar::{
    decode, exponent_field, fraction_field, lemma_finite_magnitude_bound, magnitude_value,
    representable, scale, significand, Scalar, Value, HIDDEN_BIT, INFINITY_BITS, SIGN_BIT,
};
use vstd::arithmetic::div_mod::{
    lemma_div_denominator, lemma_fundamental_div_mod, lemma_fundamental_div_mod_converse,
};
use vstd::arithmetic::power2::{
    lemma2_to64, lemma2_to64_rest, lemma_pow2_adds, lemma_pow2_pos,
    lemma_pow2_strictly_increases, lemma_pow2_unfold, pow2,
};
use vstd::bits::{lemma_u64_pow2_no_overflow, lemma_u64_shl_is_mul};
use vstd::prelude::*;

verus! {

/// The quotient `n / d` rounded to the nearest whole number; a quotient that
/// lies exactly between two whole numbers goes to the even one.
pub open spec fn nearest_even(n: nat, d: nat) -> nat
    recommends
        d > 0,
{
    let q = n / d;
    let r = n % d;
    if 2 * r < d || (2 * r == d && q % 2 == 0) {
        q
    } else {
        q + 1
    }
}

/// How many low bits of `x` do not fit into a significand of 24 bits.
pub open spec fn excess_bits(x: nat) -> nat
    decreases x,
{
    if x < 0x100_0000 {
        0
    } else {
        1 + excess_bits(x / 2)
    }
}

/// The magnitude, in steps, that `num / den` steps round to: the nearest
/// multiple of the spacing that representable numbers have at that size.
#[verifier::opaque]
pub open spec fn round_magnitude(num: nat, den: nat) -> nat
    recommends
        den > 0,
{
    let k = excess_bits(num / den);
    nearest_even(num, den * pow2(k)) * pow2(k)
}

/// The value that a sign and `num / den` steps round to; a magnitude beyond
/// the finite range rounds to an infinity.
pub open spec fn round_value(negative: bool, num: nat, den: nat) -> Value
    recommends
        den > 0,
{
    magnitude_value(negative, round_magnitude(num, den))
}

/// Multiplying numerator and denominator by the same factor changes neither
/// the quotient nor, up to that factor, the remainder.
pub proof fn lemma_div_mod_scale(n: nat, d: nat, c: nat)
    requires
        d > 0,
        c > 0,
    ensures
        d * c > 0,
        (n * c) / (d * c) == n / d,
        (n * c) % (d * c) == (n % d) * c,
{
    let q = n / d;
    let r = n % d;
    lemma_fundamental_div_mod(n as int, d as int);
    assert(n * c == q * (d * c) + r * c) by (nonlinear_arith)
        requires
            n == d * q + r,
    ;
    assert(0 <= r * c < d * c) by (nonlinear_arith)
        requires
            0 <= r < d,
            c > 0,
    ;
    lemma_fundamental_div_mod_converse((n * c) as int, (d * c) as int, q as int, (r * c) as int);
}

/// Rounding a quotient does not depend on how the fraction is written.
pub proof fn lemma_nearest_even_scale(n: nat, d: nat, c: nat)
    requires
        d > 0,
        c > 0,
    ensures
        nearest_even(n * c, d * c) == nearest_even(n, d),
{
    lemma_div_mod_scale(n, d, c);
    let r = n % d;
    assert((2 * (r * c) < d * c) == (2 * r < d)) by (nonlinear_arith)
        requires
            c > 0,
    ;
    assert((2 * (r * c) == d * c) == (2 * r == d)) by (nonlinear_arith)
        requires
            c > 0,
    ;
}

/// A whole quotient is its own rounding.
pub proof fn lemma_nearest_even_exact(n: nat, d: nat)
    requires
        d > 0,
    ensures
        nearest_even(n * d, d) == n,
{
    lemma_fundamental_div_mod_converse((n * d) as int, d as int, n as int, 0);
}

/// `excess_bits` is the `k` for which `x` has exactly `24 + k` bits.
pub proof fn lemma_excess_bits(x: nat, k: nat)
    requires
        k == 0 ==> x < pow2(24),
        k > 0 ==> pow2(23 + k) <= x < pow2(24 + k),
    ensures
        excess_bits(x) == k,
    decreases k,
{
    lemma2_to64();
    if k > 0 {
        lemma_pow2_unfold(23 + k);
        lemma_pow2_unfold(24 + k);
        lemma_pow2_adds(24, (k - 1) as nat);
        lemma_pow2_pos((k - 1) as nat);
        assert(pow2(23 + k) >= pow2(24)) by (nonlinear_arith)
            requires
                pow2(23 + k) == pow2(24) * pow2((k - 1) as nat),
                pow2((k - 1) as nat) > 0,
        ;
        lemma_excess_bits(x / 2, (k - 1) as nat);
    }
}

/// What is left of `m` when its part below `p` is rounded away: the part
/// against half of `p` decides, `sticky` says that the true number lies
/// above `m`, and a tie goes to the even side.
pub open spec fn round_shift(m: nat, p: nat, sticky: bool) -> nat
    recommends
        p > 0,
{
    let q = m / p;
    let r = m % p;
    let half = p / 2;
    if r > half || (r == half && (sticky || q % 2 == 1)) {
        q + 1
    } else {
        q
    }
}

/// Rounding `a / (b * p)` when only the whole part `m` of `a / b` is known
/// and whether anything was left over: the low part of `m` against half of
/// `p` decides, and the leftover breaks what would else be a tie.
pub proof fn lemma_nearest_even_cell(a: nat, b: nat, p: nat)
    requires
        b > 0,
        p > 0,
        p % 2 == 0,
    ensures
        b * p > 0,
        nearest_even(a, b * p) == round_shift(a / b, p, a % b != 0),
{
    let m = a / b;
    let rho = a % b;
    let q = m / p;
    let r = m % p;
    let half = p / 2;
    lemma_fundamental_div_mod(a as int, b as int);
    lemma_fundamental_div_mod(m as int, p as int);
    let rem = r * b + rho;
    assert(a == q * (b * p) + rem) by (nonlinear_arith)
        requires
            a == b * m + rho,
            m == p * q + r,
            rem == r * b + rho,
    ;
    assert(0 <= rem < b * p) by (nonlinear_arith)
        requires
            rem == r * b + rho,
            0 <= r < p,
            0 <= rho < b,
    ;
    lemma_fundamental_div_mod_converse(a as int, (b * p) as int, q as int, rem as int);
    assert(b * p == 2 * (half * b)) by (nonlinear_arith)
        requires
            p == 2 * half,
    ;
    if r > half {
        assert(r * b >= (half + 1) * b) by (nonlinear_arith)
            requires
                r >= half + 1,
                b > 0,
        ;
        assert((half + 1) * b == half * b + b) by (nonlinear_arith);
    } else if r < half {
        assert((r + 1) * b <= half * b) by (nonlinear_arith)
            requires
                r + 1 <= half,
                b > 0,
        ;
        assert((r + 1) * b == r * b + b) by (nonlinear_arith);
    }
}

/// The distance between two whole numbers.
pub open spec fn gap(a: nat, b: nat) -> nat {
    if a >= b {
        (a - b) as nat
    } else {
        (b - a) as nat
    }
}

/// No multiple of `d` lies nearer to `n` than `nearest_even(n, d)` times
/// `d` does.
pub proof fn lemma_nearest_even_is_nearest(n: nat, d: nat, j: nat)
    requires
        d > 0,
    ensures
        gap(nearest_even(n, d) * d, n) <= gap(j * d, n),
{
    let q = n / d;
    let r = n % d;
    lemma_fundamental_div_mod(n as int, d as int);
    assert(q * d == d * q) by (nonlinear_arith);
    assert((q + 1) * d == q * d + d) by (nonlinear_arith);
    if j <= q {
        assert(j * d <= q * d) by (nonlinear_arith)
            requires
                j <= q,
                d > 0,
        ;
    } else {
        assert(j * d >= (q + 1) * d) by (nonlinear_arith)
            requires
                j >= q + 1,
                d > 0,
        ;
    }
}

/// Where two multiples of `d` lie equally near to `n`, `nearest_even` takes
/// the even one.
pub proof fn lemma_nearest_even_ties(n: nat, d: nat)
    requires
        d > 0,
        2 * (n % d) == d,
    ensures
        nearest_even(n, d) % 2 == 0,
{
}

/// What `excess_bits` says of the size of `x`: none means that `x` fits 24
/// bits, and `k` of them mean that `x` has exactly `24 + k` bits.
pub proof fn lemma_excess_bits_bounds(x: nat)
    ensures
        excess_bits(x) == 0 ==> x < pow2(24),
        excess_bits(x) >= 1 ==> pow2(23 + excess_bits(x)) <= x < pow2(24 + excess_bits(x)),
    decreases x,
{
    lemma2_to64();
    if x >= 0x100_0000 {
        let inner = excess_bits(x / 2);
        lemma_excess_bits_bounds(x / 2);
        lemma_pow2_unfold(24 + inner);
        lemma_pow2_unfold(25 + inner);
    }
}

/// The significand that a rounding leaves has 24 bits, or is `2^24` itself;
/// at a spacing above one step it has its top bit set.
pub proof fn lemma_round_significand_bounds(num: nat, den: nat)
    requires
        den > 0,
    ensures
        den * pow2(excess_bits(num / den)) > 0,
        nearest_even(num, den * pow2(excess_bits(num / den))) <= 0x100_0000,
        excess_bits(num / den) >= 1 ==> nearest_even(num, den * pow2(excess_bits(num / den)))
            >= 0x80_0000,
{
    let x = num / den;
    let k = excess_bits(x);
    let unit = pow2(k);
    lemma2_to64();
    lemma_pow2_pos(k);
    lemma_excess_bits_bounds(x);
    assert(den * unit > 0) by (nonlinear_arith)
        requires
            den > 0,
            unit > 0,
    ;
    lemma_div_denominator(num as int, den as int, unit as int);
    assert(num / (den * unit) == x / unit);
    if k >= 1 {
        lemma_pow2_adds(23, k);
        lemma_pow2_adds(24, k);
        lemma_quotient_at_least(x, unit, 0x80_0000);
        lemma_quotient_below(x, unit, 0x100_0000);
    } else {
        assert(den * unit == den) by (nonlinear_arith)
            requires
                unit == 1,
        ;
    }
}

/// Rounding takes a nearest number of those that a significand of 24 bits
/// can hold at some spacing: no `n * 2^k` with `n` below `2^24` lies nearer
/// to `num / den` than `round_magnitude(num, den)` does.
pub proof fn lemma_round_is_nearest(num: nat, den: nat, n: nat, k: nat)
    requires
        den > 0,
        n < 0x100_0000,
    ensures
        gap(round_magnitude(num, den) * den, num) <= gap(n * pow2(k) * den, num),
{
    reveal(round_magnitude);
    let x = num / den;
    let spacing = excess_bits(x);
    let unit = pow2(spacing);
    let d = den * unit;
    let rounded = nearest_even(num, d);
    lemma2_to64();
    lemma_pow2_pos(spacing);
    lemma_pow2_pos(k);
    assert(d > 0) by (nonlinear_arith)
        requires
            d == den * unit,
            den > 0,
            unit > 0,
    ;
    assert(rounded * unit * den == rounded * d) by (nonlinear_arith)
        requires
            d == den * unit,
    ;
    if k >= spacing {
        let up = pow2((k - spacing) as nat);
        let j = n * up;
        lemma_pow2_adds((k - spacing) as nat, spacing);
        assert(n * pow2(k) * den == j * d) by (nonlinear_arith)
            requires
                pow2(k) == up * unit,
                j == n * up,
                d == den * unit,
        ;
        lemma_nearest_even_is_nearest(num, d, j);
    } else {
        let low: nat = 0x80_0000;
        lemma_excess_bits_bounds(x);
        lemma_pow2_adds(23, spacing);
        lemma_pow2_adds(24, k);
        if 24 + k < 23 + spacing {
            lemma_pow2_strictly_increases(24 + k, 23 + spacing);
        }
        lemma_fundamental_div_mod(num as int, den as int);
        assert(num >= low * d) by (nonlinear_arith)
            requires
                num == den * x + num % den,
                num % den >= 0,
                x >= pow2(23 + spacing),
                pow2(23 + spacing) == low * unit,
                d == den * unit,
                den > 0,
        ;
        assert(n * pow2(k) * den <= low * d) by (nonlinear_arith)
            requires
                n < 0x100_0000,
                pow2(24 + k) == 0x100_0000 * pow2(k),
                pow2(24 + k) <= pow2(23 + spacing),
                pow2(23 + spacing) == low * unit,
                d == den * unit,
                den > 0,
                pow2(k) > 0,
        ;
        lemma_nearest_even_is_nearest(num, d, low);
    }
}

/// Whatever is rounded, the result has an encoding.
pub proof fn lemma_round_value_has_encoding(negative: bool, num: nat, den: nat)
    requires
        den > 0,
    ensures
        representable(round_value(negative, num, den)),
{
    reveal(round_magnitude);
    let k = excess_bits(num / den);
    let n = nearest_even(num, den * pow2(k));
    lemma_round_significand_bounds(num, den);
    lemma_packed(negative, n, k);
    assert(decode(packed(negative, n, k)) == round_value(negative, num, den));
}

/// The numerator of `a / b * 2^e` written as a fraction of whole numbers.
pub open spec fn scaled_numerator(a: nat, e: int) -> nat {
    if e >= 0 {
        a * pow2(e as nat)
    } else {
        a
    }
}

/// The denominator of `a / b * 2^e` written as a fraction of whole numbers.
pub open spec fn scaled_denominator(b: nat, e: int) -> nat {
    if e >= 0 {
        b
    } else {
        b * pow2((-e) as nat)
    }
}

/// The spacing exponent of a number whose whole part, at scale `2^e`, has
/// `len` bits.
pub open spec fn spacing(len: nat, e: int) -> nat {
    if len + e > 24 {
        (len + e - 24) as nat
    } else {
        0
    }
}

/// A quotient is at least `c` when the numerator is at least `c` times the
/// denominator.
pub proof fn lemma_quotient_at_least(n: nat, d: nat, c: nat)
    requires
        d > 0,
        n >= c * d,
    ensures
        n / d >= c,
{
    lemma_fundamental_div_mod(n as int, d as int);
    let q = n / d;
    let r = n % d;
    assert(q >= c) by (nonlinear_arith)
        requires
            n == d * q + r,
            0 <= r < d,
            n >= c * d,
    ;
}

/// A quotient is below `c` when the numerator is below `c` times the
/// denominator.
pub proof fn lemma_quotient_below(n: nat, d: nat, c: nat)
    requires
        d > 0,
        n < c * d,
    ensures
        n / d < c,
{
    lemma_fundamental_div_mod(n as int, d as int);
    let q = n / d;
    let r = n % d;
    assert(q < c) by (nonlinear_arith)
        requires
            n == d * q + r,
            0 <= r < d,
            n < c * d,
    ;
}

/// The whole part of `a / b * 2^e` has as many bits beyond 24 as the spacing
/// exponent says.
pub proof fn lemma_scaled_excess_bits(a: nat, b: nat, e: int, len: nat)
    requires
        b > 0,
        len >= 1,
        pow2((len - 1) as nat) <= a / b < pow2(len),
    ensures
        scaled_denominator(b, e) > 0,
        excess_bits(scaled_numerator(a, e) / scaled_denominator(b, e)) == spacing(len, e),
{
    let m = a / b;
    let num = scaled_numerator(a, e);
    let den = scaled_denominator(b, e);
    let lo = pow2((len - 1) as nat);
    let hi = pow2(len);
    lemma_fundamental_div_mod(a as int, b as int);
    assert(lo * b <= a < hi * b) by (nonlinear_arith)
        requires
            a == b * m + a % b,
            0 <= a % b < b,
            lo <= m < hi,
    ;
    if e < 0 {
        lemma_pow2_pos((-e) as nat);
        assert(den > 0) by (nonlinear_arith)
            requires
                den == b * pow2((-e) as nat),
                b > 0,
                pow2((-e) as nat) > 0,
        ;
    }
    if len + e <= 0 {
        let g = pow2((-e) as nat);
        if len < -e {
            lemma_pow2_strictly_increases(len, (-e) as nat);
        }
        assert(a < den) by (nonlinear_arith)
            requires
                a < hi * b,
                hi <= g,
                den == b * g,
        ;
        lemma_quotient_below(num, den, 1);
        lemma2_to64();
        lemma_excess_bits(num / den, 0);
    } else {
        let t = (len + e - 1) as nat;
        let below = pow2(t);
        let above = pow2(t + 1);
        if e >= 0 {
            let h = pow2(e as nat);
            lemma_pow2_adds((len - 1) as nat, e as nat);
            lemma_pow2_adds(len, e as nat);
            lemma_pow2_pos(e as nat);
            assert(below * den <= num < above * den) by (nonlinear_arith)
                requires
                    lo * b <= a < hi * b,
                    below == lo * h,
                    above == hi * h,
                    num == a * h,
                    den == b,
                    h > 0,
            ;
        } else {
            let g = pow2((-e) as nat);
            lemma_pow2_adds(t, (-e) as nat);
            lemma_pow2_adds(t + 1, (-e) as nat);
            assert(below * den <= num < above * den) by (nonlinear_arith)
                requires
                    lo * b <= a < hi * b,
                    lo == below * g,
                    hi == above * g,
                    num == a,
                    den == b * g,
            ;
        }
        lemma_quotient_at_least(num, den, below);
        lemma_quotient_below(num, den, above);
        if len + e <= 24 {
            if t + 1 < 24 {
                lemma_pow2_strictly_increases(t + 1, 24);
            }
            lemma_excess_bits(num / den, 0);
        } else {
            lemma_excess_bits(num / den, (len + e - 24) as nat);
        }
    }
}

/// The significand that is left of `m * 2^e` at the spacing exponent `k`:
/// `m` moved up where the spacing is finer than `2^e`, and rounded where it
/// is coarser.
pub open spec fn rounded_significand(m: nat, k: nat, e: int, sticky: bool) -> nat {
    if k <= e {
        m * pow2((e - k) as nat)
    } else {
        round_shift(m, pow2((k - e) as nat), sticky)
    }
}

/// Rounding `a / b * 2^e` at the spacing exponent `k` needs only the whole
/// part of `a / b` and whether anything was left over.
pub proof fn lemma_scaled_nearest(a: nat, b: nat, e: int, k: nat)
    requires
        b > 0,
        a % b != 0 ==> k > e,
    ensures
        nearest_even(scaled_numerator(a, e), scaled_denominator(b, e) * pow2(k))
            == rounded_significand(a / b, k, e, a % b != 0),
{
    let m = a / b;
    let num = scaled_numerator(a, e);
    let den = scaled_denominator(b, e);
    let top = pow2(k);
    lemma_pow2_pos(k);
    if k > e {
        let shift = (k - e) as nat;
        let p = pow2(shift);
        lemma_pow2_pos(shift);
        lemma_pow2_unfold(shift);
        lemma_nearest_even_cell(a, b, p);
        if e >= 0 {
            let h = pow2(e as nat);
            lemma_pow2_pos(e as nat);
            lemma_pow2_adds(shift, e as nat);
            assert(den * top == (b * p) * h) by (nonlinear_arith)
                requires
                    den == b,
                    top == p * h,
            ;
            lemma_nearest_even_scale(a, b * p, h);
        } else {
            let g = pow2((-e) as nat);
            lemma_pow2_adds(k, (-e) as nat);
            assert(den * top == b * p) by (nonlinear_arith)
                requires
                    den == b * g,
                    p == top * g,
            ;
        }
    } else {
        let up = pow2((e - k) as nat);
        let h = pow2(e as nat);
        let n = m * up;
        lemma_pow2_adds((e - k) as nat, k);
        lemma_fundamental_div_mod(a as int, b as int);
        assert(b * top > 0) by (nonlinear_arith)
            requires
                b > 0,
                top > 0,
        ;
        assert(num == n * (b * top)) by (nonlinear_arith)
            requires
                num == a * h,
                a == b * m,
                h == up * top,
                n == m * up,
        ;
        lemma_nearest_even_exact(n, b * top);
    }
}

/// `round_shift` gives the quotient or the quotient plus one.
pub proof fn lemma_round_shift_bounds(m: nat, p: nat, sticky: bool)
    requires
        p > 0,
    ensures
        m / p <= round_shift(m, p, sticky) <= m / p + 1,
{
}

/// The magnitude that `a / b * 2^e` rounds to, from the whole part of
/// `a / b`, its number of bits `len`, and whether anything was left over.
/// What is left over must lie below the place where rounding happens: either
/// the whole part has more than 24 bits, or the scale is below one step.
pub proof fn lemma_round_scaled(a: nat, b: nat, e: int, len: nat)
    requires
        b > 0,
        len >= 1,
        pow2((len - 1) as nat) <= a / b < pow2(len),
        a % b != 0 ==> (a / b >= 0x100_0000 || e < 0),
    ensures
        scaled_denominator(b, e) > 0,
        ({
            let k = spacing(len, e);
            let n = rounded_significand(a / b, k, e, a % b != 0);
            &&& round_magnitude(scaled_numerator(a, e), scaled_denominator(b, e)) == n * pow2(k)
            &&& n <= 0x100_0000
            &&& k >= 1 ==> n >= 0x80_0000
        }),
{
    reveal(round_magnitude);
    let m = a / b;
    let k = spacing(len, e);
    let sticky = a % b != 0;
    let n = rounded_significand(m, k, e, sticky);
    lemma2_to64();
    lemma_scaled_excess_bits(a, b, e, len);
    if m >= 0x100_0000 {
        if len <= 24 {
            if len < 24 {
                lemma_pow2_strictly_increases(len, 24);
            }
        }
        assert(len > 24);
    }
    lemma_scaled_nearest(a, b, e, k);
    let lo = pow2((len - 1) as nat);
    let hi = pow2(len);
    if k > e {
        let shift = (k - e) as nat;
        let p = pow2(shift);
        lemma_pow2_pos(shift);
        lemma_round_shift_bounds(m, p, sticky);
        if k >= 1 {
            assert(shift == len - 24);
            lemma_pow2_adds(23, shift);
            lemma_pow2_adds(24, shift);
            lemma_quotient_at_least(m, p, 0x80_0000);
            lemma_quotient_below(m, p, 0x100_0000);
        } else {
            if len >= shift {
                let rest = (len - shift) as nat;
                lemma_pow2_adds(rest, shift);
                lemma_quotient_below(m, p, pow2(rest));
                if rest < 24 {
                    lemma_pow2_strictly_increases(rest, 24);
                }
            } else {
                lemma_pow2_strictly_increases(len, shift);
                assert(m < 1 * p) by (nonlinear_arith)
                    requires
                        m < p,
                ;
                lemma_quotient_below(m, p, 1);
            }
        }
    } else {
        let up = pow2((e - k) as nat);
        lemma_pow2_pos((e - k) as nat);
        if k >= 1 {
            assert(e - k == 24 - len);
            lemma_pow2_adds((len - 1) as nat, (e - k) as nat);
            lemma_pow2_adds(len, (e - k) as nat);
            assert(0x80_0000 <= m * up < 0x100_0000) by (nonlinear_arith)
                requires
                    lo <= m < hi,
                    lo * up == 0x80_0000,
                    hi * up == 0x100_0000,
                    up > 0,
            ;
        } else {
            lemma_pow2_adds(len, e as nat);
            if len + e < 24 {
                lemma_pow2_strictly_increases((len + e) as nat, 24);
            }
            assert(m * up < 0x100_0000) by (nonlinear_arith)
                requires
                    m < hi,
                    hi * up <= 0x100_0000,
                    up > 0,
            ;
        }
    }
}

/// The number of bits of `m`: the place of its highest set bit, counted from
/// one, and zero for zero.
pub fn bit_length(m: u64) -> (len: u32)
    ensures
        len <= 64,
        m == 0 ==> len == 0,
        m > 0 ==> len >= 1 && pow2((len - 1) as nat) <= m < pow2(len as nat),
{
    let mut len: u32 = 0;
    let mut rest: u64 = m;
    proof {
        lemma2_to64();
    }
    while rest > 0
        invariant
            len <= 64,
            rest == m as nat / pow2(len as nat),
            len > 0 ==> pow2((len - 1) as nat) <= m,
            m > 0 ==> rest > 0 || len > 0,
            m == 0 ==> len == 0,
        decreases rest,
    {
        proof {
            let d = pow2(len as nat);
            let q = m as nat / d;
            let r = m as nat % d;
            lemma_pow2_pos(len as nat);
            lemma_fundamental_div_mod(m as int, d as int);
            assert(m >= d) by (nonlinear_arith)
                requires
                    m == d * q + r,
                    q >= 1,
                    r >= 0,
                    d > 0,
            ;
            if len >= 64 {
                lemma2_to64();
                if len > 64 {
                    lemma_pow2_strictly_increases(64, len as nat);
                }
            }
            lemma_div_denominator(m as int, d as int, 2);
            lemma_pow2_unfold((len + 1) as nat);
            assert(d * 2 == 2 * d);
        }
        rest = rest / 2;
        len = len + 1;
    }
    proof {
        if m > 0 {
            let d = pow2(len as nat);
            let q = m as nat / d;
            let r = m as nat % d;
            lemma_pow2_pos(len as nat);
            lemma_fundamental_div_mod(m as int, d as int);
            assert(m < d) by (nonlinear_arith)
                requires
                    m == d * q + r,
                    q == 0,
                    r < d,
            ;
        }
    }
    len
}

/// Two to the power `s`.
pub fn power_of_two(s: u32) -> (p: u64)
    requires
        s < 64,
    ensures
        p == pow2(s as nat),
{
    proof {
        lemma_u64_pow2_no_overflow(s as nat);
        lemma_u64_shl_is_mul(1, s as u64);
    }
    1u64 << (s as u64)
}

/// The encoding of the given sign and the magnitude `n * 2^k` steps, where
/// `n` is a significand that may have been rounded up to `2^24`.  Spacing
/// and significand add up to the encoding, a carry out of the significand
/// moves into the exponent, and all that reaches the exponent of the
/// infinities is an infinity.
pub open spec fn packed(negative: bool, n: nat, k: nat) -> u32 {
    let sign: nat = if negative {
        SIGN_BIT as nat
    } else {
        0
    };
    if k >= 254 || k * HIDDEN_BIT + n >= INFINITY_BITS {
        (INFINITY_BITS + sign) as u32
    } else {
        (k * HIDDEN_BIT + n + sign) as u32
    }
}

/// `packed` encodes the magnitude `n * 2^k`, or an infinity where that
/// magnitude is beyond the finite range.
pub proof fn lemma_packed(negative: bool, n: nat, k: nat)
    requires
        n <= 0x100_0000,
        k >= 1 ==> n >= 0x80_0000,
    ensures
        decode(packed(negative, n, k)) == magnitude_value(negative, n * pow2(k)),
{
    let sign: nat = if negative {
        SIGN_BIT as nat
    } else {
        0
    };
    let bits = packed(negative, n, k);
    lemma2_to64();
    lemma_pow2_pos(k);
    if k >= 254 {
        if k > 254 {
            lemma_pow2_strictly_increases(254, k);
        }
        lemma_pow2_adds(23, 254);
        assert(n * pow2(k) >= pow2(277)) by (nonlinear_arith)
            requires
                n >= 0x80_0000,
                pow2(k) >= pow2(254),
                pow2(277) == 0x80_0000 * pow2(254),
        ;
        assert(exponent_field(bits) == 0xff);
        assert(fraction_field(bits) == 0);
    } else if k * HIDDEN_BIT + n >= INFINITY_BITS {
        assert(k == 253 && n == 0x100_0000);
        lemma_pow2_adds(24, 253);
        assert(exponent_field(bits) == 0xff);
        assert(fraction_field(bits) == 0);
    } else {
        let mag = k * HIDDEN_BIT + n;
        assert(exponent_field(bits) == mag / 0x80_0000);
        assert(fraction_field(bits) == mag % 0x80_0000);
        lemma_finite_magnitude_bound(bits);
        if n < 0x80_0000 {
            assert(exponent_field(bits) == 0);
            assert(significand(bits) * pow2(0) == n * pow2(k));
        } else if n < 0x100_0000 {
            assert(exponent_field(bits) == k + 1);
            assert(significand(bits) == n);
            assert(scale(bits) == k);
        } else {
            assert(exponent_field(bits) == k + 2);
            assert(significand(bits) == 0x80_0000);
            assert(scale(bits) == k + 1);
            lemma_pow2_unfold(k + 1);
            assert(significand(bits) * pow2(scale(bits)) == n * pow2(k)) by (nonlinear_arith)
                requires
                    significand(bits) == 0x80_0000,
                    n == 0x100_0000,
                    pow2(scale(bits)) == 2 * pow2(k),
            ;
        }
    }
}

/// The scalar with the given sign and the magnitude `n * 2^k` steps, where
/// `n` is a significand that may have been rounded up to `2^24`.
pub fn pack(negative: bool, n: u64, k: u32) -> (r: Scalar)
    requires
        n <= 0x100_0000,
        k >= 1 ==> n >= 0x80_0000,
    ensures
        r.bits == packed(negative, n as nat, k as nat),
        r@ == magnitude_value(negative, n as nat * pow2(k as nat)),
{
    let sign: u32 = if negative {
        SIGN_BIT
    } else {
        0
    };
    proof {
        lemma_packed(negative, n as nat, k as nat);
    }
    if k >= 254 {
        return Scalar { bits: INFINITY_BITS + sign };
    }
    let mag: u32 = k * HIDDEN_BIT + (n as u32);
    if mag >= INFINITY_BITS {
        Scalar { bits: INFINITY_BITS + sign }
    } else {
        Scalar { bits: mag + sign }
    }
}

/// Rounding to a magnitude does not depend on how the fraction is written.
pub proof fn lemma_round_magnitude_scale(num: nat, den: nat, c: nat)
    requires
        den > 0,
        c > 0,
    ensures
        den * c > 0,
        round_magnitude(num * c, den * c) == round_magnitude(num, den),
{
    reveal(round_magnitude);
    lemma_div_mod_scale(num, den, c);
    let k = excess_bits(num / den);
    lemma_pow2_pos(k);
    assert(den * pow2(k) > 0) by (nonlinear_arith)
        requires
            den > 0,
            pow2(k) > 0,
    ;
    assert((den * c) * pow2(k) == (den * pow2(k)) * c) by (nonlinear_arith);
    lemma_nearest_even_scale(num, den * pow2(k), c);
}

/// A magnitude that has an encoding rounds to itself.
pub proof fn lemma_round_representable(bits: u32)
    requires
        exponent_field(bits) != 0xff,
    ensures
        round_magnitude(significand(bits) * pow2(scale(bits)), 1) == significand(bits) * pow2(
            scale(bits),
        ),
{
    reveal(round_magnitude);
    let sig = significand(bits);
    let k = scale(bits);
    let unit = pow2(k);
    let mag = sig * unit;
    lemma2_to64();
    lemma_pow2_pos(k);
    assert(mag / 1 == mag);
    if k == 0 {
        assert(mag == sig) by (nonlinear_arith)
            requires
                mag == sig * unit,
                unit == 1,
        ;
        lemma_excess_bits(mag, 0);
        lemma_nearest_even_exact(mag, 1);
        assert(mag * 1 == mag);
        assert(1 * pow2(0) == 1);
    } else {
        lemma_pow2_adds(23, k);
        lemma_pow2_adds(24, k);
        assert(pow2(23 + k) <= mag < pow2(24 + k)) by (nonlinear_arith)
            requires
                mag == sig * unit,
                0x80_0000 <= sig < 0x100_0000,
                pow2(23 + k) == 0x80_0000 * unit,
                pow2(24 + k) == 0x100_0000 * unit,
                unit > 0,
        ;
        lemma_excess_bits(mag, k);
        lemma_nearest_even_exact(sig, unit);
        assert(1 * unit == unit);
    }
}

/// Zero steps round to zero.
pub proof fn lemma_round_zero(den: nat)
    requires
        den > 0,
    ensures
        round_magnitude(0, den) == 0,
{
    reveal(round_magnitude);
    lemma2_to64();
    lemma_fundamental_div_mod_converse(0, den as int, 0, 0);
    assert(excess_bits(0) == 0);
    assert(den * pow2(0) == den);
}

/// The scalar nearest to `a / b * 2^e` steps, with the given sign.
///
/// The caller hands over the whole part `m` of `a / b` and whether anything
/// was left over; where something was, `m` must have more than 24 bits, so
/// that what was left lies below the place where rounding happens.
pub(crate) fn round_pack(
    negative: bool,
    m: u64,
    e: i32,
    sticky: bool,
    Ghost(a): Ghost<nat>,
    Ghost(b): Ghost<nat>,
) -> (r: Scalar)
    requires
        b > 0,
        m == a / b,
        sticky == (a % b != 0),
        m < 0x8000_0000_0000_0000,
        sticky ==> m >= 0x100_0000,
        -1000 <= e <= 1000,
    ensures
        scaled_denominator(b, e as int) > 0,
        r@ == round_value(negative, scaled_numerator(a, e as int), scaled_denominator(b, e as int)),
{
    if m == 0 {
        proof {
            lemma_fundamental_div_mod(a as int, b as int);
            assert(a == 0) by (nonlinear_arith)
                requires
                    a == b * (a / b) + a % b,
                    a / b == 0,
                    a % b == 0,
            ;
            if e >= 0 {
                assert(0 * pow2(e as nat) == 0);
            } else {
                lemma_pow2_pos((-e) as nat);
                assert(b * pow2((-e) as nat) > 0) by (nonlinear_arith)
                    requires
                        b > 0,
                        pow2((-e) as nat) > 0,
                ;
            }
            lemma_round_zero(scaled_denominator(b, e as int));
        }
        return pack(negative, 0, 0);
    }
    let len: i32 = bit_length(m) as i32;
    proof {
        lemma2_to64();
        if len > 63 {
            if len > 64 {
                lemma_pow2_strictly_increases(64, len as nat);
            }
            lemma2_to64_rest();
        }
        lemma_round_scaled(a, b, e as int, len as nat);
    }
    let k: i32 = if len + e > 24 {
        len + e - 24
    } else {
        0
    };
    let shift: i32 = k - e;
    let n: u64;
    if shift <= 0 {
        let up = power_of_two((-shift) as u32);
        n = m * up;
    } else if shift >= 64 {
        proof {
            let p = pow2(shift as nat);
            lemma_pow2_unfold(shift as nat);
            lemma2_to64_rest();
            if shift > 64 {
                lemma_pow2_strictly_increases(63, (shift - 1) as nat);
            }
            lemma_fundamental_div_mod_converse(m as int, p as int, 0, m as int);
        }
        n = 0;
    } else {
        let p = power_of_two(shift as u32);
        proof {
            lemma_pow2_pos(shift as nat);
        }
        let q = m / p;
        let r = m % p;
        let half = p / 2;
        n = if r > half || (r == half && (sticky || q % 2 == 1)) {
            q + 1
        } else {
            q
        };
    }
    pack(negative, n, k as u32)
}

} // verus!
