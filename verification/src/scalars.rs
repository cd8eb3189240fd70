//! The fixed-point scalar type that all geometry and shading works over.
//!
//! A scalar holds the value `raw / FX_SCALE`. Every operation is total:
//! results saturate into a symmetric raw range, division by zero yields
//! zero, and the square root of a negative value yields zero, so no
//! operation can panic and every result is pinned by a spec function.

use vstd::arithmetic::mul::{lemma_mul_inequality, lemma_mul_strict_inequality};
use vstd::prelude::*;

verus! {

/// Number of raw units per 1.0: a scalar holds the value `raw / FX_SCALE`.
pub const FX_SCALE: i64 = 0x1_0000_0000;

/// Largest raw magnitude a scalar result may hold; the range is symmetric
/// so negation never overflows.
pub const FX_RAW_MAX: i64 = 0x7fff_ffff_ffff_ffff;

/// Magnitude of an integer.
pub open spec fn mag(x: int) -> int {
    if x < 0 {
        -x
    } else {
        x
    }
}

/// Saturates an unbounded result into the representable raw range.
pub open spec fn fx_clip(x: int) -> int {
    if x > FX_RAW_MAX {
        FX_RAW_MAX as int
    } else if x < -(FX_RAW_MAX as int) {
        -(FX_RAW_MAX as int)
    } else {
        x
    }
}

/// Raw value of the sum of two scalars.
pub open spec fn fx_add_spec(a: int, b: int) -> int {
    fx_clip(a + b)
}

/// Raw value of the difference of two scalars.
pub open spec fn fx_sub_spec(a: int, b: int) -> int {
    fx_clip(a - b)
}

/// Raw value of the negation of a scalar.
pub open spec fn fx_neg_spec(a: int) -> int {
    fx_clip(-a)
}

/// Raw value of the product of two scalars: the exact product scaled
/// back down, rounded toward zero, then saturated.
pub open spec fn fx_mul_spec(a: int, b: int) -> int {
    if (a < 0) != (b < 0) {
        fx_clip(-(mag(a) * mag(b) / (FX_SCALE as int)))
    } else {
        fx_clip(mag(a) * mag(b) / (FX_SCALE as int))
    }
}

/// Raw value of the quotient of two scalars, rounded toward zero and
/// saturated; a zero divisor yields zero (callers guard divisions).
pub open spec fn fx_div_spec(a: int, b: int) -> int {
    if b == 0 {
        0
    } else if (a < 0) != (b < 0) {
        fx_clip(-(mag(a) * (FX_SCALE as int) / mag(b)))
    } else {
        fx_clip(mag(a) * (FX_SCALE as int) / mag(b))
    }
}

/// The integer square root: the largest `r` with `r * r <= n`.
pub open spec fn isqrt_spec(n: nat) -> nat
    decreases n,
{
    if n == 0 {
        0
    } else {
        let r = isqrt_spec((n - 1) as nat);
        if (r + 1) * (r + 1) <= n {
            r + 1
        } else {
            r
        }
    }
}

/// Raw value of the square root of a scalar; nonpositive inputs yield
/// zero (callers guard the argument's sign).
pub open spec fn fx_sqrt_spec(a: int) -> int {
    if a <= 0 {
        0
    } else {
        isqrt_spec((a * FX_SCALE) as nat) as int
    }
}

/// The integer square root is squeezed between the two adjacent squares.
pub proof fn lemma_isqrt_bounds(n: nat)
    ensures
        isqrt_spec(n) * isqrt_spec(n) <= n,
        n < (isqrt_spec(n) + 1) * (isqrt_spec(n) + 1),
    decreases n,
{
    if n == 0 {
        assert(isqrt_spec(n) == 0);
        assert(n < (isqrt_spec(n) + 1) * (isqrt_spec(n) + 1)) by (nonlinear_arith)
            requires
                n == 0 && isqrt_spec(n) == 0,
        ;
    } else {
        lemma_isqrt_bounds((n - 1) as nat);
        let r = isqrt_spec((n - 1) as nat);
        if (r + 1) * (r + 1) <= n {
            assert(isqrt_spec(n) == r + 1);
            assert((r + 1) * (r + 1) < (r + 2) * (r + 2)) by (nonlinear_arith);
            assert(isqrt_spec(n) * isqrt_spec(n) <= n);
            assert(n < (isqrt_spec(n) + 1) * (isqrt_spec(n) + 1));
        } else {
            assert(isqrt_spec(n) == r);
            assert(isqrt_spec(n) * isqrt_spec(n) <= n);
            assert(n < (isqrt_spec(n) + 1) * (isqrt_spec(n) + 1));
        }
    }
}

/// Any value squeezed between the two adjacent squares is the integer
/// square root.
pub proof fn lemma_isqrt_unique(n: nat, s: nat)
    requires
        s * s <= n,
        n < (s + 1) * (s + 1),
    ensures
        s == isqrt_spec(n),
{
    let r = isqrt_spec(n);
    lemma_isqrt_bounds(n);
    if s < r {
        lemma_mul_inequality((s + 1) as int, r as int, (s + 1) as int);
        lemma_mul_inequality((s + 1) as int, (s + 1) as int, r as int);
        assert(r * r <= n);
        assert((s + 1) * (s + 1) <= r * r) by (nonlinear_arith)
            requires
                s + 1 <= r,
        ;
    }
    if r < s {
        assert((r + 1) * (r + 1) <= s * s) by (nonlinear_arith)
            requires
                r + 1 <= s,
        ;
    }
}

/// A fixed-point scalar: the value `raw / FX_SCALE`.
#[derive(Clone, Copy, PartialEq, Eq, Structural, Debug)]
pub struct Fx {
    pub raw: i64,
}

impl View for Fx {
    type V = int;

    open spec fn view(&self) -> int {
        self.raw as int
    }
}

/// The scalar with the given raw value, saturated into range; the spec
/// mirror of every constructor used by the arithmetic specs.
pub open spec fn fxs(x: int) -> Fx {
    Fx { raw: fx_clip(x) as i64 }
}

/// Saturates a wide intermediate into the raw range.
fn clip_i128(x: i128) -> (r: i64)
    ensures
        r as int == fx_clip(x as int),
{
    if x > FX_RAW_MAX as i128 {
        FX_RAW_MAX
    } else if x < -(FX_RAW_MAX as i128) {
        -FX_RAW_MAX
    } else {
        x as i64
    }
}

/// Magnitude of a raw value, as an unsigned word.
fn mag64(x: i64) -> (m: u64)
    ensures
        m as int == mag(x as int),
{
    if x >= 0 {
        x as u64
    } else {
        let w: i128 = x as i128;
        (-w) as u64
    }
}

/// Rebuilds a signed, saturated raw value from a sign and a magnitude.
fn from_mag(neg: bool, m: u128) -> (r: i64)
    ensures
        r as int == fx_clip(
            if neg {
                -(m as int)
            } else {
                m as int
            },
        ),
{
    if m > FX_RAW_MAX as u128 {
        if neg {
            -FX_RAW_MAX
        } else {
            FX_RAW_MAX
        }
    } else {
        if neg {
            -(m as i64)
        } else {
            m as i64
        }
    }
}

impl Fx {
    /// Builds a scalar from a raw count of `1/FX_SCALE` units.
    pub fn from_raw(raw: i64) -> (r: Fx)
        ensures
            r@ == raw as int,
    {
        Fx { raw }
    }

    /// Builds a scalar holding the given whole number, saturated.
    pub fn from_int(v: i64) -> (r: Fx)
        ensures
            r@ == fx_clip(v * FX_SCALE),
    {
        proof {
            assert((v as int) * (FX_SCALE as int) <= i64::MAX * (FX_SCALE as int)
                && (v as int) * (FX_SCALE as int) >= i64::MIN * (FX_SCALE as int))
                by (nonlinear_arith)
                requires
                    i64::MIN <= v <= i64::MAX,
            ;
        }
        Fx { raw: clip_i128((v as i128) * (FX_SCALE as i128)) }
    }

    /// Builds the scalar closest to `n / d` from below, saturated.
    pub fn from_ratio(n: i64, d: i64) -> (r: Fx)
        ensures
            r@ == fx_div_spec(fx_clip(n * FX_SCALE), fx_clip(d * FX_SCALE)),
    {
        Fx::from_int(n).div(Fx::from_int(d))
    }

    /// The scalar zero.
    pub fn zero() -> (r: Fx)
        ensures
            r@ == 0,
    {
        Fx { raw: 0 }
    }

    /// The scalar one.
    pub fn one() -> (r: Fx)
        ensures
            r@ == FX_SCALE as int,
    {
        Fx { raw: FX_SCALE }
    }

    /// Sum, saturated.
    pub fn add(self, o: Fx) -> (r: Fx)
        ensures
            r@ == fx_add_spec(self@, o@),
            r == fxs(self@ + o@),
    {
        Fx { raw: clip_i128((self.raw as i128) + (o.raw as i128)) }
    }

    /// Difference, saturated.
    pub fn sub(self, o: Fx) -> (r: Fx)
        ensures
            r@ == fx_sub_spec(self@, o@),
            r == fxs(self@ - o@),
    {
        Fx { raw: clip_i128((self.raw as i128) - (o.raw as i128)) }
    }

    /// Negation, saturated.
    pub fn neg(self) -> (r: Fx)
        ensures
            r@ == fx_neg_spec(self@),
            r == fxs(-self@),
    {
        Fx { raw: clip_i128(-(self.raw as i128)) }
    }

    /// Product, scaled back down, rounded toward zero, saturated.
    pub fn mul(self, o: Fx) -> (r: Fx)
        ensures
            r@ == fx_mul_spec(self@, o@),
    {
        let ma: u128 = mag64(self.raw) as u128;
        let mb: u128 = mag64(o.raw) as u128;
        proof {
            lemma_mul_inequality(ma as int, u64::MAX as int, mb as int);
            lemma_mul_inequality(mb as int, u64::MAX as int, u64::MAX as int);
        }
        let p: u128 = ma * mb;
        let q: u128 = p / (FX_SCALE as u128);
        let neg: bool = (self.raw < 0) != (o.raw < 0);
        let r = Fx { raw: from_mag(neg, q) };
        proof {
            if !neg && (self@ < 0) != (o@ < 0) {
                assert(false);
            }
        }
        r
    }

    /// Quotient, rounded toward zero, saturated; zero divisor yields zero.
    pub fn div(self, o: Fx) -> (r: Fx)
        ensures
            r@ == fx_div_spec(self@, o@),
    {
        if o.raw == 0 {
            Fx { raw: 0 }
        } else {
            let ma: u128 = mag64(self.raw) as u128;
            let mb: u128 = mag64(o.raw) as u128;
            proof {
                lemma_mul_inequality(ma as int, u64::MAX as int, FX_SCALE as int);
            }
            let p: u128 = ma * (FX_SCALE as u128);
            let q: u128 = p / mb;
            let neg: bool = (self.raw < 0) != (o.raw < 0);
            Fx { raw: from_mag(neg, q) }
        }
    }

    /// Square root of a nonnegative scalar; nonpositive inputs yield zero.
    pub fn sqrt(self) -> (r: Fx)
        ensures
            r@ == fx_sqrt_spec(self@),
    {
        if self.raw <= 0 {
            Fx { raw: 0 }
        } else {
            let n: u128 = (self.raw as u128) * (FX_SCALE as u128);
            proof {
                lemma_mul_inequality(self.raw as int, i64::MAX as int, FX_SCALE as int);
            }
            let s: u128 = isqrt128(n);
            proof {
                lemma_isqrt_bounds(n as nat);
                let q = isqrt_spec(n as nat);
                assert(q < 0x1_0000_0000_0000) by (nonlinear_arith)
                    requires
                        q * q <= n as int,
                        (n as int) < 0x1_0000_0000_0000 * 0x1_0000_0000_0000,
                ;
            }
            Fx { raw: s as i64 }
        }
    }

    /// Magnitude.
    pub fn abs(self) -> (r: Fx)
        ensures
            r@ == fx_clip(mag(self@)),
    {
        Fx { raw: clip_i128(if self.raw < 0 { -(self.raw as i128) } else { self.raw as i128 }) }
    }

    /// The smaller of two scalars.
    pub fn min(self, o: Fx) -> (r: Fx)
        ensures
            r@ == if self@ <= o@ { self@ } else { o@ },
    {
        if self.raw <= o.raw {
            self
        } else {
            o
        }
    }

    /// The larger of two scalars.
    pub fn max(self, o: Fx) -> (r: Fx)
        ensures
            r@ == if self@ >= o@ { self@ } else { o@ },
    {
        if self.raw >= o.raw {
            self
        } else {
            o
        }
    }

    /// Strictly less.
    pub fn lt(self, o: Fx) -> (r: bool)
        ensures
            r == (self@ < o@),
    {
        self.raw < o.raw
    }

    /// Less or equal.
    pub fn le(self, o: Fx) -> (r: bool)
        ensures
            r == (self@ <= o@),
    {
        self.raw <= o.raw
    }

    /// Strictly greater.
    pub fn gt(self, o: Fx) -> (r: bool)
        ensures
            r == (self@ > o@),
    {
        self.raw > o.raw
    }

    /// Greater or equal.
    pub fn ge(self, o: Fx) -> (r: bool)
        ensures
            r == (self@ >= o@),
    {
        self.raw >= o.raw
    }

    /// The raw count of `1/FX_SCALE` units.
    pub fn raw(self) -> (r: i64)
        ensures
            r as int == self@,
    {
        self.raw
    }

    /// The whole part as an unsigned word; negative scalars yield zero.
    pub fn floor_u32(self) -> (r: u32)
        ensures
            r as int == fx_floor_u32_spec(self@),
    {
        if self.raw < 0 {
            0
        } else {
            ((self.raw as u64) / (FX_SCALE as u64)) as u32
        }
    }
}

/// The whole part of a raw value as a word: negative values floor to
/// zero, and no representable value exceeds the word range.
pub open spec fn fx_floor_u32_spec(a: int) -> int {
    if a < 0 {
        0
    } else {
        a / (FX_SCALE as int)
    }
}

/// On nonnegative arguments the product spec is the plain scaled product.
pub proof fn lemma_fx_mul_nonneg(a: int, b: int)
    requires
        0 <= a,
        0 <= b,
    ensures
        fx_mul_spec(a, b) == fx_clip(a * b / (FX_SCALE as int)),
        0 <= fx_mul_spec(a, b),
{
    assert(mag(a) == a);
    assert(mag(b) == b);
    assert(mag(a) * mag(b) == a * b);
    assert(0 <= a * b) by (nonlinear_arith)
        requires
            0 <= a && 0 <= b,
    ;
    assert(0 <= a * b / (FX_SCALE as int));
}

/// On a nonnegative dividend and positive divisor the quotient spec is
/// the plain scaled quotient.
pub proof fn lemma_fx_div_nonneg(a: int, b: int)
    requires
        0 <= a,
        0 < b,
    ensures
        fx_div_spec(a, b) == fx_clip(a * (FX_SCALE as int) / b),
        0 <= fx_div_spec(a, b),
{
    assert(mag(a) == a);
    assert(mag(b) == b);
    assert(mag(a) * (FX_SCALE as int) == a * (FX_SCALE as int));
    assert(0 <= a * (FX_SCALE as int)) by (nonlinear_arith)
        requires
            0 <= a,
    ;
    assert(0 <= a * (FX_SCALE as int) / b);
}

/// Multiplying by one is exact, up to saturation.
pub proof fn lemma_fx_mul_one(a: int)
    ensures
        fx_mul_spec(FX_SCALE as int, a) == fx_clip(a),
        fx_mul_spec(a, FX_SCALE as int) == fx_clip(a),
{
    assert(mag(a) * (FX_SCALE as int) == (FX_SCALE as int) * mag(a)) by (nonlinear_arith);
    assert((FX_SCALE as int) * mag(a) / (FX_SCALE as int) == mag(a)) by (nonlinear_arith)
        requires
            mag(a) >= 0,
            FX_SCALE > 0,
    ;
}

/// Dividing by one is exact, up to saturation.
pub proof fn lemma_fx_div_one(a: int)
    ensures
        fx_div_spec(a, FX_SCALE as int) == fx_clip(a),
{
    assert(mag(a) * (FX_SCALE as int) / (FX_SCALE as int) == mag(a)) by (nonlinear_arith)
        requires
            mag(a) >= 0,
            FX_SCALE > 0,
    ;
}

/// Negating one factor negates the product.
pub proof fn lemma_fx_mul_neg_left(a: int, b: int)
    ensures
        fx_mul_spec(-a, b) == -fx_mul_spec(a, b),
{
    assert(mag(-a) == mag(a));
    if a == 0 {
        assert(mag(a) * mag(b) == 0) by (nonlinear_arith)
            requires
                mag(a) == 0,
        ;
    }
}

/// Negating the right factor negates the product.
pub proof fn lemma_fx_mul_neg_right(a: int, b: int)
    ensures
        fx_mul_spec(a, -b) == -fx_mul_spec(a, b),
{
    assert(mag(-b) == mag(b));
    if b == 0 {
        assert(mag(a) * mag(b) == 0) by (nonlinear_arith)
            requires
                mag(b) == 0,
        ;
    }
}

/// A zero factor gives a zero product.
pub proof fn lemma_fx_mul_zero(a: int)
    ensures
        fx_mul_spec(a, 0) == 0,
        fx_mul_spec(0, a) == 0,
{
    assert(mag(a) * mag(0) == 0) by (nonlinear_arith)
        requires
            mag(0) == 0,
    ;
    assert(mag(0) * mag(a) == 0) by (nonlinear_arith)
        requires
            mag(0) == 0,
    ;
}

/// The integer square root never decreases.
pub proof fn lemma_isqrt_monotone(m: nat, n: nat)
    requires
        m <= n,
    ensures
        isqrt_spec(m) <= isqrt_spec(n),
{
    lemma_isqrt_bounds(m);
    lemma_isqrt_bounds(n);
    let a = isqrt_spec(m);
    let b = isqrt_spec(n);
    if a > b {
        assert((b + 1) * (b + 1) <= a * a) by (nonlinear_arith)
            requires
                b + 1 <= a,
        ;
    }
}

/// The integer square root of a perfect square.
pub proof fn lemma_isqrt_square(x: nat)
    ensures
        isqrt_spec(x * x) == x,
{
    assert(x * x < (x + 1) * (x + 1)) by (nonlinear_arith);
    lemma_isqrt_unique(x * x, x);
}

/// Scaling a nonnegative value by a factor in `[0, 1]` never increases
/// it: the heart of energy conservation under attenuation.
pub proof fn lemma_fx_mul_attenuates(a: int, c: int)
    requires
        0 <= a <= FX_SCALE as int,
        0 <= c,
    ensures
        0 <= fx_mul_spec(a, c) <= c,
{
    lemma_fx_mul_nonneg(a, c);
    assert(a * c <= (FX_SCALE as int) * c) by (nonlinear_arith)
        requires
            0 <= a <= FX_SCALE as int,
            0 <= c,
    ;
    assert(a * c / (FX_SCALE as int) <= c) by (nonlinear_arith)
        requires
            0 <= a * c,
            a * c <= (FX_SCALE as int) * c,
            FX_SCALE > 0,
    ;
}

/// The quotient does not decrease when the dividend grows, for a fixed
/// nonnegative divisor.
pub proof fn lemma_fx_div_monotone(x: int, y: int, d: int)
    requires
        x <= y,
        0 <= d,
    ensures
        fx_div_spec(x, d) <= fx_div_spec(y, d),
{
    if d != 0 {
        if 0 <= x {
            assert(mag(x) * (FX_SCALE as int) / d <= mag(y) * (FX_SCALE as int) / d)
                by (nonlinear_arith)
                requires
                    0 <= mag(x) <= mag(y),
                    FX_SCALE > 0,
                    d > 0,
            ;
            assert(0 <= mag(x) * (FX_SCALE as int)) by (nonlinear_arith)
                requires
                    0 <= mag(x),
            ;
        } else if y < 0 {
            assert(mag(y) * (FX_SCALE as int) / d <= mag(x) * (FX_SCALE as int) / d)
                by (nonlinear_arith)
                requires
                    0 <= mag(y) <= mag(x),
                    FX_SCALE > 0,
                    d > 0,
            ;
            assert(0 <= mag(y) * (FX_SCALE as int)) by (nonlinear_arith)
                requires
                    0 <= mag(y),
            ;
        } else {
            assert(0 <= mag(x) * (FX_SCALE as int)) by (nonlinear_arith)
                requires
                    0 <= mag(x),
            ;
            assert(0 <= mag(y) * (FX_SCALE as int)) by (nonlinear_arith)
                requires
                    0 <= mag(y),
            ;
            assert(0 <= mag(x) * (FX_SCALE as int) / d);
            assert(0 <= mag(y) * (FX_SCALE as int) / d);
        }
    }
}

/// Raw value of pi.
pub const FX_PI: i64 = 13493037705;

/// Raw value of the sine polynomial: the odd Taylor terms through the
/// ninth power, evaluated in fixed-point arithmetic.
pub open spec fn fx_sin_spec(x: int) -> int {
    let x2 = fx_mul_spec(x, x);
    let x3 = fx_mul_spec(x2, x);
    let x5 = fx_mul_spec(x3, x2);
    let x7 = fx_mul_spec(x5, x2);
    let x9 = fx_mul_spec(x7, x2);
    fx_add_spec(
        fx_sub_spec(
            fx_add_spec(fx_sub_spec(x, fx_div_spec(x3, 6 * FX_SCALE)), fx_div_spec(x5, 120 * FX_SCALE)),
            fx_div_spec(x7, 5040 * FX_SCALE),
        ),
        fx_div_spec(x9, 362880 * FX_SCALE),
    )
}

/// Raw value of the cosine polynomial: the even Taylor terms through the
/// tenth power, evaluated in fixed-point arithmetic.
pub open spec fn fx_cos_spec(x: int) -> int {
    let x2 = fx_mul_spec(x, x);
    let x4 = fx_mul_spec(x2, x2);
    let x6 = fx_mul_spec(x4, x2);
    let x8 = fx_mul_spec(x6, x2);
    let x10 = fx_mul_spec(x8, x2);
    fx_sub_spec(
        fx_add_spec(
            fx_sub_spec(
                fx_add_spec(
                    fx_sub_spec(FX_SCALE as int, fx_div_spec(x2, 2 * FX_SCALE)),
                    fx_div_spec(x4, 24 * FX_SCALE),
                ),
                fx_div_spec(x6, 720 * FX_SCALE),
            ),
            fx_div_spec(x8, 40320 * FX_SCALE),
        ),
        fx_div_spec(x10, 3628800 * FX_SCALE),
    )
}

/// Raw value of the tangent: sine over cosine.
pub open spec fn fx_tan_spec(x: int) -> int {
    fx_div_spec(fx_sin_spec(x), fx_cos_spec(x))
}

impl Fx {
    /// The scalar closest to pi from below.
    pub fn pi() -> (r: Fx)
        ensures
            r@ == FX_PI as int,
    {
        Fx { raw: FX_PI }
    }

    /// Sine, by a Taylor polynomial; accurate for arguments within a
    /// quarter turn of zero.
    pub fn sin(self) -> (r: Fx)
        ensures
            r@ == fx_sin_spec(self@),
    {
        let x2 = self.mul(self);
        let x3 = x2.mul(self);
        let x5 = x3.mul(x2);
        let x7 = x5.mul(x2);
        let x9 = x7.mul(x2);
        self.sub(x3.div(Fx::from_int(6))).add(x5.div(Fx::from_int(120))).sub(
            x7.div(Fx::from_int(5040)),
        ).add(x9.div(Fx::from_int(362880)))
    }

    /// Cosine, by a Taylor polynomial; accurate for arguments within a
    /// quarter turn of zero.
    pub fn cos(self) -> (r: Fx)
        ensures
            r@ == fx_cos_spec(self@),
    {
        let x2 = self.mul(self);
        let x4 = x2.mul(x2);
        let x6 = x4.mul(x2);
        let x8 = x6.mul(x2);
        let x10 = x8.mul(x2);
        Fx::one().sub(x2.div(Fx::from_int(2))).add(x4.div(Fx::from_int(24))).sub(
            x6.div(Fx::from_int(720)),
        ).add(x8.div(Fx::from_int(40320))).sub(x10.div(Fx::from_int(3628800)))
    }

    /// Tangent: sine over cosine; saturates where the cosine vanishes.
    pub fn tan(self) -> (r: Fx)
        ensures
            r@ == fx_tan_spec(self@),
    {
        self.sin().div(self.cos())
    }
}

/// Integer square root of a word that fits below `2^96`, by bisection.
fn isqrt128(n: u128) -> (r: u128)
    requires
        (n as int) < 0x1_0000_0000_0000 * 0x1_0000_0000_0000,
    ensures
        r as nat == isqrt_spec(n as nat),
{
    let mut lo: u128 = 0;
    let mut hi: u128 = 0x1_0000_0000_0000;
    proof {
        lemma_isqrt_bounds(n as nat);
    }
    while lo + 1 < hi
        invariant
            lo < hi <= 0x1_0000_0000_0000,
            (lo as int) * (lo as int) <= n as int,
            (n as int) < (hi as int) * (hi as int),
        decreases hi - lo,
    {
        let mid: u128 = lo + (hi - lo) / 2;
        proof {
            lemma_mul_inequality(mid as int, 0x1_0000_0000_0000, mid as int);
            lemma_mul_inequality(0x1_0000_0000_0000, 0x1_0000_0000_0000, mid as int);
        }
        let sq: u128 = mid * mid;
        if sq <= n {
            lo = mid;
        } else {
            hi = mid;
        }
    }
    proof {
        lemma_isqrt_unique(n as nat, lo as nat);
    }
    lo
}

} // verus!
