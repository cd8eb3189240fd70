//! The three-channel color type: unclamped linear radiance, clamped,
//! gamma-corrected and quantized only at output time.

use crate::scalars::{
    fx_add_spec, fx_clip, fx_div_spec, fx_mul_spec, fx_neg_spec, fx_sqrt_spec, fx_sub_spec, fxs,
    lemma_fx_div_nonneg, lemma_fx_mul_nonneg, Fx, FX_SCALE,
};
use crate::vectors::Vector3;
use vstd::arithmetic::mul::lemma_mul_strict_inequality;
use vstd::prelude::*;

verus! {

/// Default number of output levels per channel.
pub const DYN_RANGE: u32 = 256;

/// A color: red, green and blue radiance, unclamped while accumulating.
#[derive(Clone, Copy, PartialEq, Eq, Structural, Debug)]
pub struct Color {
    pub r: Fx,
    pub g: Fx,
    pub b: Fx,
}

/// The color with the given raw channels, each saturated into range.
pub open spec fn col(r: int, g: int, b: int) -> Color {
    Color { r: fxs(r), g: fxs(g), b: fxs(b) }
}

/// Channelwise sum.
pub open spec fn col_add_spec(a: Color, b: Color) -> Color {
    col(fx_add_spec(a.r@, b.r@), fx_add_spec(a.g@, b.g@), fx_add_spec(a.b@, b.b@))
}

/// Channelwise difference.
pub open spec fn col_sub_spec(a: Color, b: Color) -> Color {
    col(fx_sub_spec(a.r@, b.r@), fx_sub_spec(a.g@, b.g@), fx_sub_spec(a.b@, b.b@))
}

/// Channelwise product; how an attenuation scales carried radiance.
pub open spec fn col_mul_spec(a: Color, b: Color) -> Color {
    col(fx_mul_spec(a.r@, b.r@), fx_mul_spec(a.g@, b.g@), fx_mul_spec(a.b@, b.b@))
}

/// Product with a scalar.
pub open spec fn col_scale_spec(a: Color, s: int) -> Color {
    col(fx_mul_spec(a.r@, s), fx_mul_spec(a.g@, s), fx_mul_spec(a.b@, s))
}

/// Quotient by a scalar.
pub open spec fn col_div_fx_spec(a: Color, s: int) -> Color {
    col(fx_div_spec(a.r@, s), fx_div_spec(a.g@, s), fx_div_spec(a.b@, s))
}

/// Channelwise negation.
pub open spec fn col_neg_spec(a: Color) -> Color {
    col(fx_neg_spec(a.r@), fx_neg_spec(a.g@), fx_neg_spec(a.b@))
}

/// Square-root tone mapping of every channel.
pub open spec fn col_gamma_spec(a: Color) -> Color {
    col(fx_sqrt_spec(a.r@), fx_sqrt_spec(a.g@), fx_sqrt_spec(a.b@))
}

/// Raw value of `0.999`, the upper clamp bound before quantization.
pub open spec fn clamp_top_spec() -> int {
    fx_div_spec(fx_clip(999 * FX_SCALE), fx_clip(1000 * FX_SCALE))
}

/// A channel clamped into `[0, 0.999]`.
pub open spec fn channel_clamp_spec(c: int) -> int {
    if c < 0 {
        0
    } else if c > clamp_top_spec() {
        clamp_top_spec()
    } else {
        c
    }
}

/// Raw value of `dyn_range - 0.001`, the quantization scale.
pub open spec fn quantize_scale_spec(dyn_range: u32) -> int {
    fx_sub_spec(fx_clip(dyn_range * FX_SCALE), fx_div_spec(FX_SCALE as int, fx_clip(1000 * FX_SCALE)))
}

/// A clamped channel scaled by `dyn_range - 0.001` and floored: the
/// integer level handed to the pixel sink.
pub open spec fn channel_quantize_spec(c: int, dyn_range: u32) -> int {
    fx_mul_spec(channel_clamp_spec(c), quantize_scale_spec(dyn_range)) / (FX_SCALE as int)
}

/// The three quantized levels of a color, in red, green, blue order.
pub open spec fn col_quantize_spec(a: Color, dyn_range: u32) -> (int, int, int) {
    (
        channel_quantize_spec(a.r@, dyn_range),
        channel_quantize_spec(a.g@, dyn_range),
        channel_quantize_spec(a.b@, dyn_range),
    )
}

/// The clamp bound `0.999` as a raw value.
pub proof fn lemma_clamp_top_value()
    ensures
        clamp_top_spec() == 4290672328,
{
    let a: int = fx_clip(999 * FX_SCALE);
    let b: int = fx_clip(1000 * FX_SCALE);
    assert(a == 4290672328704);
    assert(b == 4294967296000);
    lemma_fx_div_nonneg(a, b);
    assert(a * (FX_SCALE as int) == 18428297329635842064384int);
    assert(a * (FX_SCALE as int) / b == 18428297329635842064384int / 4294967296000int);
}

/// The quantization scale `dyn_range - 0.001` as a raw value.
pub proof fn lemma_quantize_scale_value(dyn_range: u32)
    ensures
        quantize_scale_spec(dyn_range) == fx_clip(dyn_range * FX_SCALE) - 4294967,
{
    let b: int = fx_clip(1000 * FX_SCALE);
    assert(b == 4294967296000);
    lemma_fx_div_nonneg(FX_SCALE as int, b);
    assert((FX_SCALE as int) * (FX_SCALE as int) == 18446744073709551616int);
    assert((FX_SCALE as int) * (FX_SCALE as int) / b == 18446744073709551616int / 4294967296000int);
    assert(fx_div_spec(FX_SCALE as int, b) == 4294967);
}

/// A quantized channel lies in `[0, dyn_range - 1]`.
pub proof fn lemma_channel_quantize_bounds(c: int, dyn_range: u32)
    requires
        dyn_range >= 1,
    ensures
        0 <= channel_quantize_spec(c, dyn_range) < dyn_range,
        0 <= fx_mul_spec(channel_clamp_spec(c), quantize_scale_spec(dyn_range)),
{
    lemma_clamp_top_value();
    lemma_quantize_scale_value(dyn_range);
    let top = clamp_top_spec();
    let clamped = channel_clamp_spec(c);
    let max_val = quantize_scale_spec(dyn_range);
    assert(0 <= clamped <= top);
    assert(0 < max_val) by {
        assert(fx_clip(dyn_range * FX_SCALE) >= FX_SCALE as int);
    }
    assert(max_val < (dyn_range as int) * (FX_SCALE as int)) by {
        assert(fx_clip(dyn_range * FX_SCALE) <= (dyn_range as int) * (FX_SCALE as int));
    }
    lemma_fx_mul_nonneg(clamped, max_val);
    let prod = fx_mul_spec(clamped, max_val);
    if clamped == 0 {
        assert(clamped * max_val == 0) by (nonlinear_arith)
            requires
                clamped == 0,
        ;
        assert(prod == 0);
    } else {
        lemma_mul_strict_inequality(clamped, FX_SCALE as int, max_val);
        assert(clamped * max_val < (FX_SCALE as int) * max_val);
        assert(clamped * max_val / (FX_SCALE as int) < max_val) by (nonlinear_arith)
            requires
                0 <= clamped * max_val,
                clamped * max_val < (FX_SCALE as int) * max_val,
                FX_SCALE > 0,
        ;
        assert(0 <= clamped * max_val) by (nonlinear_arith)
            requires
                clamped >= 0 && max_val >= 0,
        ;
    }
    assert(0 <= prod < max_val || prod == 0);
    assert(prod / (FX_SCALE as int) < dyn_range) by (nonlinear_arith)
        requires
            0 <= prod,
            prod < (dyn_range as int) * (FX_SCALE as int),
            FX_SCALE > 0,
    ;
    assert(0 <= prod / (FX_SCALE as int));
}

/// Whether every channel is nonnegative.
pub open spec fn col_nonneg_spec(c: Color) -> bool {
    0 <= c.r@ && 0 <= c.g@ && 0 <= c.b@
}

/// Channelwise order.
pub open spec fn col_le_spec(a: Color, b: Color) -> bool {
    a.r@ <= b.r@ && a.g@ <= b.g@ && a.b@ <= b.b@
}

/// Whether every channel lies in `[0, 1]`: a physical albedo.
pub open spec fn albedo_bounded_spec(a: Color) -> bool {
    0 <= a.r@ <= FX_SCALE as int && 0 <= a.g@ <= FX_SCALE as int && 0 <= a.b@ <= FX_SCALE as int
}

/// The radiance left after an attenuation is applied `n` times.
pub open spec fn attenuate_n_spec(albedo: Color, c: Color, n: nat) -> Color
    decreases n,
{
    if n == 0 {
        c
    } else {
        col_mul_spec(albedo, attenuate_n_spec(albedo, c, (n - 1) as nat))
    }
}

/// One application of a physical albedo never increases any channel of a
/// nonnegative radiance and keeps it nonnegative.
pub proof fn lemma_attenuation_le(albedo: Color, c: Color)
    requires
        albedo_bounded_spec(albedo),
        col_nonneg_spec(c),
    ensures
        col_nonneg_spec(col_mul_spec(albedo, c)),
        col_le_spec(col_mul_spec(albedo, c), c),
{
    crate::scalars::lemma_fx_mul_attenuates(albedo.r@, c.r@);
    crate::scalars::lemma_fx_mul_attenuates(albedo.g@, c.g@);
    crate::scalars::lemma_fx_mul_attenuates(albedo.b@, c.b@);
}

/// Energy conservation: a physical albedo applied over any number of
/// bounces only ever decreases the carried radiance, channel by channel;
/// one more bounce never brightens, and any number of bounces stays at
/// or below the starting radiance.
pub proof fn lemma_attenuation_chain(albedo: Color, c: Color, n: nat)
    requires
        albedo_bounded_spec(albedo),
        col_nonneg_spec(c),
    ensures
        col_nonneg_spec(attenuate_n_spec(albedo, c, n)),
        col_le_spec(attenuate_n_spec(albedo, c, n + 1), attenuate_n_spec(albedo, c, n)),
        col_le_spec(attenuate_n_spec(albedo, c, n), c),
    decreases n,
{
    if n == 0 {
        lemma_attenuation_le(albedo, c);
    } else {
        lemma_attenuation_chain(albedo, c, (n - 1) as nat);
        lemma_attenuation_le(albedo, attenuate_n_spec(albedo, c, n));
        lemma_attenuation_le(albedo, attenuate_n_spec(albedo, c, (n - 1) as nat));
    }
}

impl Color {
    /// The color with the given channels.
    pub fn new(r: Fx, g: Fx, b: Fx) -> (c: Color)
        ensures
            c == (Color { r, g, b }),
    {
        Color { r, g, b }
    }

    /// The color black.
    pub fn black() -> (c: Color)
        ensures
            c == col(0, 0, 0),
    {
        Color { r: Fx::zero(), g: Fx::zero(), b: Fx::zero() }
    }

    /// The color with the vector's components as channels.
    pub fn from_vector(v: Vector3) -> (c: Color)
        ensures
            c == (Color { r: v.x, g: v.y, b: v.z }),
    {
        Color { r: v.x, g: v.y, b: v.z }
    }

    /// Channelwise sum.
    pub fn add(self, o: Color) -> (c: Color)
        ensures
            c == col_add_spec(self, o),
    {
        Color { r: self.r.add(o.r), g: self.g.add(o.g), b: self.b.add(o.b) }
    }

    /// Channelwise difference.
    pub fn sub(self, o: Color) -> (c: Color)
        ensures
            c == col_sub_spec(self, o),
    {
        Color { r: self.r.sub(o.r), g: self.g.sub(o.g), b: self.b.sub(o.b) }
    }

    /// Channelwise product.
    pub fn mul(self, o: Color) -> (c: Color)
        ensures
            c == col_mul_spec(self, o),
    {
        Color { r: self.r.mul(o.r), g: self.g.mul(o.g), b: self.b.mul(o.b) }
    }

    /// Product with a scalar.
    pub fn scale(self, s: Fx) -> (c: Color)
        ensures
            c == col_scale_spec(self, s@),
    {
        Color { r: self.r.mul(s), g: self.g.mul(s), b: self.b.mul(s) }
    }

    /// Quotient by a scalar; used to average accumulated samples.
    pub fn div_fx(self, s: Fx) -> (c: Color)
        ensures
            c == col_div_fx_spec(self, s@),
    {
        Color { r: self.r.div(s), g: self.g.div(s), b: self.b.div(s) }
    }

    /// Channelwise negation.
    pub fn neg(self) -> (c: Color)
        ensures
            c == col_neg_spec(self),
    {
        Color { r: self.r.neg(), g: self.g.neg(), b: self.b.neg() }
    }

    /// Square-root tone mapping of every channel, in place.
    pub fn gamma_correct(&mut self)
        ensures
            *final(self) == col_gamma_spec(*old(self)),
    {
        self.r = self.r.sqrt();
        self.g = self.g.sqrt();
        self.b = self.b.sqrt();
    }

    /// The three output levels of this color: each channel clamped into
    /// `[0, 0.999]`, scaled by `dyn_range - 0.001`, and floored; each lies
    /// in `[0, dyn_range - 1]`.
    pub fn quantize(self, dyn_range: u32) -> (q: (u32, u32, u32))
        requires
            dyn_range >= 1,
        ensures
            (q.0 as int, q.1 as int, q.2 as int) == col_quantize_spec(self, dyn_range),
            q.0 < dyn_range && q.1 < dyn_range && q.2 < dyn_range,
    {
        let max_val = Fx::from_int(dyn_range as i64).sub(Fx::one().div(Fx::from_int(1000)));
        proof {
            assert(fx_clip((dyn_range as i64) * FX_SCALE) == fx_clip(dyn_range * FX_SCALE));
            assert(fx_clip(1000 * FX_SCALE) == 1000 * FX_SCALE);
            lemma_channel_quantize_bounds(self.r@, dyn_range);
            lemma_channel_quantize_bounds(self.g@, dyn_range);
            lemma_channel_quantize_bounds(self.b@, dyn_range);
        }
        let q0 = quantize_channel(self.r, max_val);
        let q1 = quantize_channel(self.g, max_val);
        let q2 = quantize_channel(self.b, max_val);
        (q0, q1, q2)
    }
}

/// One channel clamped, scaled by the precomputed `dyn_range - 0.001`
/// quantization scale, and floored to a level.
fn quantize_channel(c: Fx, max_val: Fx) -> (q: u32)
    requires
        0 <= fx_mul_spec(channel_clamp_spec(c@), max_val@),
        fx_mul_spec(channel_clamp_spec(c@), max_val@) / (FX_SCALE as int) <= u32::MAX as int,
    ensures
        q as int == fx_mul_spec(channel_clamp_spec(c@), max_val@) / (FX_SCALE as int),
{
    let top = Fx::from_ratio(999, 1000);
    let clamped = c.max(Fx::zero()).min(top);
    let scaled = clamped.mul(max_val);
    let raw: i64 = scaled.raw();
    let whole: u64 = (raw as u64) / (FX_SCALE as u64);
    whole as u32
}

} // verus!
