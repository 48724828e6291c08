use crate::utility::{fx_mul, fx_mul_spec, isqrt, rand, rand_range, sqrt_floor, tdiv, SCALE};
use vstd::math::abs;
use vstd::prelude::*;

verus! {

/// Largest channel magnitude the colour operations accept: room for a full
/// sample accumulation.
pub const CMAX: i64 = 0x100_0000_0000;

/// Channel value corresponding to the output clamp bound (just below one).
pub const CLAMP_MAX: i64 = 65470;

/// A linear RGB triple; each channel is a fixed-point scalar counted in
/// units of `1 / SCALE`. Channels may exceed one while samples accumulate.
#[derive(Clone, Copy, Debug, PartialEq, Eq, Structural)]
pub struct Color {
    pub r: i64,
    pub g: i64,
    pub b: i64,
}

/// All channels lie within the given magnitude.
pub open spec fn color_within(c: Color, m: int) -> bool {
    &&& -m <= c.r <= m
    &&& -m <= c.g <= m
    &&& -m <= c.b <= m
}

/// All channels lie in `[0, 1]`: a physical attenuation or output colour.
pub open spec fn color_unit(c: Color) -> bool {
    &&& 0 <= c.r <= SCALE
    &&& 0 <= c.g <= SCALE
    &&& 0 <= c.b <= SCALE
}

/// The decimal ASCII digits of a byte value.
pub open spec fn dec_bytes(n: int) -> Seq<u8> {
    if n >= 100 {
        seq![(48 + n / 100) as u8, (48 + (n / 10) % 10) as u8, (48 + n % 10) as u8]
    } else if n >= 10 {
        seq![(48 + n / 10) as u8, (48 + n % 10) as u8]
    } else {
        seq![(48 + n) as u8]
    }
}

/// One channel of the output conversion: average over the samples, floor
/// negatives to zero, gamma-correct by square root, clamp just below one,
/// and scale to a byte.
pub open spec fn channel_byte(c: int, samples: int) -> int {
    let avg = tdiv(c, samples);
    let nonneg = if avg < 0 {
        0
    } else {
        avg
    };
    let gamma = sqrt_floor(nonneg * 65536);
    let clamped = if gamma > CLAMP_MAX {
        CLAMP_MAX as int
    } else {
        gamma
    };
    clamped / 256
}

/// The full output encoding of a colour: the three channel bytes in
/// decimal ASCII, separated by spaces and ended by a newline.
pub open spec fn output_bytes(c: Color, samples: int) -> Seq<u8> {
    dec_bytes(channel_byte(c.r as int, samples)) + seq![32u8] + dec_bytes(
        channel_byte(c.g as int, samples),
    ) + seq![32u8] + dec_bytes(channel_byte(c.b as int, samples)) + seq![10u8]
}

impl Color {
    pub fn new(r: i64, g: i64, b: i64) -> (c: Self)
        ensures
            c == (Color { r, g, b }),
    {
        Color { r, g, b }
    }

    pub fn all(val: i64) -> (c: Self)
        ensures
            c == (Color { r: val, g: val, b: val }),
    {
        Color::new(val, val, val)
    }

    pub fn black() -> (c: Self)
        ensures
            c == (Color { r: 0i64, g: 0i64, b: 0i64 }),
    {
        Color::all(0)
    }

    pub fn white() -> (c: Self)
        ensures
            c == (Color { r: SCALE, g: SCALE, b: SCALE }),
    {
        Color::all(SCALE)
    }

    /// A colour with each channel drawn uniformly from `[0, 1)`.
    pub fn random() -> (c: Self)
        ensures
            0 <= c.r < SCALE,
            0 <= c.g < SCALE,
            0 <= c.b < SCALE,
    {
        Color::new(rand(), rand(), rand())
    }

    /// A colour with each channel drawn uniformly from `[min, max)`.
    pub fn rand_range(min: i64, max: i64) -> (c: Self)
        requires
            min < max,
        ensures
            min <= c.r < max,
            min <= c.g < max,
            min <= c.b < max,
    {
        Color::new(rand_range(min, max), rand_range(min, max), rand_range(min, max))
    }

    /// Channelwise sum.
    pub fn add(&self, rhs: Color) -> (c: Self)
        requires
            color_within(*self, CMAX as int),
            color_within(rhs, CMAX as int),
        ensures
            c.r == self.r + rhs.r,
            c.g == self.g + rhs.g,
            c.b == self.b + rhs.b,
    {
        Color { r: self.r + rhs.r, g: self.g + rhs.g, b: self.b + rhs.b }
    }

    /// Channelwise fixed-point product; two unit colours give a unit colour.
    pub fn mul(&self, rhs: Color) -> (c: Self)
        requires
            color_unit(*self),
            color_unit(rhs),
        ensures
            c.r as int == fx_mul_spec(self.r as int, rhs.r as int),
            c.g as int == fx_mul_spec(self.g as int, rhs.g as int),
            c.b as int == fx_mul_spec(self.b as int, rhs.b as int),
            color_unit(c),
    {
        proof {
            lemma_unit_mul(self.r as int, rhs.r as int);
            lemma_unit_mul(self.g as int, rhs.g as int);
            lemma_unit_mul(self.b as int, rhs.b as int);
        }
        Color { r: fx_mul(self.r, rhs.r), g: fx_mul(self.g, rhs.g), b: fx_mul(self.b, rhs.b) }
    }

    /// The byte encoding of one channel after averaging, gamma correction,
    /// clamping and scaling.
    fn channel_out(c: i64, samples: u32) -> (r: u8)
        requires
            samples > 0,
            -CMAX <= c <= CMAX,
        ensures
            r as int == channel_byte(c as int, samples as int),
            r <= 255,
    {
        proof {
            crate::utility::lemma_tdiv_bound(c as int, samples as int, CMAX as int);
            vstd::arithmetic::div_mod::lemma_div_is_ordered_by_denominator(
                CMAX as int,
                1,
                samples as int,
            );
        }
        let avg: i64 = c / (samples as i64);
        let nonneg: i64 = if avg < 0 {
            0
        } else {
            avg
        };
        let gamma64: u64 = isqrt((nonneg as u128) * 65536);
        proof {
            let g = gamma64 as int;
            if g > 0x4000_0000 {
                assert(g * g > 0x4000_0000int * 0x4000_0000int) by (nonlinear_arith)
                    requires
                        g > 0x4000_0000,
                ;
            }
        }
        let gamma: i64 = gamma64 as i64;
        let clamped: i64 = if gamma > CLAMP_MAX {
            CLAMP_MAX
        } else {
            gamma
        };
        proof {
            vstd::arithmetic::div_mod::lemma_div_is_ordered(clamped as int, 65470, 256);
        }
        (clamped / 256) as u8
    }

    /// The output encoding of the accumulated colour: the averaged,
    /// gamma-corrected channels as decimal ASCII bytes.
    pub fn as_output(&self, samples: u32) -> (out: Vec<u8>)
        requires
            samples > 0,
            color_within(*self, CMAX as int),
        ensures
            out@ == output_bytes(*self, samples as int),
    {
        let mut out: Vec<u8> = Vec::new();
        let cr = Color::channel_out(self.r, samples);
        let cg = Color::channel_out(self.g, samples);
        let cb = Color::channel_out(self.b, samples);
        Color::push_decimal(&mut out, cr);
        out.push(32);
        Color::push_decimal(&mut out, cg);
        out.push(32);
        Color::push_decimal(&mut out, cb);
        out.push(10);
        proof {
            assert(out@ =~= output_bytes(*self, samples as int));
        }
        out
    }

    /// Append the decimal ASCII digits of a byte value.
    fn push_decimal(out: &mut Vec<u8>, n: u8) -> (nothing: ())
        ensures
            final(out)@ == old(out)@ + dec_bytes(n as int),
    {
        if n >= 100 {
            out.push(48 + n / 100);
            out.push(48 + (n / 10) % 10);
            out.push(48 + n % 10);
        } else if n >= 10 {
            out.push(48 + n / 10);
            out.push(48 + n % 10);
        } else {
            out.push(48 + n);
        }
        proof {
            assert(out@ =~= old(out)@ + dec_bytes(n as int));
        }
    }
}

/// The fixed-point product of two scalars in `[0, 1]` stays in `[0, 1]`.
proof fn lemma_unit_mul(a: int, b: int)
    requires
        0 <= a <= SCALE,
        0 <= b <= SCALE,
    ensures
        0 <= fx_mul_spec(a, b) <= SCALE,
        abs(a * b) <= 4294967296,
{
    assert(0 <= a * b <= 4294967296) by (nonlinear_arith)
        requires
            0 <= a <= 65536,
            0 <= b <= 65536,
    ;
    assert(fx_mul_spec(a, b) == a * b / 65536);
    vstd::arithmetic::div_mod::lemma_div_is_ordered(0, a * b, 65536);
    vstd::arithmetic::div_mod::lemma_div_is_ordered(a * b, 4294967296, 65536);
}

} // verus!
