//! Display colours and unbounded light intensities.
use vstd::prelude::*;

use crate::scalar::{floor_div, ONE};

verus! {

#[verifier::external_type_specification]
pub struct ExPixel(bmp::Pixel);

/// Largest channel of an intensity that the arithmetic accepts.
pub const INTENSITY_MAX: i64 = 0x1000_0000_0000;

/// An RGB colour; each channel is a fixed-point value between 0 and 1.0 inclusive.
#[derive(Debug, Clone, Copy, PartialEq, Eq, Structural)]
pub struct Colour {
    pub r: i64,
    pub g: i64,
    pub b: i64,
}

/// Whether `c` is a channel of a colour.
pub open spec fn unit_ok(c: int) -> bool {
    0 <= c <= ONE
}

/// The fixed-point value of an 8-bit channel `v`, that is `v / 255`, rounded up
/// so that converting back to 8 bits gives `v` again.
pub open spec fn from_byte(v: int) -> int {
    (v * ONE + 254) / 255
}

/// The 8-bit channel of a fixed-point value `c`, that is `c * 255`, rounded down.
pub open spec fn to_byte(c: int) -> int {
    c * 255 / ONE as int
}

/// The colour written as `0xRRGGBB`; higher bits are ignored.
pub open spec fn colour_of(c: int) -> Colour {
    Colour {
        r: from_byte((c / 0x10000) % 256) as i64,
        g: from_byte((c / 0x100) % 256) as i64,
        b: from_byte(c % 256) as i64,
    }
}

impl Colour {
    pub open spec fn wf(self) -> bool {
        unit_ok(self.r as int) && unit_ok(self.g as int) && unit_ok(self.b as int)
    }

    pub fn new(r: i64, g: i64, b: i64) -> (c: Colour)
        requires
            unit_ok(r as int),
            unit_ok(g as int),
            unit_ok(b as int),
        ensures
            c == (Colour { r, g, b }),
            c.wf(),
    {
        Colour { r, g, b }
    }

    /// The colour written as `0xRRGGBB`; higher bits are ignored.
    pub fn from_24bit_int(colour: u32) -> (c: Colour)
        ensures
            c.r == from_byte((colour as int / 0x10000) % 256),
            c.g == from_byte((colour as int / 0x100) % 256),
            c.b == from_byte(colour as int % 256),
            c == colour_of(colour as int),
            c.wf(),
    {
        let red: u32 = (colour / 0x10000) % 256;
        let green: u32 = (colour / 0x100) % 256;
        let blue: u32 = colour % 256;
        Colour::new(byte_value(red), byte_value(green), byte_value(blue))
    }

    /// The colour as an 8-bit-per-channel pixel.
    pub fn pixel(&self) -> (p: bmp::Pixel)
        requires
            self.wf(),
        ensures
            p.r == to_byte(self.r as int),
            p.g == to_byte(self.g as int),
            p.b == to_byte(self.b as int),
    {
        bmp::Pixel { r: channel_byte(self.r), g: channel_byte(self.g), b: channel_byte(self.b) }
    }
}

/// An 8-bit channel survives the round trip through a fixed-point colour channel.
pub proof fn lemma_byte_round_trip(v: int)
    requires
        0 <= v < 256,
    ensures
        unit_ok(from_byte(v)),
        to_byte(from_byte(v)) == v,
{
    let f = from_byte(v);
    assert(255 * f >= v * ONE && 255 * f < v * ONE + 255) by (nonlinear_arith)
        requires f == (v * ONE + 254) / 255, 0 <= v;
    assert(0 <= f <= ONE) by (nonlinear_arith)
        requires 255 * f >= v * ONE, 255 * f < v * ONE + 255, 0 <= v < 256;
    assert(f * 255 / ONE as int == v) by (nonlinear_arith)
        requires 255 * f >= v * ONE, 255 * f < v * ONE + 255;
}

fn byte_value(v: u32) -> (r: i64)
    requires
        v < 256,
    ensures
        r == from_byte(v as int),
        unit_ok(r as int),
{
    let r: i64 = ((v as i64) * ONE + 254) / 255;
    proof {
        assert(0 <= ((v as int) * ONE + 254) / 255 <= ONE) by (nonlinear_arith)
            requires 0 <= v < 256;
    }
    r
}

fn channel_byte(c: i64) -> (r: u8)
    requires
        unit_ok(c as int),
    ensures
        r == to_byte(c as int),
{
    proof {
        assert(0 <= (c as int) * 255 / ONE as int <= 255) by (nonlinear_arith)
            requires 0 <= c <= ONE;
    }
    (c * 255 / ONE) as u8
}

/// The intensity of light at a point; each channel is a non-negative fixed-point value.
#[derive(Debug, Clone, Copy, PartialEq, Eq, Structural)]
pub struct Intensity {
    pub r: i64,
    pub g: i64,
    pub b: i64,
}

/// Whether `c` is a channel of an intensity.
pub open spec fn intensity_ok(c: int) -> bool {
    0 <= c <= INTENSITY_MAX
}

impl Intensity {
    pub open spec fn wf(self) -> bool {
        intensity_ok(self.r as int) && intensity_ok(self.g as int) && intensity_ok(self.b as int)
    }

    pub fn new(r: i64, g: i64, b: i64) -> (i: Intensity)
        ensures
            i == (Intensity { r, g, b }),
    {
        Intensity { r, g, b }
    }

    /// Channel-wise sum.
    pub fn add(self, other: Intensity) -> (i: Intensity)
        requires
            intensity_ok(self.r + other.r),
            intensity_ok(self.g + other.g),
            intensity_ok(self.b + other.b),
        ensures
            i == (Intensity {
                r: (self.r + other.r) as i64,
                g: (self.g + other.g) as i64,
                b: (self.b + other.b) as i64,
            }),
            i.wf(),
    {
        Intensity { r: self.r + other.r, g: self.g + other.g, b: self.b + other.b }
    }

    /// Channel-wise product with a colour, rounded down.
    pub fn mul_colour(self, colour: Colour) -> (i: Intensity)
        requires
            self.wf(),
            colour.wf(),
        ensures
            i.r == self.r * colour.r / ONE as int,
            i.g == self.g * colour.g / ONE as int,
            i.b == self.b * colour.b / ONE as int,
            i.wf(),
            i.r <= self.r && i.g <= self.g && i.b <= self.b,
    {
        Intensity {
            r: scale_channel(self.r, colour.r),
            g: scale_channel(self.g, colour.g),
            b: scale_channel(self.b, colour.b),
        }
    }

    /// Every channel scaled by the non-negative fixed-point factor `k`, rounded down.
    pub fn mul(self, k: i64) -> (i: Intensity)
        requires
            self.wf(),
            0 <= k <= 4 * ONE,
        ensures
            i.r == self.r * k / ONE as int,
            i.g == self.g * k / ONE as int,
            i.b == self.b * k / ONE as int,
            0 <= i.r <= 4 * self.r,
            0 <= i.g <= 4 * self.g,
            0 <= i.b <= 4 * self.b,
    {
        Intensity { r: scale_channel(self.r, k), g: scale_channel(self.g, k), b: scale_channel(self.b, k) }
    }
}

fn scale_channel(c: i64, k: i64) -> (r: i64)
    requires
        intensity_ok(c as int),
        0 <= k <= 4 * ONE,
    ensures
        r == c * k / ONE as int,
        0 <= r <= c * k / ONE as int,
        0 <= r <= 4 * c,
        k <= ONE ==> r <= c,
{
    proof {
        assert(0 <= (c as int) * (k as int) <= INTENSITY_MAX * 4 * ONE) by (nonlinear_arith)
            requires 0 <= c <= INTENSITY_MAX, 0 <= k <= 4 * ONE;
        assert(0 <= (c as int) * (k as int) / ONE as int <= 4 * c) by (nonlinear_arith)
            requires 0 <= c, 0 <= k <= 4 * ONE;
        if k <= ONE {
            assert((c as int) * (k as int) / ONE as int <= c) by (nonlinear_arith)
                requires 0 <= c, 0 <= k <= ONE;
        }
    }
    floor_div(c * k, ONE)
}

} // verus!
