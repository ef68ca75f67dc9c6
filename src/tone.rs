//! Tone mapping: the scene-wide linear rescaling of intensities into colours.
use vstd::prelude::*;

use crate::colour::{Colour, Intensity, INTENSITY_MAX};
use crate::scalar::ONE;

verus! {

/// The largest channel of an intensity.
pub open spec fn max_channel(i: Intensity) -> int {
    let rg = if i.r >= i.g { i.r as int } else { i.g as int };
    if rg >= i.b { rg } else { i.b as int }
}

/// The largest channel over the first `n` intensities, or 0 where there are none.
pub open spec fn max_upto(s: Seq<Intensity>, n: int) -> int
    decreases n,
{
    if n <= 0 {
        0
    } else {
        let prev = max_upto(s, n - 1);
        let m = max_channel(s[n - 1]);
        if m > prev { m } else { prev }
    }
}

/// One channel rescaled by the frame's maximum; all black where the maximum is 0.
pub open spec fn tone(c: int, max: int) -> int {
    if max == 0 {
        0
    } else {
        c * ONE / max
    }
}

/// An intensity rescaled into a colour by the frame's maximum.
pub open spec fn normalise_spec(i: Intensity, max: int) -> Colour {
    Colour { r: tone(i.r as int, max) as i64, g: tone(i.g as int, max) as i64, b: tone(i.b as int, max) as i64 }
}

/// The maximum is at least every channel of every intensity, and is 0 or one of them.
pub proof fn lemma_max_upto(s: Seq<Intensity>, n: int)
    requires
        0 <= n <= s.len(),
        forall|i: int| 0 <= i < s.len() ==> (#[trigger] s[i]).wf(),
    ensures
        0 <= max_upto(s, n) <= INTENSITY_MAX,
        forall|i: int| 0 <= i < n ==> max_channel(#[trigger] s[i]) <= max_upto(s, n),
        max_upto(s, n) == 0 || exists|i: int| 0 <= i < n && max_channel(#[trigger] s[i]) == max_upto(s, n),
    decreases n,
{
    if n > 0 {
        lemma_max_upto(s, n - 1);
    }
}

/// Rescales one intensity by the frame's maximum channel.
pub fn normalise_colour(intensity: Intensity, max_intensity: i64) -> (c: Colour)
    requires
        intensity.wf(),
        max_channel(intensity) <= max_intensity <= INTENSITY_MAX,
    ensures
        c == normalise_spec(intensity, max_intensity as int),
        c.wf(),
{
    if max_intensity == 0 {
        return Colour::new(0, 0, 0);
    }
    Colour::new(
        rescale(intensity.r, max_intensity),
        rescale(intensity.g, max_intensity),
        rescale(intensity.b, max_intensity),
    )
}

fn rescale(c: i64, max: i64) -> (r: i64)
    requires
        0 <= c <= max <= INTENSITY_MAX,
        max > 0,
    ensures
        r == c * ONE / max as int,
        0 <= r <= ONE,
{
    proof {
        assert(0 <= (c as int) * ONE <= INTENSITY_MAX * ONE) by (nonlinear_arith)
            requires 0 <= c <= INTENSITY_MAX;
        assert(0 <= (c as int) * ONE / (max as int) <= ONE) by (nonlinear_arith)
            requires 0 <= c <= max, max > 0;
    }
    c * ONE / max
}

/// Converts a frame of intensities to colours: every channel is divided by the
/// largest channel of the whole frame, and a frame whose largest channel is 0
/// becomes all black.
pub fn normalise_intensity(intensities: Vec<Intensity>) -> (r: Vec<Colour>)
    requires
        forall|i: int| 0 <= i < intensities@.len() ==> (#[trigger] intensities@[i]).wf(),
    ensures
        r@.len() == intensities@.len(),
        forall|i: int| 0 <= i < r@.len() ==> #[trigger] r@[i] == normalise_spec(
            intensities@[i],
            max_upto(intensities@, intensities@.len() as int),
        ),
        forall|i: int| 0 <= i < r@.len() ==> (#[trigger] r@[i]).wf(),
{
    let mut max_intensity: i64 = 0;
    let mut k: usize = 0;
    while k < intensities.len()
        invariant
            k <= intensities@.len(),
            forall|i: int| 0 <= i < intensities@.len() ==> (#[trigger] intensities@[i]).wf(),
            max_intensity == max_upto(intensities@, k as int),
        decreases intensities@.len() - k,
    {
        let intensity = intensities[k];
        if intensity.r > max_intensity {
            max_intensity = intensity.r;
        }
        if intensity.g > max_intensity {
            max_intensity = intensity.g;
        }
        if intensity.b > max_intensity {
            max_intensity = intensity.b;
        }
        k = k + 1;
    }
    proof {
        lemma_max_upto(intensities@, intensities@.len() as int);
    }
    let mut colours: Vec<Colour> = Vec::new();
    let mut j: usize = 0;
    while j < intensities.len()
        invariant
            j <= intensities@.len(),
            colours@.len() == j,
            forall|i: int| 0 <= i < intensities@.len() ==> (#[trigger] intensities@[i]).wf(),
            max_intensity == max_upto(intensities@, intensities@.len() as int),
            0 <= max_intensity <= INTENSITY_MAX,
            forall|i: int| 0 <= i < intensities@.len() ==> max_channel(#[trigger] intensities@[i]) <= max_intensity,
            forall|i: int| 0 <= i < j ==> #[trigger] colours@[i] == normalise_spec(intensities@[i], max_intensity as int),
            forall|i: int| 0 <= i < j ==> (#[trigger] colours@[i]).wf(),
        decreases intensities@.len() - j,
    {
        let c = normalise_colour(intensities[j], max_intensity);
        colours.push(c);
        j = j + 1;
    }
    colours
}

} // verus!
