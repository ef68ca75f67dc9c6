//! Light sources.
use vstd::prelude::*;

use crate::colour::Intensity;
use crate::ray::is_point;
use crate::vec3::{DegenerateVector, Vec3};

verus! {

/// Largest channel of a light's intensity (65536.0).
pub const LIGHT_MAX: i64 = 0x1_0000_0000;

/// Whether every channel of `i` is between 0 and `LIGHT_MAX`.
pub open spec fn light_intensity_ok(i: Intensity) -> bool {
    0 <= i.r <= LIGHT_MAX && 0 <= i.g <= LIGHT_MAX && 0 <= i.b <= LIGHT_MAX
}

#[derive(Debug, Clone, Copy, PartialEq, Eq, Structural)]
pub enum Light {
    /// A light at a point, shining in every direction.
    Point { loc: Vec3, intensity: Intensity },
    /// A light infinitely far away, shining along `dir`.
    Distant { dir: Vec3, intensity: Intensity },
}

impl Light {
    pub open spec fn wf(self) -> bool {
        match self {
            Light::Point { loc, intensity } => is_point(loc) && light_intensity_ok(intensity),
            Light::Distant { dir, intensity } => {
                &&& dir.in_range()
                &&& !(dir.x == 0 && dir.y == 0 && dir.z == 0)
                &&& light_intensity_ok(intensity)
            },
        }
    }

    /// The distance from the light to `p`; `None` stands for infinitely far.
    pub open spec fn dist_spec(self, p: Vec3) -> Option<int> {
        match self {
            Light::Point { loc, .. } => Some(
                Vec3 {
                    x: (loc.x - p.x) as i64,
                    y: (loc.y - p.y) as i64,
                    z: (loc.z - p.z) as i64,
                }.mag_spec(),
            ),
            Light::Distant { .. } => None,
        }
    }

    /// The direction in which the light falls on `p`, from the light toward the point.
    pub open spec fn dir_spec(self, p: Vec3) -> Vec3 {
        match self {
            Light::Point { loc, .. } => Vec3 {
                x: (p.x - loc.x) as i64,
                y: (p.y - loc.y) as i64,
                z: (p.z - loc.z) as i64,
            },
            Light::Distant { dir, .. } => dir,
        }
    }

    pub open spec fn intensity_spec(self) -> Intensity {
        match self {
            Light::Point { intensity, .. } => intensity,
            Light::Distant { intensity, .. } => intensity,
        }
    }

    /// A distant light shining along `dir`, normalised; a zero direction is refused.
    pub fn distant(dir: Vec3, intensity: Intensity) -> (r: Result<Light, DegenerateVector>)
        requires
            dir.in_range(),
            light_intensity_ok(intensity),
        ensures
            r is Err <==> (dir.x == 0 && dir.y == 0 && dir.z == 0),
            r matches Ok(l) ==> l == (Light::Distant { dir: dir.unit(), intensity }) && l.wf(),
    {
        match dir.normalised() {
            Ok(d) => {
                proof {
                    assert(!(d.x == 0 && d.y == 0 && d.z == 0)) by {
                        if d.x == 0 && d.y == 0 && d.z == 0 {
                            crate::vec3::lemma_unit_length(dir);
                        }
                    }
                }
                Ok(Light::Distant { dir: d, intensity })
            },
            Err(e) => Err(e),
        }
    }

    /// The distance from the light to `loc`, or `None` for a distant light.
    pub fn distance(&self, loc: &Vec3) -> (r: Option<i64>)
        requires
            self.wf(),
            is_point(*loc),
        ensures
            r matches Some(d) ==> d >= 0,
            crate::ray::as_hit(r) == self.dist_spec(*loc),
    {
        match self {
            Light::Point { loc: light_loc, .. } => Some(light_loc.sub(*loc).mag()),
            Light::Distant { .. } => None,
        }
    }

    /// The direction of the light falling on the point, oriented from the light to the point.
    pub fn direction(&self, point: &Vec3) -> (r: Vec3)
        requires
            self.wf(),
            is_point(*point),
        ensures
            r == self.dir_spec(*point),
            r.in_range(),
    {
        match self {
            Light::Point { loc, .. } => point.sub(*loc),
            Light::Distant { dir, .. } => *dir,
        }
    }

    pub fn intensity(&self) -> (r: Intensity)
        ensures
            r == self.intensity_spec(),
    {
        match self {
            Light::Point { intensity, .. } => *intensity,
            Light::Distant { intensity, .. } => *intensity,
        }
    }
}

} // verus!
