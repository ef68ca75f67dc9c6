//! Rays: a source point and a direction of length 1.0.
use vstd::prelude::*;

use crate::scalar::{coord_ok, floor_div, ONE};
use crate::vec3::{DegenerateVector, Vec3};

verus! {

/// Largest distance along a ray at which a point can be computed; every
/// intersection of a surface in range with a ray from a point in range is nearer.
pub const MAX_DIST: i64 = 0x400_0000_0000;

/// The point a computation needs lies outside the coordinate range.
#[derive(Debug, Clone, Copy, PartialEq, Eq, Structural)]
pub struct OutOfRange;

/// Whether each coordinate of `v` lies within the scene's coordinate range.
pub open spec fn is_point(v: Vec3) -> bool {
    coord_ok(v.x as int) && coord_ok(v.y as int) && coord_ok(v.z as int)
}

/// The coordinate reached from `s` after distance `t` along a direction with component `d`.
pub open spec fn along(s: int, d: int, t: int) -> int {
    s + d * t / ONE as int
}

/// A distance as returned by an intersection, read as an integer.
pub open spec fn as_hit(r: Option<i64>) -> Option<int> {
    match r {
        Some(t) => Some(t as int),
        None => None,
    }
}

#[derive(Debug, Clone, Copy, PartialEq, Eq, Structural)]
pub struct Ray {
    pub source: Vec3,
    pub dir: Vec3,
}

impl Ray {
    pub open spec fn wf(self) -> bool {
        is_point(self.source) && self.dir.is_unit_bounded()
    }

    /// Whether the point at distance `t` lies within the coordinate range.
    pub open spec fn lands(self, t: int) -> bool {
        &&& coord_ok(along(self.source.x as int, self.dir.x as int, t))
        &&& coord_ok(along(self.source.y as int, self.dir.y as int, t))
        &&& coord_ok(along(self.source.z as int, self.dir.z as int, t))
    }

    /// The point at distance `t` along the ray.
    pub open spec fn at(self, t: int) -> Vec3 {
        Vec3 {
            x: along(self.source.x as int, self.dir.x as int, t) as i64,
            y: along(self.source.y as int, self.dir.y as int, t) as i64,
            z: along(self.source.z as int, self.dir.z as int, t) as i64,
        }
    }

    /// A ray from `source` along `dir`, normalised.
    pub fn new(source: Vec3, dir: Vec3) -> (r: Result<Ray, DegenerateVector>)
        requires
            is_point(source),
            dir.in_range(),
        ensures
            r is Err <==> (dir.x == 0 && dir.y == 0 && dir.z == 0),
            r matches Ok(ray) ==> ray.source == source && ray.dir == dir.unit() && ray.wf(),
    {
        match dir.normalised() {
            Ok(d) => Ok(Ray { source, dir: d }),
            Err(e) => Err(e),
        }
    }

    /// The point at distance `t` along the ray, wherever it lies.
    pub fn point_along(&self, t: i64) -> (p: Vec3)
        requires
            self.wf(),
            0 <= t <= MAX_DIST,
        ensures
            p == self.at(t as int),
    {
        Vec3 {
            x: along_exec(self.source.x, self.dir.x, t),
            y: along_exec(self.source.y, self.dir.y, t),
            z: along_exec(self.source.z, self.dir.z, t),
        }
    }

    /// The point at distance `t` along the ray, or `None` where it leaves the coordinate range.
    pub fn point_at(&self, t: i64) -> (p: Option<Vec3>)
        requires
            self.wf(),
            0 <= t <= MAX_DIST,
        ensures
            p is Some <==> self.lands(t as int),
            p matches Some(q) ==> q == self.at(t as int) && is_point(q),
    {
        let x: i64 = along_exec(self.source.x, self.dir.x, t);
        let y: i64 = along_exec(self.source.y, self.dir.y, t);
        let z: i64 = along_exec(self.source.z, self.dir.z, t);
        if in_coord_range(x) && in_coord_range(y) && in_coord_range(z) {
            Some(Vec3 { x, y, z })
        } else {
            None
        }
    }
}

/// Whether `c` is within the coordinate range.
pub fn in_coord_range(c: i64) -> (b: bool)
    ensures
        b == coord_ok(c as int),
{
    -crate::scalar::COORD_MAX <= c && c <= crate::scalar::COORD_MAX
}

fn along_exec(s: i64, d: i64, t: i64) -> (r: i64)
    requires
        coord_ok(s as int),
        -ONE <= d <= ONE,
        0 <= t <= MAX_DIST,
    ensures
        r == along(s as int, d as int, t as int),
{
    proof {
        assert(-0x400_0000_0000_0000 <= (d as int) * (t as int) <= 0x400_0000_0000_0000) by (nonlinear_arith)
            requires -ONE <= d <= ONE, 0 <= t <= MAX_DIST;
        assert(-0x400_0000_0000 - 1 <= (d as int) * (t as int) / ONE as int <= 0x400_0000_0000) by (nonlinear_arith)
            requires -0x400_0000_0000_0000 <= (d as int) * (t as int) <= 0x400_0000_0000_0000;
    }
    s + floor_div(d * t, ONE)
}

} // verus!
