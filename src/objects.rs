//! The surfaces a scene is made of, and where rays meet them.
use vstd::prelude::*;

use crate::colour::Colour;
use crate::ray::{as_hit, is_point, Ray, MAX_DIST};
use crate::scalar::{coord_ok, floor_div, isqrt, sqrt_floor, COORD_MAX, ONE};
use crate::vec3::{DegenerateVector, Vec3};

verus! {

/// Smallest value of `dot(direction, normal)` at which a ray can meet a plane.
pub const PLANE_EPS: i64 = 1;

/// A surface whose measurements are out of range or inverted.
#[derive(Debug, Clone, Copy, PartialEq, Eq, Structural)]
pub struct MalformedGeometry;

#[derive(Debug, Clone, Copy, PartialEq, Eq, Structural)]
pub struct Sphere {
    pub centre: Vec3,
    pub radius: i64,
    pub colour: Colour,
}

/// A finite plane at height `y` with edges parallel to the X and Z axes.
#[derive(Debug, Clone, Copy, PartialEq, Eq, Structural)]
pub struct XzPlane {
    pub y: i64,
    pub x_min: i64,
    pub x_max: i64,
    pub z_min: i64,
    pub z_max: i64,
    pub colour: Colour,
}

/// Of two roots `t0 <= t1`, the one a ray meets first: the smaller non-negative one.
pub open spec fn nearer_root(t0: int, t1: int) -> Option<int> {
    if t0 < 0 && t1 < 0 {
        None
    } else if t0 < 0 {
        Some(t1)
    } else if t1 < 0 {
        Some(t0)
    } else if t0 <= t1 {
        Some(t0)
    } else {
        Some(t1)
    }
}

impl Sphere {
    pub open spec fn wf(self) -> bool {
        is_point(self.centre) && 0 < self.radius <= COORD_MAX && self.colour.wf()
    }

    /// The vector from the ray's source to the centre.
    pub open spec fn to_centre(self, ray: Ray) -> Vec3 {
        Vec3 {
            x: (self.centre.x - ray.source.x) as i64,
            y: (self.centre.y - ray.source.y) as i64,
            z: (self.centre.z - ray.source.z) as i64,
        }
    }

    /// Distance along the ray to the centre's projection on it.
    pub open spec fn tca(self, ray: Ray) -> int {
        self.to_centre(ray).dot_spec(ray.dir)
    }

    /// Squared distance from the centre to the ray's line, scaled by `ONE * ONE`.
    pub open spec fn d2(self, ray: Ray) -> int {
        self.to_centre(ray).sq_len() - self.tca(ray) * self.tca(ray)
    }

    /// Where the ray first meets the sphere.
    pub open spec fn hit(self, ray: Ray) -> Option<int> {
        let tca = self.tca(ray);
        let d2 = self.d2(ray);
        let r2 = self.radius * self.radius;
        if tca < 0 {
            None
        } else if d2 > r2 {
            None
        } else {
            let thc = sqrt_floor(r2 - d2);
            nearer_root(tca - thc, tca + thc)
        }
    }

    /// A sphere, refused where the centre is out of range or the radius not positive.
    pub fn new(centre: Vec3, radius: i64, colour: Colour) -> (r: Result<Sphere, MalformedGeometry>)
        requires
            colour.wf(),
        ensures
            r is Ok <==> (is_point(centre) && 0 < radius <= COORD_MAX),
            r matches Ok(s) ==> s == (Sphere { centre, radius, colour }) && s.wf(),
    {
        if crate::ray::in_coord_range(centre.x) && crate::ray::in_coord_range(centre.y)
            && crate::ray::in_coord_range(centre.z) && 0 < radius && radius <= COORD_MAX {
            Ok(Sphere { centre, radius, colour })
        } else {
            Err(MalformedGeometry)
        }
    }

    /// The distance along the ray to where it first meets the sphere.
    pub fn intersect(&self, ray: &Ray) -> (r: Option<i64>)
        requires
            self.wf(),
            ray.wf(),
        ensures
            as_hit(r) == self.hit(*ray),
            r matches Some(t) ==> 0 <= t <= MAX_DIST,
            self.tca(*ray) < 0 ==> r is None,
            self.d2(*ray) > self.radius * self.radius ==> r is None,
    {
        let l = self.centre.sub(ray.source);
        let tca: i64 = l.dot(&ray.dir);
        if tca < 0 {
            return None;
        }
        proof {
            assert(-0x10_0000_0000_0000 <= l.x * l.x <= 0x10_0000_0000_0000) by (nonlinear_arith)
                requires -0x200_0000 <= l.x <= 0x200_0000;
            assert(-0x10_0000_0000_0000 <= l.y * l.y <= 0x10_0000_0000_0000) by (nonlinear_arith)
                requires -0x200_0000 <= l.y <= 0x200_0000;
            assert(-0x10_0000_0000_0000 <= l.z * l.z <= 0x10_0000_0000_0000) by (nonlinear_arith)
                requires -0x200_0000 <= l.z <= 0x200_0000;
            lemma_tca_bound(l, ray.dir);
            assert(tca * tca <= 0x100_0000_0000_0000) by (nonlinear_arith)
                requires 0 <= tca <= 0x1000_0000;
        }
        let d2: i64 = l.x * l.x + l.y * l.y + l.z * l.z - tca * tca;
        proof {
            assert(0 < self.radius * self.radius <= 0x1_0000_0000_0000) by (nonlinear_arith)
                requires 0 < self.radius <= COORD_MAX;
            assert(0 <= l.x * l.x + l.y * l.y + l.z * l.z) by (nonlinear_arith);
        }
        let r2: i64 = self.radius * self.radius;
        if d2 > r2 {
            return None;
        }
        let m: u128 = isqrt((r2 - d2) as u128);
        proof {
            assert(m <= 0x2000_0000) by (nonlinear_arith)
                requires m * m <= r2 - d2, r2 - d2 <= 0x200_0000_0000_0000, m >= 0;
        }
        let thc: i64 = m as i64;
        let t0: i64 = tca - thc;
        let t1: i64 = tca + thc;
        let t: i64 = if t0 < 0 && t1 < 0 {
            return None;
        } else if t0 < 0 {
            t1
        } else if t1 < 0 {
            t0
        } else if t0 <= t1 {
            t0
        } else {
            t1
        };
        Some(t)
    }

    /// The outward normal at `point`, which fails only at the centre.
    pub fn surface_normal(&self, point: &Vec3) -> (r: Result<Vec3, DegenerateVector>)
        requires
            self.wf(),
            is_point(*point),
        ensures
            r == self.normal_at(*point),
            r matches Ok(n) ==> n.is_unit_bounded(),
    {
        let v = point.sub(self.centre);
        match v.normalised() {
            Ok(u) => Ok(u),
            Err(_) => Err(DegenerateVector),
        }
    }

    pub open spec fn normal_at(self, point: Vec3) -> Result<Vec3, DegenerateVector> {
        let v = Vec3 {
            x: (point.x - self.centre.x) as i64,
            y: (point.y - self.centre.y) as i64,
            z: (point.z - self.centre.z) as i64,
        };
        if v.x == 0 && v.y == 0 && v.z == 0 {
            Err(DegenerateVector)
        } else {
            Ok(v.unit())
        }
    }
}

impl XzPlane {
    pub open spec fn wf(self) -> bool {
        &&& coord_ok(self.y as int)
        &&& coord_ok(self.x_min as int) && coord_ok(self.x_max as int)
        &&& coord_ok(self.z_min as int) && coord_ok(self.z_max as int)
        &&& self.x_min <= self.x_max && self.z_min <= self.z_max
        &&& self.colour.wf()
    }

    /// A point on the plane: its corner of least X and Z.
    pub open spec fn p0(self) -> Vec3 {
        Vec3 { x: self.x_min, y: self.y, z: self.z_min }
    }

    /// The plane's unit normal, pointing up the Y axis.
    pub open spec fn normal() -> Vec3 {
        Vec3 { x: 0, y: ONE, z: 0 }
    }

    /// Whether the point lies within the plane's X and Z bounds.
    pub open spec fn contains(self, p: Vec3) -> bool {
        self.x_min <= p.x <= self.x_max && self.z_min <= p.z <= self.z_max
    }

    /// Distance along the ray to the plane, before any range or bounds test.
    pub open spec fn plane_t(self, ray: Ray) -> int {
        let p0 = self.p0();
        let to_p0 = Vec3 {
            x: (p0.x - ray.source.x) as i64,
            y: (p0.y - ray.source.y) as i64,
            z: (p0.z - ray.source.z) as i64,
        };
        to_p0.dot_spec(Self::normal()) * ONE / ray.dir.dot_spec(Self::normal())
    }

    /// Where the ray meets the bounded plane: never when it runs parallel to it or
    /// along the normal's opposite.
    pub open spec fn hit(self, ray: Ray) -> Option<int> {
        let denominator = ray.dir.dot_spec(Self::normal());
        if denominator < PLANE_EPS {
            None
        } else {
            let t = self.plane_t(ray);
            if t < 0 {
                None
            } else if self.contains(ray.at(t)) {
                Some(t)
            } else {
                None
            }
        }
    }

    /// A plane, refused where a measurement is out of range or a bound is inverted.
    pub fn new(y: i64, x_min: i64, x_max: i64, z_min: i64, z_max: i64, colour: Colour) -> (r: Result<XzPlane, MalformedGeometry>)
        requires
            colour.wf(),
        ensures
            r is Ok <==> {
                &&& coord_ok(y as int)
                &&& coord_ok(x_min as int) && coord_ok(x_max as int)
                &&& coord_ok(z_min as int) && coord_ok(z_max as int)
                &&& x_min <= x_max && z_min <= z_max
            },
            r matches Ok(p) ==> p == (XzPlane { y, x_min, x_max, z_min, z_max, colour }) && p.wf(),
    {
        if crate::ray::in_coord_range(y) && crate::ray::in_coord_range(x_min)
            && crate::ray::in_coord_range(x_max) && crate::ray::in_coord_range(z_min)
            && crate::ray::in_coord_range(z_max) && x_min <= x_max && z_min <= z_max {
            Ok(XzPlane { y, x_min, x_max, z_min, z_max, colour })
        } else {
            Err(MalformedGeometry)
        }
    }

    /// Whether the point lies within the plane's X and Z bounds.
    pub fn in_bounds(&self, pt: Vec3) -> (b: bool)
        ensures
            b == self.contains(pt),
    {
        pt.x >= self.x_min && pt.x <= self.x_max && pt.z >= self.z_min && pt.z <= self.z_max
    }

    /// The distance along the ray to where it meets the plane within its bounds.
    pub fn intersect(&self, ray: &Ray) -> (r: Option<i64>)
        requires
            self.wf(),
            ray.wf(),
        ensures
            as_hit(r) == self.hit(*ray),
            r matches Some(t) ==> 0 <= t <= MAX_DIST,
    {
        let normal = Vec3::new(0, ONE, 0);
        let denominator: i64 = ray.dir.dot(&normal);
        if denominator < PLANE_EPS {
            return None;
        }
        let p0 = Vec3::new(self.x_min, self.y, self.z_min);
        let to_p0 = p0.sub(ray.source);
        let num: i64 = to_p0.dot(&normal);
        proof {
            lemma_dot_normal(to_p0);
        }
        proof {
            assert(-0x200_0000_0000 <= num * ONE <= 0x200_0000_0000) by (nonlinear_arith)
                requires -0x200_0000 <= num <= 0x200_0000;
            assert((num * ONE) / (denominator as int) <= 0x200_0000_0000) by (nonlinear_arith)
                requires num * ONE <= 0x200_0000_0000, denominator >= 1;
        }
        let t: i64 = floor_div(num * ONE, denominator);
        if t < 0 {
            return None;
        }
        if self.in_bounds(ray.point_along(t)) { Some(t) } else { None }
    }
}

/// Against the vertical unit normal, the dot product picks out the Y component.
proof fn lemma_dot_normal(v: Vec3)
    ensures
        v.dot_spec(XzPlane::normal()) == v.y,
{
    assert(v.dot_raw(XzPlane::normal()) == v.y * ONE);
    vstd::arithmetic::div_mod::lemma_div_multiples_vanish(v.y as int, ONE as int);
}

/// A surface of a scene.
#[derive(Debug, Clone, Copy, PartialEq, Eq, Structural)]
pub enum SceneObject {
    Sphere(Sphere),
    Plane(XzPlane),
}

impl SceneObject {
    pub open spec fn wf(self) -> bool {
        match self {
            SceneObject::Sphere(s) => s.wf(),
            SceneObject::Plane(p) => p.wf(),
        }
    }

    /// Where the ray first meets the surface, as a distance along it.
    pub open spec fn hit(self, ray: Ray) -> Option<int> {
        match self {
            SceneObject::Sphere(s) => s.hit(ray),
            SceneObject::Plane(p) => p.hit(ray),
        }
    }

    pub open spec fn normal_at(self, point: Vec3) -> Result<Vec3, DegenerateVector> {
        match self {
            SceneObject::Sphere(s) => s.normal_at(point),
            SceneObject::Plane(_) => Ok(XzPlane::normal()),
        }
    }

    pub open spec fn colour_spec(self) -> Colour {
        match self {
            SceneObject::Sphere(s) => s.colour,
            SceneObject::Plane(p) => p.colour,
        }
    }

    /// The distance along the ray to where it first meets the surface.
    pub fn intersect(&self, ray: &Ray) -> (r: Option<i64>)
        requires
            self.wf(),
            ray.wf(),
        ensures
            as_hit(r) == self.hit(*ray),
            r matches Some(t) ==> 0 <= t <= MAX_DIST,
    {
        match self {
            SceneObject::Sphere(s) => s.intersect(ray),
            SceneObject::Plane(p) => p.intersect(ray),
        }
    }

    /// The unit normal of the surface at `point`.
    pub fn surface_normal(&self, point: &Vec3) -> (r: Result<Vec3, DegenerateVector>)
        requires
            self.wf(),
            is_point(*point),
        ensures
            r == self.normal_at(*point),
            r matches Ok(n) ==> n.is_unit_bounded(),
    {
        match self {
            SceneObject::Sphere(s) => s.surface_normal(point),
            SceneObject::Plane(_) => Ok(Vec3::new(0, ONE, 0)),
        }
    }

    /// The colour of the surface at `point`; each surface has a single colour.
    pub fn colour(&self, point: &Vec3) -> (c: Colour)
        requires
            self.wf(),
        ensures
            c == self.colour_spec(),
            c.wf(),
    {
        match self {
            SceneObject::Sphere(s) => s.colour,
            SceneObject::Plane(p) => p.colour,
        }
    }
}

proof fn lemma_tca_bound(l: Vec3, d: Vec3)
    requires
        -0x200_0000 <= l.x <= 0x200_0000,
        -0x200_0000 <= l.y <= 0x200_0000,
        -0x200_0000 <= l.z <= 0x200_0000,
        d.is_unit_bounded(),
    ensures
        l.dot_spec(d) <= 0x1000_0000,
{
    assert(l.x * d.x <= 0x200_0000 * ONE) by (nonlinear_arith)
        requires -0x200_0000 <= l.x <= 0x200_0000, -ONE <= d.x <= ONE;
    assert(l.y * d.y <= 0x200_0000 * ONE) by (nonlinear_arith)
        requires -0x200_0000 <= l.y <= 0x200_0000, -ONE <= d.y <= ONE;
    assert(l.z * d.z <= 0x200_0000 * ONE) by (nonlinear_arith)
        requires -0x200_0000 <= l.z <= 0x200_0000, -ONE <= d.z <= ONE;
    assert(l.dot_raw(d) / ONE as int <= 0x1000_0000) by (nonlinear_arith)
        requires l.dot_raw(d) <= 3 * 0x200_0000 * ONE;
}

} // verus!
