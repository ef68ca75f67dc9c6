//! Scenes, and tracing a ray through one: nearest hit, shadows and shading.
use vstd::prelude::*;

use crate::colour::{Colour, Intensity, INTENSITY_MAX};
use crate::light::{Light, LIGHT_MAX};
use crate::objects::SceneObject;
use crate::ray::{is_point, OutOfRange, Ray, MAX_DIST};
use crate::scalar::ONE;
use crate::vec3::Vec3;

verus! {

/// Most lights a scene may hold, so that the sum of their light stays in range.
pub const MAX_LIGHTS: usize = 1024;

/// Surfaces and lights, and the colour seen where a ray meets no surface.
pub struct Scene {
    pub objects: Vec<SceneObject>,
    pub lights: Vec<Light>,
    pub background: Colour,
}

/// A light that reaches a point, with the shadow ray from the point toward it.
#[derive(Debug, Clone, Copy, PartialEq, Eq, Structural)]
pub struct RayHit {
    pub ray: Ray,
    pub light: Light,
}

impl Scene {
    pub open spec fn wf(&self) -> bool {
        &&& forall|i: int| 0 <= i < self.objects@.len() ==> (#[trigger] self.objects@[i]).wf()
        &&& forall|i: int| 0 <= i < self.lights@.len() ==> (#[trigger] self.lights@[i]).wf()
        &&& self.lights@.len() <= MAX_LIGHTS
        &&& self.background.wf()
    }
}

/// Whether a hit lies strictly in front of the source.
pub open spec fn ahead(h: Option<int>) -> bool {
    match h {
        Some(e) => 0 < e,
        None => false,
    }
}

/// Whether a hit lies strictly in front of the source and strictly nearer than `d`.
pub open spec fn beats(h: Option<int>, d: int) -> bool {
    match h {
        Some(e) => 0 < e && e < d,
        None => false,
    }
}

/// Whether a hit lies strictly in front of the source and no farther than `d`.
pub open spec fn reaches(h: Option<int>, d: int) -> bool {
    match h {
        Some(e) => 0 < e && e <= d,
        None => false,
    }
}

/// The nearest hit in front of the source among the first `n` objects, as
/// (index, distance); on a tie the earlier object wins.
pub open spec fn nearest_upto(objs: Seq<SceneObject>, ray: Ray, n: int) -> Option<(int, int)>
    decreases n,
{
    if n <= 0 {
        None
    } else {
        let prev = nearest_upto(objs, ray, n - 1);
        match objs[n - 1].hit(ray) {
            Some(d) => if d <= 0 {
                prev
            } else {
                match prev {
                    None => Some((n - 1, d)),
                    Some((_, e)) => if d < e { Some((n - 1, d)) } else { prev },
                }
            },
            None => prev,
        }
    }
}

/// The nearest hit is the first object at the least positive distance, and
/// there is none exactly when no object is hit in front of the source.
pub proof fn lemma_nearest(objs: Seq<SceneObject>, ray: Ray, n: int)
    requires
        0 <= n <= objs.len(),
    ensures
        nearest_upto(objs, ray, n) is None <==> (forall|j: int|
            0 <= j < n ==> !ahead(#[trigger] objs[j].hit(ray))),
        nearest_upto(objs, ray, n) matches Some((i, d)) ==> {
            &&& 0 <= i < n
            &&& objs[i].hit(ray) == Some(d)
            &&& d > 0
            &&& forall|j: int| 0 <= j < n ==> !beats(#[trigger] objs[j].hit(ray), d)
            &&& forall|j: int| 0 <= j < i ==> !reaches(#[trigger] objs[j].hit(ray), d)
        },
    decreases n,
{
    if n > 0 {
        lemma_nearest(objs, ray, n - 1);
    }
}

/// The distance along the ray to the nearest object hit in front of its source,
/// with that object's index.
pub fn nearest_hit(ray: &Ray, scene: &Scene) -> (r: Option<(usize, i64)>)
    requires
        ray.wf(),
        scene.wf(),
    ensures
        r matches Some((i, d)) ==> nearest_upto(scene.objects@, *ray, scene.objects@.len() as int)
            == Some((i as int, d as int)),
        r is None ==> nearest_upto(scene.objects@, *ray, scene.objects@.len() as int) is None,
        r is None <==> forall|j: int|
            0 <= j < scene.objects@.len() ==> !ahead(#[trigger] scene.objects@[j].hit(*ray)),
        r matches Some((i, d)) ==> {
            &&& i < scene.objects@.len()
            &&& scene.objects@[i as int].hit(*ray) == Some(d as int)
            &&& 0 < d <= MAX_DIST
            &&& forall|j: int|
                0 <= j < scene.objects@.len() ==> !beats(#[trigger] scene.objects@[j].hit(*ray), d as int)
            &&& forall|j: int| 0 <= j < i ==> !reaches(#[trigger] scene.objects@[j].hit(*ray), d as int)
        },
{
    let mut best: Option<(usize, i64)> = None;
    let mut k: usize = 0;
    while k < scene.objects.len()
        invariant
            k <= scene.objects@.len(),
            ray.wf(),
            scene.wf(),
            best matches Some((i, d)) ==> nearest_upto(scene.objects@, *ray, k as int) == Some(
                (i as int, d as int),
            ),
            best is None ==> nearest_upto(scene.objects@, *ray, k as int) is None,
            best matches Some((_, d)) ==> d <= MAX_DIST,
        decreases scene.objects@.len() - k,
    {
        let object = &scene.objects[k];
        if let Some(distance) = object.intersect(ray) {
            if distance > 0 {
                match best {
                    Some((_, min_distance)) => {
                        if distance < min_distance {
                            best = Some((k, distance));
                        }
                    },
                    None => {
                        best = Some((k, distance));
                    },
                }
            }
        }
        k = k + 1;
    }
    proof {
        lemma_nearest(scene.objects@, *ray, scene.objects@.len() as int);
    }
    best
}

/// The shadow ray from `point` back toward the light, or `None` where the light
/// sits at the point itself and gives no direction.
pub open spec fn shadow_ray_spec(light: Light, point: Vec3) -> Option<Ray> {
    let d = light.dir_spec(point);
    let back = Vec3 { x: -d.x as i64, y: -d.y as i64, z: -d.z as i64 };
    if d.x == 0 && d.y == 0 && d.z == 0 {
        None
    } else {
        Some(Ray { source: point, dir: back.unit() })
    }
}

/// Whether a hit at distance `d` lies nearer than a light at `light_dist` (`None`: infinitely far).
pub open spec fn nearer_than(d: int, light_dist: Option<int>) -> bool {
    match light_dist {
        Some(l) => d < l,
        None => true,
    }
}

/// Whether the object stands between the shadow ray's source and the light: the
/// ray meets it strictly in front of the source and nearer than the light is to
/// the source.
///
/// A hit at distance 0 is the shaded point itself and does not shadow it: a
/// surface never occludes the point it is being shaded at, which would otherwise
/// leave every point of a plane in its own shadow. A light behind the surface adds
/// nothing anyway, as its cosine of incidence is clamped at 0.
pub open spec fn blocks(obj: SceneObject, light: Light, ray: Ray) -> bool {
    match obj.hit(ray) {
        Some(d) => 0 < d && nearer_than(d, light.dist_spec(ray.source)),
        None => false,
    }
}

/// Whether some object of the scene stands between the shadow ray's source and the light.
pub open spec fn occluded(objs: Seq<SceneObject>, light: Light, ray: Ray) -> bool {
    exists|j: int| 0 <= j < objs.len() && blocks(#[trigger] objs[j], light, ray)
}

/// The lights among the first `n` that reach `point`, in order, with their shadow rays.
pub open spec fn lit_upto(objs: Seq<SceneObject>, lights: Seq<Light>, point: Vec3, n: int) -> Seq<RayHit>
    decreases n,
{
    if n <= 0 {
        seq![]
    } else {
        let prev = lit_upto(objs, lights, point, n - 1);
        let light = lights[n - 1];
        match shadow_ray_spec(light, point) {
            Some(r) => if occluded(objs, light, r) {
                prev
            } else {
                prev.push(RayHit { ray: r, light })
            },
            None => prev,
        }
    }
}

/// The lights of the scene that reach `point`.
pub open spec fn lit(scene: &Scene, point: Vec3) -> Seq<RayHit> {
    lit_upto(scene.objects@, scene.lights@, point, scene.lights@.len() as int)
}

/// Whether some object stands between the shadow ray's source and the light.
fn is_occluded(scene: &Scene, light: &Light, shadow_ray: &Ray) -> (b: bool)
    requires
        scene.wf(),
        light.wf(),
        shadow_ray.wf(),
    ensures
        b == occluded(scene.objects@, *light, *shadow_ray),
{
    let mut k: usize = 0;
    while k < scene.objects.len()
        invariant
            k <= scene.objects@.len(),
            scene.wf(),
            light.wf(),
            shadow_ray.wf(),
            forall|j: int| 0 <= j < k ==> !blocks(#[trigger] scene.objects@[j], *light, *shadow_ray),
        decreases scene.objects@.len() - k,
    {
        let object = &scene.objects[k];
        if let Some(distance) = object.intersect(shadow_ray) {
            if distance > 0 {
                let nearer = match light.distance(&shadow_ray.source) {
                    Some(l) => distance < l,
                    None => true,
                };
                if nearer {
                    assert(blocks(scene.objects@[k as int], *light, *shadow_ray));
                    return true;
                }
            }
        }
        k = k + 1;
    }
    false
}

/// Returns the shadow rays toward the lights that illuminate the point; empty
/// where the point is in shadow of every light.
pub fn shadow_rays(point: &Vec3, scene: &Scene) -> (r: Vec<RayHit>)
    requires
        is_point(*point),
        scene.wf(),
    ensures
        r@ == lit(scene, *point),
        r@.len() <= scene.lights@.len(),
        forall|i: int| 0 <= i < r@.len() ==> (#[trigger] r@[i]).light.wf() && r@[i].ray.wf(),
{
    let mut rays: Vec<RayHit> = Vec::new();
    let mut k: usize = 0;
    while k < scene.lights.len()
        invariant
            k <= scene.lights@.len(),
            is_point(*point),
            scene.wf(),
            rays@ == lit_upto(scene.objects@, scene.lights@, *point, k as int),
            rays@.len() <= k,
            forall|i: int| 0 <= i < rays@.len() ==> (#[trigger] rays@[i]).light.wf() && rays@[i].ray.wf(),
        decreases scene.lights@.len() - k,
    {
        let light = &scene.lights[k];
        let light_dir = light.direction(point);
        match Ray::new(*point, light_dir.neg()) {
            Ok(shadow_ray) => {
                if !is_occluded(scene, light, &shadow_ray) {
                    rays.push(RayHit { ray: shadow_ray, light: *light });
                }
            },
            Err(_) => {},
        }
        k = k + 1;
    }
    rays
}

/// A light whose shadow ray from `point` meets an object nearer than the light is
/// left out of the lights that reach the point.
pub proof fn lemma_blocked_light_excluded(scene: &Scene, point: Vec3, k: int, j: int)
    requires
        0 <= k < scene.lights@.len(),
        0 <= j < scene.objects@.len(),
        shadow_ray_spec(scene.lights@[k], point) matches Some(r)
            && blocks(scene.objects@[j], scene.lights@[k], r),
    ensures
        lit_upto(scene.objects@, scene.lights@, point, k + 1)
            == lit_upto(scene.objects@, scene.lights@, point, k),
{
    let light = scene.lights@[k];
    let r = shadow_ray_spec(light, point)->Some_0;
    assert(occluded(scene.objects@, light, r));
}

/// A scene without objects shows its background along every ray.
pub proof fn lemma_empty_scene_traces_background(scene: &Scene, ray: Ray)
    requires
        scene.objects@.len() == 0,
    ensures
        trace_spec(scene, ray) == Ok::<Intensity, OutOfRange>(background_intensity(scene.background)),
{
}

/// The light that one reaching source adds at a point with the given normal and
/// surface colour: its intensity, times the colour, times the cosine of the angle
/// of incidence; a light behind the surface adds nothing.
pub open spec fn contribution(h: RayHit, normal: Vec3, colour: Colour) -> Intensity {
    let cos = normal.dot_spec(h.ray.dir);
    let k = if cos < 0 { 0 } else { cos };
    let i = h.light.intensity_spec();
    Intensity {
        r: ((i.r * colour.r / ONE as int) * k / ONE as int) as i64,
        g: ((i.g * colour.g / ONE as int) * k / ONE as int) as i64,
        b: ((i.b * colour.b / ONE as int) * k / ONE as int) as i64,
    }
}

/// The sum of the contributions of the reaching lights `hits`.
pub open spec fn shade_sum(hits: Seq<RayHit>, normal: Vec3, colour: Colour) -> Intensity
    decreases hits.len(),
{
    if hits.len() == 0 {
        Intensity { r: 0, g: 0, b: 0 }
    } else {
        let prev = shade_sum(hits.drop_last(), normal, colour);
        let c = contribution(hits.last(), normal, colour);
        Intensity { r: (prev.r + c.r) as i64, g: (prev.g + c.g) as i64, b: (prev.b + c.b) as i64 }
    }
}

/// The background colour read as an intensity.
pub open spec fn background_intensity(c: Colour) -> Intensity {
    Intensity { r: c.r, g: c.g, b: c.b }
}

/// The intensity of light that arrives along `ray`: the shaded nearest hit, or the
/// background where the ray meets nothing. Shading needs the hit point as the
/// source of its shadow rays, so a hit point outside the coordinate range is an error.
pub open spec fn trace_spec(scene: &Scene, ray: Ray) -> Result<Intensity, OutOfRange> {
    match nearest_upto(scene.objects@, ray, scene.objects@.len() as int) {
        None => Ok(background_intensity(scene.background)),
        Some((i, d)) => {
            let obj = scene.objects@[i];
            let p = ray.at(d);
            if !ray.lands(d) {
                Err(OutOfRange)
            } else {
                match obj.normal_at(p) {
                    Ok(n) => Ok(shade_sum(lit(scene, p), n, obj.colour_spec())),
                    Err(_) => Ok(Intensity { r: 0, g: 0, b: 0 }),
                }
            }
        },
    }
}

proof fn lemma_cos_bound(a: Vec3, b: Vec3)
    requires
        a.is_unit_bounded(),
        b.is_unit_bounded(),
    ensures
        a.dot_spec(b) <= 3 * ONE,
{
    assert(a.x * b.x <= ONE * ONE) by (nonlinear_arith) requires -ONE <= a.x <= ONE, -ONE <= b.x <= ONE;
    assert(a.y * b.y <= ONE * ONE) by (nonlinear_arith) requires -ONE <= a.y <= ONE, -ONE <= b.y <= ONE;
    assert(a.z * b.z <= ONE * ONE) by (nonlinear_arith) requires -ONE <= a.z <= ONE, -ONE <= b.z <= ONE;
    assert(a.dot_raw(b) / ONE as int <= 3 * ONE) by (nonlinear_arith)
        requires a.dot_raw(b) <= 3 * ONE * ONE;
}

/// Sums the light of the reaching sources `hits` at a point with the given normal and colour.
fn shade(hits: &Vec<RayHit>, normal: &Vec3, colour: &Colour) -> (r: Intensity)
    requires
        normal.is_unit_bounded(),
        colour.wf(),
        hits@.len() <= MAX_LIGHTS,
        forall|i: int| 0 <= i < hits@.len() ==> (#[trigger] hits@[i]).light.wf() && hits@[i].ray.wf(),
    ensures
        r == shade_sum(hits@, *normal, *colour),
        r.wf(),
{
    let mut total = Intensity::new(0, 0, 0);
    let mut k: usize = 0;
    while k < hits.len()
        invariant
            k <= hits@.len(),
            normal.is_unit_bounded(),
            colour.wf(),
            hits@.len() <= MAX_LIGHTS,
            forall|i: int| 0 <= i < hits@.len() ==> (#[trigger] hits@[i]).light.wf() && hits@[i].ray.wf(),
            total == shade_sum(hits@.take(k as int), *normal, *colour),
            0 <= total.r <= k * 4 * LIGHT_MAX,
            0 <= total.g <= k * 4 * LIGHT_MAX,
            0 <= total.b <= k * 4 * LIGHT_MAX,
        decreases hits@.len() - k,
    {
        let hit = &hits[k];
        let intensity = hit.light.intensity();
        let cos: i64 = normal.dot(&hit.ray.dir);
        proof {
            lemma_cos_bound(*normal, hit.ray.dir);
        }
        let factor: i64 = if cos < 0 { 0 } else { cos };
        let c = intensity.mul_colour(*colour).mul(factor);
        proof {
            assert(k * 4 * LIGHT_MAX + 4 * LIGHT_MAX <= INTENSITY_MAX) by (nonlinear_arith)
                requires k < MAX_LIGHTS;
            assert(hits@.take(k as int + 1).drop_last() == hits@.take(k as int));
            assert(hits@.take(k as int + 1).last() == hits@[k as int]);
        }
        total = total.add(c);
        k = k + 1;
    }
    assert(hits@.take(k as int) == hits@);
    total
}

/// The intensity of light that arrives along `ray`.
pub fn trace(ray: &Ray, scene: &Scene) -> (r: Result<Intensity, OutOfRange>)
    requires
        ray.wf(),
        scene.wf(),
    ensures
        r == trace_spec(scene, *ray),
        r matches Ok(i) ==> i.wf(),
{
    match nearest_hit(ray, scene) {
        None => Ok(Intensity::new(scene.background.r, scene.background.g, scene.background.b)),
        Some((i, distance)) => {
            let object = &scene.objects[i];
            match ray.point_at(distance) {
                Some(point) => {
                    let rays = shadow_rays(&point, scene);
                    match object.surface_normal(&point) {
                        Ok(normal) => {
                            let colour = object.colour(&point);
                            Ok(shade(&rays, &normal, &colour))
                        },
                        Err(_) => Ok(Intensity::new(0, 0, 0)),
                    }
                },
                None => Err(OutOfRange),
            }
        },
    }
}

} // verus!
