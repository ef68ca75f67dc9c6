//! Ready-made scenes.
use vstd::prelude::*;

use crate::colour::{colour_of, Colour, Intensity};
use crate::light::Light;
use crate::objects::{SceneObject, Sphere, XzPlane};
use crate::scalar::ONE;
use crate::scene::Scene;
use crate::vec3::Vec3;

verus! {

/// A green sphere 3.0 in front of the origin and a white plane 1.0 below it, lit
/// by one distant white light, against a pale blue background.
pub fn one_sphere() -> (s: Scene)
    ensures
        s.wf(),
        s.objects@ == seq![
            SceneObject::Sphere(Sphere {
                centre: Vec3 { x: 0, y: 0, z: (-3 * ONE) as i64 },
                radius: ONE,
                colour: colour_of(0xA0F0A0),
            }),
            SceneObject::Plane(XzPlane {
                y: (-ONE) as i64,
                x_min: (-ONE) as i64,
                x_max: ONE,
                z_min: (-4 * ONE) as i64,
                z_max: (-2 * ONE) as i64,
                colour: colour_of(0xFFFFFF),
            }),
        ],
        s.lights@ == seq![
            Light::Distant {
                dir: Vec3 { x: (-2 * ONE) as i64, y: (-5 * ONE) as i64, z: (-2 * ONE) as i64 }.unit(),
                intensity: Intensity { r: ONE, g: ONE, b: ONE },
            },
        ],
        s.background == colour_of(0x9999FF),
{
    let mut objects: Vec<SceneObject> = Vec::new();
    match Sphere::new(Vec3::new(0, 0, -3 * ONE), ONE, Colour::from_24bit_int(0xA0F0A0)) {
        Ok(sphere) => objects.push(SceneObject::Sphere(sphere)),
        Err(_) => {},
    }
    match XzPlane::new(-ONE, -ONE, ONE, -4 * ONE, -2 * ONE, Colour::from_24bit_int(0xFFFFFF)) {
        Ok(plane) => objects.push(SceneObject::Plane(plane)),
        Err(_) => {},
    }
    let mut lights: Vec<Light> = Vec::new();
    match Light::distant(Vec3::new(-2 * ONE, -5 * ONE, -2 * ONE), Intensity::new(ONE, ONE, ONE)) {
        Ok(light) => lights.push(light),
        Err(_) => {},
    }
    let s = Scene { objects, lights, background: Colour::from_24bit_int(0x9999FF) };
    assert(s.objects@ =~= seq![s.objects@[0], s.objects@[1]]);
    assert(s.lights@ =~= seq![s.lights@[0]]);
    s
}

/// A white sphere 2.0 in front of the origin, lit by a reddish and a white
/// distant light, against a pale blue background.
pub fn one_sphere_two_lights() -> (s: Scene)
    ensures
        s.wf(),
        s.objects@ == seq![
            SceneObject::Sphere(Sphere {
                centre: Vec3 { x: 0, y: 0, z: (-2 * ONE) as i64 },
                radius: ONE,
                colour: colour_of(0xFFFFFF),
            }),
        ],
        s.lights@ == seq![
            Light::Distant {
                dir: Vec3 { x: (-ONE) as i64, y: (-5 * ONE) as i64, z: (-ONE) as i64 }.unit(),
                intensity: Intensity { r: ONE, g: (ONE / 10) as i64, b: (ONE / 10) as i64 },
            },
            Light::Distant {
                dir: Vec3 { x: (2 * ONE) as i64, y: (-2 * ONE) as i64, z: (-2 * ONE) as i64 }.unit(),
                intensity: Intensity { r: ONE, g: ONE, b: ONE },
            },
        ],
        s.background == colour_of(0x9999FF),
{
    let mut objects: Vec<SceneObject> = Vec::new();
    match Sphere::new(Vec3::new(0, 0, -2 * ONE), ONE, Colour::from_24bit_int(0xFFFFFF)) {
        Ok(sphere) => objects.push(SceneObject::Sphere(sphere)),
        Err(_) => {},
    }
    let tenth: i64 = ONE / 10;
    let mut lights: Vec<Light> = Vec::new();
    match Light::distant(Vec3::new(-ONE, -5 * ONE, -ONE), Intensity::new(ONE, tenth, tenth)) {
        Ok(light) => lights.push(light),
        Err(_) => {},
    }
    match Light::distant(Vec3::new(2 * ONE, -2 * ONE, -2 * ONE), Intensity::new(ONE, ONE, ONE)) {
        Ok(light) => lights.push(light),
        Err(_) => {},
    }
    let s = Scene { objects, lights, background: Colour::from_24bit_int(0x9999FF) };
    assert(s.objects@ =~= seq![s.objects@[0]]);
    assert(s.lights@ =~= seq![s.lights@[0], s.lights@[1]]);
    s
}

} // verus!
