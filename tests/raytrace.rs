use trcr::camera::Camera;
use trcr::colour::{Colour, Intensity};
use trcr::light::Light;
use trcr::objects::{MalformedGeometry, SceneObject, Sphere, XzPlane};
use trcr::ray::{OutOfRange, Ray};
use trcr::render::render;
use trcr::scalar::ONE;
use trcr::scene::{nearest_hit, shadow_rays, trace, Scene};
use trcr::scenes::one_sphere;
use trcr::tone::{normalise_colour, normalise_intensity};
use trcr::vec3::{DegenerateVector, Vec3};

fn origin() -> Vec3 {
    Vec3::new(0, 0, 0)
}

fn white() -> Colour {
    Colour::from_24bit_int(0xFFFFFF)
}

fn unit_sphere_at(z: i64) -> Sphere {
    Sphere::new(Vec3::new(0, 0, z), ONE, white()).unwrap()
}

fn ray(source: Vec3, dir: Vec3) -> Ray {
    Ray::new(source, dir).unwrap()
}

#[test]
fn mul() {
    println!("hello, world");
    let vec = Vec3::new(ONE, 2 * ONE, 3 * ONE);
    assert_eq!(vec.mul(2 * ONE), Vec3::new(2 * ONE, 4 * ONE, 6 * ONE));
    println!("{:?}", vec);
}

#[test]
fn normalised() {
    assert_eq!(Vec3::new(ONE, 0, 0).normalised(), Ok(Vec3::new(ONE, 0, 0)))
}

#[test]
fn vector_arithmetic() {
    let a = Vec3::new(ONE, -2 * ONE, 3);
    let b = Vec3::new(2 * ONE, ONE, -1);
    assert_eq!(a.add(b), Vec3::new(3 * ONE, -ONE, 2));
    assert_eq!(a.sub(b), Vec3::new(-ONE, -3 * ONE, 4));
    assert_eq!(a.neg(), Vec3::new(-ONE, 2 * ONE, -3));
    // The exact sum is -3 units of ONE * ONE, which rounds down to -1.
    assert_eq!(a.dot(&b), -1);
    assert_eq!(Vec3::new(3 * ONE, 4 * ONE, 0).mag(), 5 * ONE);
    assert_eq!(Vec3::new(2 * ONE, -ONE, 0).div(2 * ONE), Vec3::new(ONE, -ONE / 2, 0));
    // 1.5 * -1.0 rounds down to -1.5 exactly; -3 units * 0.5 rounds down to -2 units.
    assert_eq!(Vec3::new(-ONE, -3, 0).mul(ONE + ONE / 2), Vec3::new(-ONE - ONE / 2, -5, 0));
    assert_eq!(Vec3::new(-3, 0, 0).mul(ONE / 2), Vec3::new(-2, 0, 0));
}

#[test]
fn normalise_rounds_toward_zero() {
    assert_eq!(
        Vec3::new(-2 * ONE, -5 * ONE, -2 * ONE).normalised(),
        Ok(Vec3::new(-22816, -57041, -22816))
    );
    assert_eq!(Vec3::new(0, 0, -7 * ONE).normalised(), Ok(Vec3::new(0, 0, -ONE)));
}

#[test]
fn normalised_length_is_one() {
    for v in [
        Vec3::new(1, 1, 0),
        Vec3::new(-2 * ONE, -5 * ONE, -2 * ONE),
        Vec3::new(327, -328, -ONE),
        Vec3::new(3, -7, 11),
    ] {
        let u = v.normalised().unwrap();
        let m = u.mag();
        assert!(ONE - 4 <= m && m <= ONE + 1, "length {} of {:?}", m, u);
    }
}

#[test]
fn zero_vector_is_degenerate() {
    assert_eq!(origin().normalised(), Err(DegenerateVector));
    assert_eq!(Ray::new(origin(), origin()), Err(DegenerateVector));
}

#[test]
fn sphere_hit_at_near_surface() {
    let sphere = unit_sphere_at(-3 * ONE);
    let r = ray(origin(), Vec3::new(0, 0, -ONE));
    assert_eq!(sphere.intersect(&r), Some(2 * ONE));
    // The direction need not be of length 1.0: the ray normalises it.
    let through = ray(origin(), Vec3::new(0, 0, -17));
    assert_eq!(through.dir, Vec3::new(0, 0, -ONE));
    assert_eq!(sphere.intersect(&through), Some(2 * ONE));
}

#[test]
fn sphere_behind_ray_is_missed() {
    let sphere = unit_sphere_at(-3 * ONE);
    assert_eq!(sphere.intersect(&ray(origin(), Vec3::new(0, 0, ONE))), None);
    // A source inside the sphere, looking away from its centre, also sees no hit.
    let inside = ray(Vec3::new(0, 0, -5 * ONE / 2), Vec3::new(0, 0, ONE));
    assert_eq!(sphere.intersect(&inside), None);
}

#[test]
fn sphere_outside_radius_is_missed() {
    let sphere = unit_sphere_at(-3 * ONE);
    let r = ray(Vec3::new(2 * ONE, 0, 0), Vec3::new(0, 0, -ONE));
    assert_eq!(sphere.intersect(&r), None);
}

#[test]
fn sphere_from_inside_towards_centre_hits_far_side() {
    let sphere = unit_sphere_at(-3 * ONE);
    let r = ray(Vec3::new(0, 0, -5 * ONE / 2), Vec3::new(0, 0, -ONE));
    assert_eq!(sphere.intersect(&r), Some(3 * ONE / 2));
}

#[test]
fn plane_hit_from_below_within_bounds() {
    let plane = XzPlane::new(-ONE, -ONE, ONE, -4 * ONE, -2 * ONE, white()).unwrap();
    let up = Vec3::new(0, ONE, 0);
    assert_eq!(plane.intersect(&ray(Vec3::new(0, -2 * ONE, -3 * ONE), up)), Some(ONE));
    assert_eq!(plane.intersect(&ray(Vec3::new(5 * ONE, -2 * ONE, -3 * ONE), up)), None);
    assert!(plane.in_bounds(Vec3::new(ONE, -ONE, -2 * ONE)));
    assert!(!plane.in_bounds(Vec3::new(ONE + 1, -ONE, -3 * ONE)));
}

#[test]
fn plane_parallel_or_facing_away_is_missed() {
    let plane = SceneObject::Plane(XzPlane::new(-ONE, -ONE, ONE, -4 * ONE, -2 * ONE, white()).unwrap());
    assert_eq!(plane.intersect(&ray(Vec3::new(0, -2 * ONE, 0), Vec3::new(0, 0, -ONE))), None);
    assert_eq!(plane.intersect(&ray(Vec3::new(0, 0, -3 * ONE), Vec3::new(0, -ONE, 0))), None);
    assert_eq!(plane.intersect(&ray(Vec3::new(0, -2 * ONE, -3 * ONE), Vec3::new(0, -ONE, 0))), None);
}

#[test]
fn malformed_geometry_is_refused() {
    assert_eq!(Sphere::new(origin(), 0, white()), Err(MalformedGeometry));
    assert_eq!(Sphere::new(Vec3::new(0, 0, 257 * ONE), ONE, white()), Err(MalformedGeometry));
    assert_eq!(XzPlane::new(0, ONE, -ONE, 0, ONE, white()), Err(MalformedGeometry));
    assert_eq!(XzPlane::new(0, -ONE, ONE, ONE, 0, white()), Err(MalformedGeometry));
    assert_eq!(Camera::new(origin(), ONE, 0, 4, 4), Err(MalformedGeometry));
    assert_eq!(Camera::new(origin(), 0, 2 * ONE, 4, 4), Err(MalformedGeometry));
    assert_eq!(Camera::new(origin(), ONE, 2 * ONE, 0, 4), Err(MalformedGeometry));
}

#[test]
fn colour_from_24bit_int() {
    let c = Colour::from_24bit_int(0xA0F0A0);
    assert_eq!(c, Colour::new(41121, 61681, 41121));
    let p = c.pixel();
    assert_eq!((p.r, p.g, p.b), (0xA0, 0xF0, 0xA0));
    assert_eq!(white(), Colour::new(ONE, ONE, ONE));
    assert_eq!(Colour::from_24bit_int(0xFF000000), Colour::new(0, 0, 0));
}

#[test]
fn colour_to_pixel() {
    let p = Colour::new(ONE, ONE / 2, 0).pixel();
    assert_eq!(p, bmp::Pixel::new(255, 127, 0));
}

#[test]
fn intensity_arithmetic() {
    let i = Intensity::new(ONE, 2 * ONE, 4);
    assert_eq!(i.add(Intensity::new(1, 1, 1)), Intensity::new(ONE + 1, 2 * ONE + 1, 5));
    assert_eq!(i.mul_colour(Colour::new(ONE / 2, ONE, 0)), Intensity::new(ONE / 2, 2 * ONE, 0));
    assert_eq!(Intensity::new(ONE, 2 * ONE, 3).mul(ONE / 2), Intensity::new(ONE / 2, ONE, 1));
}

#[test]
fn light_distance_and_direction() {
    let point = Light::Point { loc: Vec3::new(0, 3 * ONE, 4 * ONE), intensity: Intensity::new(ONE, ONE, ONE) };
    assert_eq!(point.distance(&origin()), Some(5 * ONE));
    assert_eq!(point.direction(&origin()), Vec3::new(0, -3 * ONE, -4 * ONE));
    assert_eq!(point.intensity(), Intensity::new(ONE, ONE, ONE));
    let distant = Light::distant(Vec3::new(0, -7, 0), Intensity::new(1, 2, 3)).unwrap();
    assert_eq!(distant, Light::Distant { dir: Vec3::new(0, -ONE, 0), intensity: Intensity::new(1, 2, 3) });
    assert_eq!(Light::distant(origin(), Intensity::new(1, 2, 3)), Err(DegenerateVector));
    assert_eq!(distant.distance(&origin()), None);
    assert_eq!(distant.direction(&Vec3::new(ONE, ONE, ONE)), Vec3::new(0, -ONE, 0));
    assert_eq!(distant.intensity(), Intensity::new(1, 2, 3));
}

#[test]
fn nearest_hit_prefers_nearer_then_earlier() {
    let r = ray(origin(), Vec3::new(0, 0, -ONE));
    let far_then_near = Scene {
        objects: vec![SceneObject::Sphere(unit_sphere_at(-6 * ONE)), SceneObject::Sphere(unit_sphere_at(-3 * ONE))],
        lights: vec![],
        background: white(),
    };
    assert_eq!(nearest_hit(&r, &far_then_near), Some((1, 2 * ONE)));
    let twins = Scene {
        objects: vec![SceneObject::Sphere(unit_sphere_at(-3 * ONE)), SceneObject::Sphere(unit_sphere_at(-3 * ONE))],
        lights: vec![],
        background: white(),
    };
    assert_eq!(nearest_hit(&r, &twins), Some((0, 2 * ONE)));
    let away = ray(origin(), Vec3::new(0, 0, ONE));
    assert_eq!(nearest_hit(&away, &twins), None);
}

#[test]
fn empty_scene_shows_background() {
    let background = Colour::from_24bit_int(0x9999FF);
    assert_eq!(background, Colour::new(39322, 39322, ONE));
    let scene = Scene { objects: vec![], lights: vec![], background };
    let camera = Camera::new(origin(), ONE, 2 * ONE, 4, 3).unwrap();
    let pixels = render(&scene, &camera).unwrap();
    assert_eq!(pixels.len(), 12);
    for p in pixels.iter() {
        assert_eq!(*p, Intensity::new(39322, 39322, ONE));
    }
    let colours = normalise_intensity(pixels);
    for c in colours.iter() {
        assert_eq!(*c, background);
    }
}

#[test]
fn black_background_stays_black() {
    let scene = Scene { objects: vec![], lights: vec![], background: Colour::new(0, 0, 0) };
    let camera = Camera::new(origin(), ONE, 2 * ONE, 2, 2).unwrap();
    let colours = normalise_intensity(render(&scene, &camera).unwrap());
    assert_eq!(colours, vec![Colour::new(0, 0, 0); 4]);
    assert_eq!(normalise_intensity(vec![]), vec![]);
}

#[test]
fn blocked_point_light_is_excluded() {
    let light = Light::Point { loc: Vec3::new(0, 0, -2 * ONE), intensity: Intensity::new(ONE, ONE, ONE) };
    let point = Vec3::new(0, 0, -9 * ONE);
    let blocked = Scene {
        objects: vec![SceneObject::Sphere(unit_sphere_at(-10 * ONE)), SceneObject::Sphere(unit_sphere_at(-6 * ONE))],
        lights: vec![light],
        background: white(),
    };
    assert!(shadow_rays(&point, &blocked).is_empty());
    let open = Scene {
        objects: vec![SceneObject::Sphere(unit_sphere_at(-10 * ONE))],
        lights: vec![light],
        background: white(),
    };
    let hits = shadow_rays(&point, &open);
    assert_eq!(hits.len(), 1);
    assert_eq!(hits[0].ray.source, point);
    assert_eq!(hits[0].ray.dir, Vec3::new(0, 0, ONE));
    assert_eq!(hits[0].light, light);
}

#[test]
fn lit_and_shadowed_sphere() {
    let sphere = SceneObject::Sphere(unit_sphere_at(-3 * ONE));
    let r = ray(origin(), Vec3::new(0, 0, -ONE));
    let lit = Scene {
        objects: vec![sphere],
        lights: vec![Light::Distant { dir: Vec3::new(0, 0, -ONE), intensity: Intensity::new(ONE, ONE / 2, 0) }],
        background: white(),
    };
    assert_eq!(trace(&r, &lit), Ok(Intensity::new(ONE, ONE / 2, 0)));
    let from_behind = Scene {
        objects: vec![sphere],
        lights: vec![Light::Distant { dir: Vec3::new(0, 0, ONE), intensity: Intensity::new(ONE, ONE, ONE) }],
        background: white(),
    };
    assert_eq!(trace(&r, &from_behind), Ok(Intensity::new(0, 0, 0)));
    let both = Scene {
        objects: vec![sphere],
        lights: vec![
            Light::Distant { dir: Vec3::new(0, 0, -ONE), intensity: Intensity::new(ONE, ONE / 2, 0) },
            Light::Distant { dir: Vec3::new(0, 0, -ONE), intensity: Intensity::new(ONE, ONE, ONE) },
        ],
        background: white(),
    };
    assert_eq!(trace(&r, &both), Ok(Intensity::new(2 * ONE, 3 * ONE / 2, ONE)));
}

#[test]
fn light_behind_surface_adds_nothing() {
    let plane = SceneObject::Plane(XzPlane::new(-ONE, -ONE, ONE, -4 * ONE, -2 * ONE, white()).unwrap());
    let scene = Scene {
        objects: vec![plane],
        lights: vec![Light::Distant { dir: Vec3::new(0, ONE, 0), intensity: Intensity::new(ONE, ONE, ONE) }],
        background: white(),
    };
    let r = ray(Vec3::new(0, -2 * ONE, -3 * ONE), Vec3::new(0, ONE, 0));
    assert_eq!(shadow_rays(&Vec3::new(0, -ONE, -3 * ONE), &scene).len(), 1);
    assert_eq!(trace(&r, &scene), Ok(Intensity::new(0, 0, 0)));
}

#[test]
fn tone_mapping_two_pixels() {
    let colours = normalise_intensity(vec![Intensity::new(2 * ONE, 0, 0), Intensity::new(ONE, 0, 0)]);
    assert_eq!(colours, vec![Colour::new(ONE, 0, 0), Colour::new(ONE / 2, 0, 0)]);
    assert_eq!(normalise_colour(Intensity::new(ONE, 0, 3), 4 * ONE), Colour::new(ONE / 4, 0, 0));
    assert_eq!(normalise_colour(Intensity::new(0, 0, 0), 0), Colour::new(0, 0, 0));
}

#[test]
fn camera_primary_rays() {
    let camera = Camera::fixed();
    assert_eq!((camera.px_per_row, camera.row_count), (200, 200));
    let centre = camera.primary_ray(100, 100);
    assert_eq!(centre.source, origin());
    assert_eq!(centre.dir, Vec3::new(326, -327, -65534));
    let corner = camera.primary_ray(0, 0);
    assert_eq!(corner.dir, Vec3::new(-37774, 37773, -37963));
}

#[test]
fn one_sphere_end_to_end() {
    let scene = one_sphere();
    assert_eq!(scene.objects.len(), 2);
    assert_eq!(scene.lights.len(), 1);
    let camera = Camera::fixed();
    let centre = camera.primary_ray(100, 100);
    let (index, distance) = nearest_hit(&centre, &scene).unwrap();
    assert_eq!(index, 0);
    assert!(2 * ONE - 4 <= distance && distance <= 2 * ONE + 16, "distance {}", distance);
    let first = render(&scene, &camera).unwrap();
    let second = render(&scene, &camera).unwrap();
    assert_eq!(first.len(), 40000);
    assert_eq!(first, second);
    assert_eq!(Ok(first[100 * 200 + 100]), trace(&centre, &scene));
    let a = normalise_intensity(first);
    let b = normalise_intensity(second);
    assert_eq!(a, b);
    assert!(a.iter().all(|c| c.r <= ONE && c.g <= ONE && c.b <= ONE));
}

#[test]
fn occluder_between_point_and_light_blocks_it() {
    let light = Light::Point { loc: Vec3::new(0, 0, 10 * ONE), intensity: Intensity::new(ONE, ONE, ONE) };
    let scene = Scene {
        objects: vec![SceneObject::Sphere(unit_sphere_at(-ONE)), SceneObject::Sphere(unit_sphere_at(8 * ONE))],
        lights: vec![light],
        background: white(),
    };
    assert!(shadow_rays(&origin(), &scene).is_empty());
    // An object beyond the light does not shadow the point.
    let beyond = Scene {
        objects: vec![SceneObject::Sphere(unit_sphere_at(-ONE)), SceneObject::Sphere(unit_sphere_at(12 * ONE))],
        lights: vec![light],
        background: white(),
    };
    assert_eq!(shadow_rays(&origin(), &beyond).len(), 1);
}

#[test]
fn plane_does_not_shadow_itself() {
    let plane = SceneObject::Plane(XzPlane::new(-ONE, -ONE, ONE, -4 * ONE, -2 * ONE, white()).unwrap());
    let scene = Scene {
        objects: vec![plane],
        lights: vec![Light::Distant { dir: Vec3::new(0, -ONE, 0), intensity: Intensity::new(ONE, ONE, ONE) }],
        background: white(),
    };
    let r = ray(Vec3::new(0, -2 * ONE, -3 * ONE), Vec3::new(0, ONE, 0));
    assert_eq!(trace(&r, &scene), Ok(Intensity::new(ONE, ONE, ONE)));
}

#[test]
fn hit_outside_coordinate_range_is_an_error() {
    let big = Sphere::new(Vec3::new(0, 0, -255 * ONE), 2 * ONE, white()).unwrap();
    let scene = Scene { objects: vec![SceneObject::Sphere(big)], lights: vec![], background: white() };
    let r = ray(Vec3::new(0, 0, -254 * ONE), Vec3::new(0, 0, -ONE));
    assert_eq!(big.intersect(&r), Some(3 * ONE));
    assert_eq!(trace(&r, &scene), Err(OutOfRange));
    let camera = Camera::new(Vec3::new(0, 0, -254 * ONE), ONE, 2 * ONE, 1, 1).unwrap();
    assert_eq!(render(&scene, &camera), Err(OutOfRange));
}
