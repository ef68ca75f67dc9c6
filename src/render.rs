//! Rendering a whole frame.
use vstd::prelude::*;

use crate::camera::Camera;
use crate::colour::Intensity;
use crate::ray::OutOfRange;
use crate::scalar::ONE;
use crate::scene::{background_intensity, lemma_empty_scene_traces_background, trace, trace_spec, Scene};
use crate::tone::{max_channel, max_upto, normalise_spec, tone};

verus! {

/// Whether `pixels` is the frame of `scene` as seen by `camera`: one intensity per
/// pixel, row by row from the top left.
pub open spec fn is_frame(scene: &Scene, camera: Camera, pixels: Seq<Intensity>) -> bool {
    let cols = camera.px_per_row as int;
    &&& pixels.len() == cols * camera.row_count
    &&& forall|i: int| 0 <= i < pixels.len() ==> trace_spec(scene, camera.ray_spec(i % cols, i / cols))
        == Ok::<Intensity, OutOfRange>(#[trigger] pixels[i])
}

/// Whether the primary ray of some pixel meets a surface at a point outside the
/// coordinate range.
pub open spec fn leaves_range(scene: &Scene, camera: Camera) -> bool {
    let cols = camera.px_per_row as int;
    exists|i: int|
        0 <= i < (camera.row_count as int) * cols && (#[trigger] trace_spec(scene, camera.ray_spec(i % cols, i / cols))) is Err
}

/// Traces the primary ray of every pixel, row by row from the top left; fails
/// where some pixel's nearest hit lies outside the coordinate range.
pub fn render(scene: &Scene, camera: &Camera) -> (r: Result<Vec<Intensity>, OutOfRange>)
    requires
        scene.wf(),
        camera.wf(),
    ensures
        r is Err <==> leaves_range(scene, *camera),
        r matches Ok(pixels) ==> is_frame(scene, *camera, pixels@)
            && forall|i: int| 0 <= i < pixels@.len() ==> (#[trigger] pixels@[i]).wf(),
{
    let cols: u32 = camera.px_per_row;
    let rows: u32 = camera.row_count;
    proof {
        assert((rows as int) * (cols as int) <= 0x1_0000_0000) by (nonlinear_arith)
            requires rows <= 0x1_0000, cols <= 0x1_0000;
    }
    let total: u64 = (rows as u64) * (cols as u64);
    let mut pixels: Vec<Intensity> = Vec::new();
    let mut i: u64 = 0;
    while i < total
        invariant
            scene.wf(),
            camera.wf(),
            cols == camera.px_per_row,
            rows == camera.row_count,
            total == (rows as int) * (cols as int),
            i <= total,
            pixels@.len() == i,
            forall|k: int| 0 <= k < i ==> trace_spec(scene, camera.ray_spec(k % (cols as int), k / (cols as int)))
                == Ok::<Intensity, OutOfRange>(#[trigger] pixels@[k]),
            forall|k: int| 0 <= k < i ==> !(#[trigger] trace_spec(scene, camera.ray_spec(k % (cols as int), k / (cols as int)))
                is Err),
            forall|k: int| 0 <= k < i ==> (#[trigger] pixels@[k]).wf(),
        decreases total - i,
    {
        let x: u64 = i % (cols as u64);
        let y: u64 = i / (cols as u64);
        proof {
            assert(y < rows) by (nonlinear_arith)
                requires (y as int) == (i as int) / (cols as int), (i as int) < (rows as int) * (cols as int), cols >= 1;
        }
        assert(x < cols);
        assert((x as u32) as int == (i as int) % (cols as int));
        assert((y as u32) as int == (i as int) / (cols as int));
        let ray = camera.primary_ray(x as u32, y as u32);
        assert(ray == camera.ray_spec((i as int) % (cols as int), (i as int) / (cols as int)));
        let traced = trace(&ray, scene);
        assert(traced == trace_spec(scene, ray));
        match traced {
            Ok(pixel_intensity) => pixels.push(pixel_intensity),
            Err(e) => {
                assert(trace_spec(scene, camera.ray_spec(i as int % (cols as int), i as int / (cols as int))) is Err);
                assert(0 <= i < (camera.row_count as int) * (camera.px_per_row as int));
                assert(leaves_range(scene, *camera));
                return Err(e);
            },
        }
        i = i + 1;
    }
    proof {
        assert forall|k: int| 0 <= k < (rows as int) * (cols as int) implies !(#[trigger] trace_spec(
            scene,
            camera.ray_spec(k % (cols as int), k / (cols as int)),
        ) is Err) by {
            assert(0 <= k < i);
        }
        assert(!leaves_range(scene, *camera));
    }
    Ok(pixels)
}

/// Rendering is reproducible: the frame is a function of the scene and the camera alone.
pub proof fn lemma_frame_reproducible(scene: &Scene, camera: Camera, a: Seq<Intensity>, b: Seq<Intensity>)
    requires
        is_frame(scene, camera, a),
        is_frame(scene, camera, b),
    ensures
        a == b,
{
    assert(a =~= b);
}

/// In a frame of equal intensities, the maximum channel is that of any one of them.
pub proof fn lemma_uniform_max(s: Seq<Intensity>, v: Intensity, n: int)
    requires
        1 <= n <= s.len(),
        forall|i: int| 0 <= i < s.len() ==> s[i] == v,
        v.wf(),
    ensures
        max_upto(s, n) == max_channel(v),
    decreases n,
{
    if n > 1 {
        lemma_uniform_max(s, v, n - 1);
    } else {
        assert(max_upto(s, 0) == 0);
        assert(s[0] == v);
    }
}

/// A scene without objects renders every pixel as its background; after tone
/// mapping every pixel has the same colour, the background rescaled by its own
/// largest channel, whose channel is then 1.0 (or all are 0 for a black background).
pub proof fn lemma_empty_scene_frame(scene: &Scene, camera: Camera, pixels: Seq<Intensity>)
    requires
        scene.objects@.len() == 0,
        scene.background.wf(),
        camera.wf(),
        is_frame(scene, camera, pixels),
    ensures
        forall|i: int| 0 <= i < pixels.len() ==> #[trigger] pixels[i] == background_intensity(scene.background),
        forall|i: int| 0 <= i < pixels.len() ==> #[trigger] normalise_spec(pixels[i], max_upto(pixels, pixels.len() as int))
            == normalise_spec(background_intensity(scene.background), max_channel(background_intensity(scene.background))),
        max_channel(background_intensity(scene.background)) > 0 ==> tone(
            max_channel(background_intensity(scene.background)),
            max_channel(background_intensity(scene.background)),
        ) == ONE,
{
    let bg = background_intensity(scene.background);
    let cols = camera.px_per_row as int;
    assert forall|i: int| 0 <= i < pixels.len() implies #[trigger] pixels[i] == bg by {
        lemma_empty_scene_traces_background(scene, camera.ray_spec(i % cols, i / cols));
        assert(trace_spec(scene, camera.ray_spec(i % cols, i / cols)) == Ok::<Intensity, OutOfRange>(pixels[i]));
    }
    if pixels.len() >= 1 {
        lemma_uniform_max(pixels, bg, pixels.len() as int);
    }
    let m = max_channel(bg);
    if m > 0 {
        vstd::arithmetic::div_mod::lemma_div_by_multiple(ONE as int, m);
        assert(m * ONE == ONE * m) by (nonlinear_arith);
    }
}

} // verus!
