//! The camera and its viewport.
use vstd::prelude::*;

use crate::objects::MalformedGeometry;
use crate::ray::{is_point, Ray};
use crate::scalar::{coord_ok, floor_div, COORD_MAX, ONE};
use crate::vec3::Vec3;

verus! {

/// Most pixels a viewport may have along either side.
pub const MAX_PIXELS: u32 = 0x1_0000;

/// A camera looking down the negative Z axis at a viewport `depth` in front of it.
///
/// The viewport is `viewport_width` wide and centred on the line of sight; its
/// height follows from square pixels. Pixels are numbered from the top left.
#[derive(Debug, Clone, Copy, PartialEq, Eq, Structural)]
pub struct Camera {
    pub px_per_row: u32,
    pub row_count: u32,
    pub loc: Vec3,
    pub depth: i64,
    pub viewport_width: i64,
}

impl Camera {
    pub open spec fn wf(self) -> bool {
        &&& is_point(self.loc)
        &&& 0 < self.depth <= COORD_MAX
        &&& 0 < self.viewport_width <= COORD_MAX
        &&& 1 <= self.px_per_row <= MAX_PIXELS
        &&& 1 <= self.row_count <= MAX_PIXELS
        &&& self.row_count * self.viewport_width <= COORD_MAX * self.px_per_row
    }

    /// The vector from the camera to the centre of pixel (`x`, `y`): the pixel size
    /// is `viewport_width / px_per_row`, and the first pixel's centre lies half a
    /// pixel in from the viewport's top-left corner.
    pub open spec fn pixel_dir(self, x: int, y: int) -> Vec3 {
        let w = self.viewport_width as int;
        let cols = self.px_per_row as int;
        let rows = self.row_count as int;
        Vec3 {
            x: ((2 * x + 1 - cols) * w / (2 * cols)) as i64,
            y: ((rows - 2 * y - 1) * w / (2 * cols)) as i64,
            z: -self.depth as i64,
        }
    }

    /// The primary ray through the centre of pixel (`x`, `y`).
    pub open spec fn ray_spec(self, x: int, y: int) -> Ray {
        Ray { source: self.loc, dir: self.pixel_dir(x, y).unit() }
    }

    /// A camera, refused where its measurements are out of range.
    pub fn new(loc: Vec3, depth: i64, viewport_width: i64, px_per_row: u32, row_count: u32) -> (r: Result<Camera, MalformedGeometry>)
        ensures
            r is Ok <==> (Camera { px_per_row, row_count, loc, depth, viewport_width }).wf(),
            r matches Ok(c) ==> c == (Camera { px_per_row, row_count, loc, depth, viewport_width }),
    {
        if crate::ray::in_coord_range(loc.x) && crate::ray::in_coord_range(loc.y)
            && crate::ray::in_coord_range(loc.z) && 0 < depth && depth <= COORD_MAX
            && 0 < viewport_width && viewport_width <= COORD_MAX && 1 <= px_per_row
            && px_per_row <= MAX_PIXELS && 1 <= row_count && row_count <= MAX_PIXELS {
            proof {
                assert((row_count as int) * (viewport_width as int) <= MAX_PIXELS * COORD_MAX) by (nonlinear_arith)
                    requires row_count <= MAX_PIXELS, viewport_width <= COORD_MAX, 0 <= row_count, 0 < viewport_width;
                assert(COORD_MAX * (px_per_row as int) <= MAX_PIXELS * COORD_MAX) by (nonlinear_arith)
                    requires px_per_row <= MAX_PIXELS;
            }
            if (row_count as i64) * viewport_width <= COORD_MAX * (px_per_row as i64) {
                return Ok(Camera { px_per_row, row_count, loc, depth, viewport_width });
            }
        }
        Err(MalformedGeometry)
    }

    /// The default camera: at the origin, looking down the negative Z axis, 1.0 in
    /// front of a viewport 2.0 wide, with 200 by 200 pixels.
    pub fn fixed() -> (c: Camera)
        ensures
            c == (Camera { px_per_row: 200, row_count: 200, loc: Vec3 { x: 0, y: 0, z: 0 }, depth: ONE, viewport_width: 0x2_0000 }),
            c.wf(),
    {
        Camera { px_per_row: 200, row_count: 200, loc: Vec3::new(0, 0, 0), depth: ONE, viewport_width: 2 * ONE }
    }

    /// The ray from the camera through the centre of pixel (`x_idx`, `y_idx`).
    pub fn primary_ray(&self, x_idx: u32, y_idx: u32) -> (r: Ray)
        requires
            self.wf(),
            x_idx < self.px_per_row,
            y_idx < self.row_count,
        ensures
            r == self.ray_spec(x_idx as int, y_idx as int),
            r.wf(),
    {
        let w: i64 = self.viewport_width;
        let cols: i64 = self.px_per_row as i64;
        let rows: i64 = self.row_count as i64;
        let x: i64 = x_idx as i64;
        let y: i64 = y_idx as i64;
        proof {
            assert(-cols <= 2 * x + 1 - cols <= cols);
            assert(-rows <= rows - 2 * y - 1 <= rows);
            assert((cols as int) * (w as int) <= COORD_MAX * (cols as int)) by (nonlinear_arith)
                requires w <= COORD_MAX, cols >= 1;
            lemma_offset(2 * x + 1 - cols, cols as int, cols as int, w as int);
            lemma_offset(rows - 2 * y - 1, rows as int, cols as int, w as int);
        }
        let dx: i64 = floor_div((2 * x + 1 - cols) * w, 2 * cols);
        let dy: i64 = floor_div((rows - 2 * y - 1) * w, 2 * cols);
        let dir = Vec3::new(dx, dy, -self.depth);
        match Ray::new(self.loc, dir) {
            Ok(ray) => ray,
            Err(_) => {
                proof {
                    assert(false);
                }
                Ray { source: self.loc, dir: Vec3::new(0, 0, -ONE) }
            },
        }
    }
}

proof fn lemma_offset(k: int, n: int, cols: int, w: int)
    requires
        -n <= k <= n,
        1 <= cols,
        1 <= n <= MAX_PIXELS,
        0 < w <= COORD_MAX,
        n * w <= COORD_MAX * cols,
    ensures
        -0x400_0000_0000 <= k * w <= 0x400_0000_0000,
        -COORD_MAX <= k * w / (2 * cols) <= COORD_MAX,
{
    assert(-(n * w) <= k * w <= n * w) by (nonlinear_arith)
        requires -n <= k <= n, 0 < w;
    assert(n * w <= 0x400_0000_0000) by (nonlinear_arith)
        requires n <= MAX_PIXELS, w <= COORD_MAX, 0 < n, 0 < w;
    let q = k * w;
    assert(-COORD_MAX <= q / (2 * cols) <= COORD_MAX) by (nonlinear_arith)
        requires -(COORD_MAX * cols) <= q <= COORD_MAX * cols, 1 <= cols;
}

} // verus!
