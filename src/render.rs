use vstd::prelude::*;
use crate::camera::Camera;
use crate::color::hex_spec;
use crate::cube::Cube;
use crate::fixed::{clamp_wide, div_trunc, sat, tdiv, ONE};
use crate::light::Light;
use crate::shade::{cast_ray, cast_ray_spec, scene_ok};
use crate::vector::{normalize_spec, vec3, Vec3};

verus! {

/// `tan(fov / 2)` in fixed point for a field of view of 60 degrees.
pub const PERSPECTIVE_SCALE: i64 = 605396;

/// A grid of packed `0xRRGGBB` colors, row by row.
#[derive(Clone, Debug)]
pub struct Framebuffer {
    pub width: usize,
    pub height: usize,
    pub buffer: Vec<u32>,
    pub current_color: u32,
}

/// The camera-space direction through pixel `(x, y)` of a `w` by `h` frame:
/// screen coordinates in `[-1, 1]` with y pointing up, widened by the aspect
/// ratio and scaled by the perspective factor, looking along -z.
pub open spec fn pixel_direction(w: int, h: int, x: int, y: int) -> Vec3 {
    let sx = sat(tdiv((2 * x - w) * PERSPECTIVE_SCALE, h));
    let sy = sat(tdiv((h - 2 * y) * PERSPECTIVE_SCALE, h));
    normalize_spec(vec3(sx, sy, -ONE as int))
}

/// The packed color of pixel `(x, y)`.
pub open spec fn pixel_spec(objs: Seq<Cube>, lights: Seq<Light>, cam: Camera, w: int, h: int, x: int, y: int) -> u32 {
    hex_spec(
        cast_ray_spec(objs, lights, cam.eye, cam.base_change_spec(pixel_direction(w, h, x, y)), 0, cam.eye),
    ) as u32
}

/// `fb` holds the frame of the scene seen by `cam`: entry `y * width + x` is
/// the color of pixel `(x, y)`.
pub open spec fn frame_done(fb: Framebuffer, objs: Seq<Cube>, lights: Seq<Light>, cam: Camera) -> bool {
    &&& fb.wf()
    &&& forall|j: int|
        0 <= j < fb.buffer@.len() ==> #[trigger] fb.buffer@[j] == pixel_spec(
            objs,
            lights,
            cam,
            fb.width as int,
            fb.height as int,
            j % (fb.width as int),
            j / (fb.width as int),
        )
}

impl Framebuffer {
    pub open spec fn wf(&self) -> bool {
        self.buffer@.len() == self.width * self.height
    }

    /// A black frame of `width` by `height` pixels.
    pub fn new(width: usize, height: usize) -> (r: Framebuffer)
        requires
            width * height <= usize::MAX,
        ensures
            r.wf(),
            r.width == width,
            r.height == height,
            r.current_color == 0,
            forall|j: int| 0 <= j < r.buffer@.len() ==> r.buffer@[j] == 0,
    {
        let n: usize = width * height;
        let mut buffer: Vec<u32> = Vec::new();
        let mut i: usize = 0;
        while i < n
            invariant
                i <= n,
                buffer@.len() == i,
                forall|j: int| 0 <= j < i ==> buffer@[j] == 0,
            decreases n - i,
        {
            buffer.push(0);
            i = i + 1;
        }
        Framebuffer { width, height, buffer, current_color: 0 }
    }

    pub fn set_current_color(&mut self, color: u32)
        ensures
            final(self).current_color == color,
            final(self).buffer == old(self).buffer,
            final(self).width == old(self).width,
            final(self).height == old(self).height,
    {
        self.current_color = color;
    }

    /// Paint pixel `(x, y)` with the current color; a pixel outside the frame
    /// is left alone.
    pub fn point(&mut self, x: usize, y: usize)
        requires
            old(self).wf(),
        ensures
            final(self).wf(),
            final(self).width == old(self).width,
            final(self).height == old(self).height,
            final(self).current_color == old(self).current_color,
            x < old(self).width && y < old(self).height ==> final(self).buffer@ == old(self).buffer@.update(
                y * old(self).width + x,
                old(self).current_color,
            ),
            !(x < old(self).width && y < old(self).height) ==> final(self).buffer@ == old(self).buffer@,
    {
        if x < self.width && y < self.height {
            let len = self.buffer.len();
            proof {
                assert(y * self.width + x < self.width * self.height) by (nonlinear_arith)
                    requires
                        x < self.width,
                        y < self.height,
                ;
                assert(y * self.width <= y * self.width + x);
            }
            let i = y * self.width + x;
            let c = self.current_color;
            self.buffer.set(i, c);
        }
    }
}

fn pixel_direction_exec(w: usize, h: usize, x: usize, y: usize) -> (r: Vec3)
    requires
        h >= 1,
        x < w,
        y < h,
    ensures
        r == pixel_direction(w as int, h as int, x as int, y as int),
{
    let dx: i128 = 2 * (x as i128) - w as i128;
    let dy: i128 = h as i128 - 2 * (y as i128);
    assert(-0x1_0000_0000_0000_0000_0000_0000 <= dx * 605396 <= 0x1_0000_0000_0000_0000_0000_0000) by (nonlinear_arith)
        requires
            -0x1_0000_0000_0000_0000 <= dx <= 0x1_0000_0000_0000_0000,
    ;
    assert(-0x1_0000_0000_0000_0000_0000_0000 <= dy * 605396 <= 0x1_0000_0000_0000_0000_0000_0000) by (nonlinear_arith)
        requires
            -0x1_0000_0000_0000_0000 <= dy <= 0x1_0000_0000_0000_0000,
    ;
    let sx = clamp_wide(div_trunc(dx * (PERSPECTIVE_SCALE as i128), h as i128));
    let sy = clamp_wide(div_trunc(dy * (PERSPECTIVE_SCALE as i128), h as i128));
    Vec3::new(sx, sy, -ONE).normalize()
}

/// Draw the scene seen by `camera` into every pixel of `framebuffer`, row by row.
pub fn render(framebuffer: &mut Framebuffer, objects: &[Cube], camera: &Camera, lights: &[Light])
    requires
        old(framebuffer).wf(),
        scene_ok(objects@),
    ensures
        final(framebuffer).width == old(framebuffer).width,
        final(framebuffer).height == old(framebuffer).height,
        frame_done(*final(framebuffer), objects@, lights@, *camera),
{
    let w = framebuffer.width;
    let h = framebuffer.height;
    let n = framebuffer.buffer.len();
    let mut i: usize = 0;
    while i < n
        invariant
            framebuffer.wf(),
            framebuffer.width == w,
            framebuffer.height == h,
            framebuffer.buffer@.len() == n,
            n == w * h,
            i <= n,
            scene_ok(objects@),
            forall|j: int|
                0 <= j < i ==> #[trigger] framebuffer.buffer@[j] == pixel_spec(
                    objects@,
                    lights@,
                    *camera,
                    w as int,
                    h as int,
                    j % (w as int),
                    j / (w as int),
                ),
        decreases n - i,
    {
        proof {
            assert(w > 0 && h > 0) by (nonlinear_arith)
                requires
                    i < n,
                    n == w * h,
            ;
            assert(i / w < h && (i / w) * w + i % w == i) by (nonlinear_arith)
                requires
                    i < w * h,
                    w > 0,
            ;
        }
        let x = i % w;
        let y = i / w;
        let direction = pixel_direction_exec(w, h, x, y);
        let rotated = camera.base_change(&direction);
        let color = cast_ray(&camera.eye, &rotated, objects, lights, 0, camera);
        framebuffer.set_current_color(color.to_hex());
        framebuffer.point(x, y);
        i = i + 1;
    }
}

/// Rendering is repeatable: two frames of one size drawn from the same
/// scene, lights and camera hold the same pixels.
pub proof fn lemma_render_repeatable(a: Framebuffer, b: Framebuffer, objs: Seq<Cube>, lights: Seq<Light>, cam: Camera)
    requires
        a.width == b.width,
        a.height == b.height,
        frame_done(a, objs, lights, cam),
        frame_done(b, objs, lights, cam),
    ensures
        a.buffer@ == b.buffer@,
{
    assert(a.buffer@ =~= b.buffer@);
}

} // verus!
