use vstd::prelude::*;
use crate::color::{color_of, Color};
use crate::fixed::ONE;
use crate::texture::Texture;
use crate::vector::{add_v, cross_spec, normalize_spec, scale_v, vec3, Vec3};

verus! {

/// How a surface responds to light. The four albedo weights (fixed-point)
/// are for the diffuse, specular, reflected and refracted parts.
#[derive(Clone, Debug)]
pub struct Material {
    pub diffuse: Color,
    pub specular: u32,
    pub albedo: [i64; 4],
    pub refractive_index: i64,
    pub textures: [Option<Texture>; 6],
    pub normal_map: Option<Texture>,
}

pub open spec fn texture_ok(t: Option<Texture>) -> bool {
    t matches Some(x) ==> x.wf()
}

/// The texel row or column for a coordinate `u` (fixed-point, nominally in
/// `[0, 1]`) on an axis of `n` texels: `u` is clamped just under 1, then scaled.
pub open spec fn texel_coord(u: int, n: int) -> int {
    let uc = if u < 0 { 0 } else if u >= ONE { ONE - 1 } else { u };
    uc * n / (ONE as int)
}

/// A normal-map byte decoded from `0..=255` to fixed-point `[-1, 1]`.
pub open spec fn decode(c: u8) -> int {
    (c * 2 * ONE) / 255 - ONE
}

fn texel_coord_exec(u: i64, n: u32) -> (r: u32)
    requires
        n >= 1,
    ensures
        r as int == texel_coord(u as int, n as int),
        r < n,
{
    let uc: i64 = if u < 0 { 0 } else if u >= ONE { ONE - 1 } else { u };
    assert(uc * n < 1048576 * n) by (nonlinear_arith)
        requires
            0 <= uc < 1048576,
            n >= 1,
    ;
    let p: u64 = uc as u64 * n as u64;
    assert(p / 1048576 < n);
    (p / (ONE as u64)) as u32
}

fn decode_exec(c: u8) -> (r: i64)
    ensures
        r as int == decode(c),
{
    (c as i64 * 2 * ONE) / 255 - ONE
}

impl Material {
    pub open spec fn wf(&self) -> bool {
        &&& forall|i: int| 0 <= i < 6 ==> texture_ok(#[trigger] self.textures@[i])
        &&& texture_ok(self.normal_map)
    }

    /// The color at `(u, v)` of face `face`: the nearest texel of that face's
    /// texture, or the diffuse color where the face has none.
    pub open spec fn surface_color_spec(&self, face: int, u: int, v: int) -> Color {
        match self.textures@[face] {
            Some(t) => {
                let x = texel_coord(u, t.width as int);
                let y = texel_coord(v, t.height as int);
                color_of(t.byte(x, y, 0) * ONE, t.byte(x, y, 1) * ONE, t.byte(x, y, 2) * ONE)
            },
            None => self.diffuse,
        }
    }

    /// The shading normal at `(u, v)`: `normal` turned by the normal map in a
    /// tangent frame built against the world's up axis, or `normal` itself.
    pub open spec fn shading_normal_spec(&self, normal: Vec3, u: int, v: int) -> Vec3 {
        match self.normal_map {
            Some(t) => {
                let x = texel_coord(u, t.width as int);
                let y = texel_coord(v, t.height as int);
                let nt = normalize_spec(
                    vec3(decode(t.byte(x, y, 0)), decode(t.byte(x, y, 1)), decode(t.byte(x, y, 2))),
                );
                let tangent = normalize_spec(cross_spec(normal, vec3(0, ONE as int, 0)));
                let bitangent = cross_spec(normal, tangent);
                normalize_spec(
                    add_v(
                        add_v(scale_v(tangent, nt.x as int), scale_v(bitangent, nt.y as int)),
                        scale_v(normal, nt.z as int),
                    ),
                )
            },
            None => normal,
        }
    }

    pub fn new(
        diffuse: Color,
        specular: u32,
        albedo: [i64; 4],
        refractive_index: i64,
        textures: [Option<Texture>; 6],
        normal_map: Option<Texture>,
    ) -> (r: Material)
        requires
            forall|i: int| 0 <= i < 6 ==> texture_ok(#[trigger] textures@[i]),
            texture_ok(normal_map),
        ensures
            r.wf(),
            r.diffuse == diffuse,
            r.specular == specular,
            r.albedo == albedo,
            r.refractive_index == refractive_index,
            r.textures == textures,
            r.normal_map == normal_map,
    {
        Material { diffuse, specular, albedo, refractive_index, textures, normal_map }
    }

    /// A black surface that reflects nothing and has no textures.
    pub fn black() -> (r: Material)
        ensures
            r.wf(),
            r.diffuse == color_of(0, 0, 0),
            r.specular == 0,
            r.albedo@ == seq![0i64, 0, 0, 0],
            r.refractive_index == 0,
            forall|i: int| 0 <= i < 6 ==> (#[trigger] r.textures@[i]) is None,
            r.normal_map is None,
    {
        let r = Material {
            diffuse: Color::black(),
            specular: 0,
            albedo: [0, 0, 0, 0],
            refractive_index: 0,
            textures: [None, None, None, None, None, None],
            normal_map: None,
        };
        assert(r.albedo@ =~= seq![0i64, 0, 0, 0]);
        r
    }

    pub fn surface_color(&self, face: usize, u: i64, v: i64) -> (r: Color)
        requires
            self.wf(),
            face < 6,
        ensures
            r == self.surface_color_spec(face as int, u as int, v as int),
    {
        match &self.textures[face] {
            Some(t) => {
                assert(texture_ok(self.textures@[face as int]));
                let x = texel_coord_exec(u, t.width);
                let y = texel_coord_exec(v, t.height);
                let p = t.get_pixel(x, y);
                Color::new(p[0], p[1], p[2])
            },
            None => self.diffuse,
        }
    }

    pub fn shading_normal(&self, normal: &Vec3, u: i64, v: i64) -> (r: Vec3)
        requires
            self.wf(),
        ensures
            r == self.shading_normal_spec(*normal, u as int, v as int),
    {
        match &self.normal_map {
            Some(t) => {
                let x = texel_coord_exec(u, t.width);
                let y = texel_coord_exec(v, t.height);
                let p = t.get_pixel(x, y);
                let nt = Vec3::new(decode_exec(p[0]), decode_exec(p[1]), decode_exec(p[2])).normalize();
                let tangent = normal.cross(&Vec3::new(0, ONE, 0)).normalize();
                let bitangent = normal.cross(&tangent);
                tangent.scale(nt.x).add(&bitangent.scale(nt.y)).add(&normal.scale(nt.z)).normalize()
            },
            None => *normal,
        }
    }
}

} // verus!
