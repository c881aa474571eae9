use vstd::prelude::*;
use crate::camera::Camera;
use crate::color::{add_c, color_of, scale_c, skybox_spec, Color};
use crate::cube::{empty_spec, Cube, Intersect};
use crate::fixed::{abs_int, div_spec, fx_div, fx_mul, fx_sub, mul_spec, sub_spec, tdiv, LIMIT, ONE};
use crate::light::Light;
use crate::material::Material;
use crate::optics::{
    fresnel, fresnel_spec, fx_pow, offset_origin, offset_origin_spec, pow_spec, reflect, reflect_spec,
    refract, refract_spec,
};
use crate::vector::{dot_spec, length_spec, neg_v, normalize_spec, sub_v, Vec3};

verus! {

/// How much an occluder at ray parameter `h` on the way to a light at
/// distance `ld` shades: `1 - (h / ld)^2`, kept within `[0, 1]`.
pub open spec fn attenuation(h: int, ld: int) -> int {
    let r = div_spec(h, ld);
    let sq = mul_spec(r, r);
    sub_spec(ONE as int, if sq > ONE { ONE as int } else { sq })
}

/// Whether object `i` blocks the shadow ray before the light.
pub open spec fn blocks(objs: Seq<Cube>, i: int, o: Vec3, d: Vec3, eye: Vec3, ld: int) -> bool {
    let s = objs[i].intersect_spec(o, d, eye);
    s.is_intersecting && s.distance < ld
}

/// The attenuation by the first object, from index `i` on, that blocks the
/// shadow ray; 0 when none does.
pub open spec fn shadow_from(objs: Seq<Cube>, i: int, o: Vec3, d: Vec3, eye: Vec3, ld: int) -> int
    decreases objs.len() - i,
{
    if i < 0 || i >= objs.len() {
        0
    } else if blocks(objs, i, o, d, eye, ld) {
        attenuation(objs[i].intersect_spec(o, d, eye).distance as int, ld)
    } else {
        shadow_from(objs, i + 1, o, d, eye, ld)
    }
}

/// The shadow that `objs` cast on `hit` from `light`, seen from `eye`.
pub open spec fn shadow_spec(hit: Intersect, light: Light, objs: Seq<Cube>, eye: Vec3) -> int {
    let to_light = sub_v(light.position, hit.point);
    let dir = normalize_spec(to_light);
    shadow_from(objs, 0, offset_origin_spec(hit, dir), dir, eye, length_spec(to_light))
}

/// The nearest hit among the first `n` objects and the index of the object
/// hit; ties keep the earlier object.
pub open spec fn nearest(objs: Seq<Cube>, n: int, o: Vec3, d: Vec3, eye: Vec3) -> (Intersect, int)
    decreases n,
{
    if n <= 0 || n > objs.len() {
        (empty_spec(), 0)
    } else {
        let best = nearest(objs, n - 1, o, d, eye);
        let c = objs[n - 1].intersect_spec(o, d, eye);
        if c.is_intersecting && c.distance < best.0.distance { (c, n - 1) } else { best }
    }
}

fn attenuation_exec(h: i64, ld: i64) -> (r: i64)
    requires
        ld != 0,
    ensures
        r as int == attenuation(h as int, ld as int),
{
    let r = fx_div(h, ld);
    let sq = fx_mul(r, r);
    fx_sub(ONE, if sq > ONE { ONE } else { sq })
}

/// How much `light` is shaded at `intersect` by the first of `objects` that
/// lies between them: 0 when nothing does.
pub fn cast_shadow(intersect: &Intersect, light: &Light, objects: &[Cube], camera: &Camera) -> (r: i64)
    ensures
        r as int == shadow_spec(*intersect, *light, objects@, camera.eye),
{
    let to_light = light.position.sub(&intersect.point);
    let light_dir = to_light.normalize();
    let light_distance = to_light.length();
    let shadow_ray_origin = offset_origin(intersect, &light_dir);
    let ghost o = shadow_ray_origin;
    let mut i: usize = 0;
    while i < objects.len()
        invariant
            i <= objects@.len(),
            o == shadow_ray_origin,
            light_distance >= 0,
            shadow_spec(*intersect, *light, objects@, camera.eye)
                == shadow_from(objects@, i as int, o, light_dir, camera.eye, light_distance as int),
        decreases objects@.len() - i,
    {
        let s = objects[i].ray_intersect(&shadow_ray_origin, &light_dir, &camera.eye);
        if s.is_intersecting && s.distance < light_distance {
            return attenuation_exec(s.distance, light_distance);
        }
        i = i + 1;
    }
    0
}

/// The nearest of `objects` that the ray meets, with its index.
pub fn nearest_hit(ray_origin: &Vec3, ray_direction: &Vec3, objects: &[Cube], camera: &Camera) -> (r: (Intersect, usize))
    ensures
        (r.0, r.1 as int) == nearest(objects@, objects@.len() as int, *ray_origin, *ray_direction, camera.eye),
        r.0.is_intersecting ==> r.1 < objects@.len() && r.0.face < 6,
{
    let mut intersect = Intersect::empty();
    let mut index: usize = 0;
    let mut zbuffer: i64 = intersect.distance;
    let mut k: usize = 0;
    while k < objects.len()
        invariant
            k <= objects@.len(),
            (intersect, index as int) == nearest(objects@, k as int, *ray_origin, *ray_direction, camera.eye),
            zbuffer == intersect.distance,
            intersect.is_intersecting ==> index < k && intersect.face < 6,
        decreases objects@.len() - k,
    {
        let i = objects[k].ray_intersect(ray_origin, ray_direction, &camera.eye);
        if i.is_intersecting && i.distance < zbuffer {
            zbuffer = i.distance;
            intersect = i;
            index = k;
        }
        k = k + 1;
    }
    (intersect, index)
}

/// Every material of the scene is well formed.
pub open spec fn scene_ok(objs: Seq<Cube>) -> bool {
    forall|i: int| 0 <= i < objs.len() ==> (#[trigger] objs[i]).material.wf()
}

/// The weight left for the local (diffuse and specular) light: never negative.
pub open spec fn local_weight(reflectivity: int, transparency: int) -> int {
    let w = sub_spec(sub_spec(ONE as int, reflectivity), transparency);
    if w < 0 { 0 } else { w }
}

/// The color seen along the ray from `o` in direction `d`, `depth` bounces
/// deep: the sky past three bounces or where the ray meets nothing, else the
/// sum over all lights of the shading at the nearest hit.
pub open spec fn cast_ray_spec(objs: Seq<Cube>, lights: Seq<Light>, o: Vec3, d: Vec3, depth: int, eye: Vec3) -> Color
    decreases 4 - depth, lights.len() + 1,
{
    if depth > 3 {
        skybox_spec()
    } else {
        let found = nearest(objs, objs.len() as int, o, d, eye);
        let hit = found.0;
        if !hit.is_intersecting || found.1 < 0 || found.1 >= objs.len() {
            skybox_spec()
        } else {
            let m: Material = *objs[found.1].material;
            let col = m.surface_color_spec(hit.face as int, hit.u as int, hit.v as int);
            let shaded = Intersect { normal: m.shading_normal_spec(hit.normal, hit.u as int, hit.v as int), ..hit };
            light_sum(objs, lights, lights.len() as int, shaded, m, col, o, d, depth, eye)
        }
    }
}

/// The shading at `hit` summed over the first `n` lights.
pub open spec fn light_sum(
    objs: Seq<Cube>,
    lights: Seq<Light>,
    n: int,
    hit: Intersect,
    m: Material,
    col: Color,
    o: Vec3,
    d: Vec3,
    depth: int,
    eye: Vec3,
) -> Color
    decreases 4 - depth, n,
{
    if n <= 0 || n > lights.len() || depth > 3 {
        color_of(0, 0, 0)
    } else {
        add_c(
            light_sum(objs, lights, n - 1, hit, m, col, o, d, depth, eye),
            light_term(objs, lights, lights[n - 1], hit, m, col, o, d, depth, eye),
        )
    }
}

/// What one light gives at `hit`: diffuse and specular light dimmed by
/// shadow and weighted by what the Fresnel split leaves, plus what the
/// reflected and refracted rays see, weighted by their shares.
pub open spec fn light_term(
    objs: Seq<Cube>,
    lights: Seq<Light>,
    light: Light,
    hit: Intersect,
    m: Material,
    col: Color,
    o: Vec3,
    d: Vec3,
    depth: int,
    eye: Vec3,
) -> Color
    decreases 4 - depth, 0int,
{
    if depth > 3 {
        color_of(0, 0, 0)
    } else {
        let light_dir = normalize_spec(sub_v(light.position, hit.point));
        let view_dir = normalize_spec(sub_v(o, hit.point));
        let reflect_dir = normalize_spec(reflect_spec(neg_v(light_dir), hit.normal));
        let shadow = shadow_spec(hit, light, objs, eye);
        let li = mul_spec(light.intensity as int, sub_spec(ONE as int, shadow));
        let dl = dot_spec(hit.normal, light_dir);
        let di = if dl < 0 { 0 } else if dl > ONE { ONE as int } else { dl };
        let diffuse = scale_c(scale_c(scale_c(col, m.albedo@[0] as int), di), li);
        let sv = dot_spec(view_dir, reflect_dir);
        let si = pow_spec(if sv < 0 { 0 } else { sv }, m.specular as nat);
        let specular = scale_c(scale_c(scale_c(light.color, m.albedo@[1] as int), si), li);
        let kr = fresnel_spec(d, hit.normal, m.refractive_index as int);
        let reflectivity = mul_spec(kr, m.albedo@[2] as int);
        let rd = normalize_spec(reflect_spec(d, hit.normal));
        let reflect_color = if reflectivity > 0 {
            cast_ray_spec(objs, lights, offset_origin_spec(hit, rd), rd, depth + 1, eye)
        } else {
            green_spec()
        };
        let transparency = mul_spec(sub_spec(ONE as int, kr), m.albedo@[3] as int);
        let td = refract_spec(d, hit.normal, m.refractive_index as int);
        let refract_color = if transparency > 0 {
            cast_ray_spec(objs, lights, offset_origin_spec(hit, td), td, depth + 1, eye)
        } else {
            green_spec()
        };
        add_c(
            add_c(
                scale_c(add_c(diffuse, specular), local_weight(reflectivity, transparency)),
                scale_c(reflect_color, reflectivity),
            ),
            scale_c(refract_color, transparency),
        )
    }
}

/// Stands in for a reflected or refracted color that carries no weight.
pub open spec fn green_spec() -> Color {
    color_of(0, 255 * ONE, 0)
}

/// The color seen along a ray, shading the nearest box it meets with every
/// light and following reflected and refracted rays up to depth 3.
pub fn cast_ray(
    ray_origin: &Vec3,
    ray_direction: &Vec3,
    objects: &[Cube],
    lights: &[Light],
    depth: u32,
    camera: &Camera,
) -> (r: Color)
    requires
        scene_ok(objects@),
    ensures
        r == cast_ray_spec(objects@, lights@, *ray_origin, *ray_direction, depth as int, camera.eye),
    decreases 4 - depth, 1int,
{
    if depth > 3 {
        return Color::skybox();
    }
    let (hit, index) = nearest_hit(ray_origin, ray_direction, objects, camera);
    if !hit.is_intersecting {
        return Color::skybox();
    }
    let material: &Material = &objects[index].material;
    assert(material.wf());
    let color = material.surface_color(hit.face, hit.u, hit.v);
    let intersect = Intersect { normal: material.shading_normal(&hit.normal, hit.u, hit.v), ..hit };
    let mut final_color = Color::black();
    let mut k: usize = 0;
    while k < lights.len()
        invariant
            k <= lights@.len(),
            depth <= 3,
            scene_ok(objects@),
            final_color == light_sum(objects@, lights@, k as int, intersect, *material, color,
                *ray_origin, *ray_direction, depth as int, camera.eye),
        decreases lights@.len() - k,
    {
        let term = shade_light(ray_origin, ray_direction, &intersect, material, &color, &lights[k], objects,
            lights, depth, camera);
        final_color = final_color.add(&term);
        k = k + 1;
    }
    final_color
}

/// What `light` gives at `intersect`, a hit on a surface of `material`
/// whose color there is `color`, for the ray from `ray_origin` along
/// `ray_direction` at `depth`.
pub fn shade_light(
    ray_origin: &Vec3,
    ray_direction: &Vec3,
    intersect: &Intersect,
    material: &Material,
    color: &Color,
    light: &Light,
    objects: &[Cube],
    lights: &[Light],
    depth: u32,
    camera: &Camera,
) -> (r: Color)
    requires
        scene_ok(objects@),
        depth <= 3,
    ensures
        r == light_term(objects@, lights@, *light, *intersect, *material, *color, *ray_origin,
            *ray_direction, depth as int, camera.eye),
    decreases 4 - depth, 0int,
{
    let light_dir = light.position.sub(&intersect.point).normalize();
    let view_dir = ray_origin.sub(&intersect.point).normalize();
    let reflect_dir = reflect(&light_dir.neg(), &intersect.normal).normalize();
    let shadow_intensity = cast_shadow(intersect, light, objects, camera);
    let light_intensity = fx_mul(light.intensity, fx_sub(ONE, shadow_intensity));
    let dl = intersect.normal.dot(&light_dir);
    let diffuse_intensity: i64 = if dl < 0 { 0 } else if dl > ONE { ONE } else { dl };
    let diffuse = color.scale(material.albedo[0]).scale(diffuse_intensity).scale(light_intensity);
    let sv = view_dir.dot(&reflect_dir);
    let specular_intensity = fx_pow(if sv < 0 { 0 } else { sv }, material.specular);
    let specular = light.color.scale(material.albedo[1]).scale(specular_intensity).scale(light_intensity);
    let kr = fresnel(ray_direction, &intersect.normal, material.refractive_index);
    let reflectivity = fx_mul(kr, material.albedo[2]);
    let reflect_color = if reflectivity > 0 {
        let rd = reflect(ray_direction, &intersect.normal).normalize();
        let ro = offset_origin(intersect, &rd);
        cast_ray(&ro, &rd, objects, lights, depth + 1, camera)
    } else {
        Color::green()
    };
    let transparency = fx_mul(fx_sub(ONE, kr), material.albedo[3]);
    let refract_color = if transparency > 0 {
        let td = refract(ray_direction, &intersect.normal, material.refractive_index);
        let to = offset_origin(intersect, &td);
        cast_ray(&to, &td, objects, lights, depth + 1, camera)
    } else {
        Color::green()
    };
    let w = fx_sub(fx_sub(ONE, reflectivity), transparency);
    let local = diffuse.add(&specular).scale(if w < 0 { 0 } else { w });
    local.add(&reflect_color.scale(reflectivity)).add(&refract_color.scale(transparency))
}

proof fn lemma_nearest_misses(objs: Seq<Cube>, n: int, o: Vec3, d: Vec3, eye: Vec3)
    requires
        forall|i: int| 0 <= i < objs.len() ==> !(#[trigger] objs[i].intersect_spec(o, d, eye)).is_intersecting,
    ensures
        !nearest(objs, n, o, d, eye).0.is_intersecting,
    decreases n,
{
    if n > 0 && n <= objs.len() {
        lemma_nearest_misses(objs, n - 1, o, d, eye);
        assert(!objs[n - 1].intersect_spec(o, d, eye).is_intersecting);
    }
}

/// A ray that meets no box shows the sky.
pub proof fn lemma_miss_is_sky(objs: Seq<Cube>, lights: Seq<Light>, o: Vec3, d: Vec3, depth: int, eye: Vec3)
    requires
        forall|i: int| 0 <= i < objs.len() ==> !(#[trigger] objs[i].intersect_spec(o, d, eye)).is_intersecting,
    ensures
        cast_ray_spec(objs, lights, o, d, depth, eye) == skybox_spec(),
{
    lemma_nearest_misses(objs, objs.len() as int, o, d, eye);
}

/// Recursion stops past depth 3: a ray cast at depth 4 or deeper shows the
/// sky whatever it would meet.
pub proof fn lemma_depth_cap(objs: Seq<Cube>, lights: Seq<Light>, o: Vec3, d: Vec3, depth: int, eye: Vec3)
    requires
        depth > 3,
    ensures
        cast_ray_spec(objs, lights, o, d, depth, eye) == skybox_spec(),
{
}

/// Past depth 3 no light is shaded, so no reflected or refracted ray is
/// cast from there: the recursion ends at depth 4 with the sky.
pub proof fn lemma_no_shading_past_cap(
    objs: Seq<Cube>,
    lights: Seq<Light>,
    n: int,
    hit: Intersect,
    m: Material,
    col: Color,
    o: Vec3,
    d: Vec3,
    depth: int,
    eye: Vec3,
)
    requires
        depth > 3,
    ensures
        light_sum(objs, lights, n, hit, m, col, o, d, depth, eye) == color_of(0, 0, 0),
        forall|l: Light| #[trigger] light_term(objs, lights, l, hit, m, col, o, d, depth, eye) == color_of(0, 0, 0),
{
}

proof fn lemma_shadow_from_clear(objs: Seq<Cube>, i: int, o: Vec3, d: Vec3, eye: Vec3, ld: int)
    requires
        0 <= i,
        forall|j: int| 0 <= j < objs.len() ==> !#[trigger] blocks(objs, j, o, d, eye, ld),
    ensures
        shadow_from(objs, i, o, d, eye, ld) == 0,
    decreases objs.len() - i,
{
    if i < objs.len() {
        assert(!blocks(objs, i, o, d, eye, ld));
        lemma_shadow_from_clear(objs, i + 1, o, d, eye, ld);
    }
}

proof fn lemma_shadow_from_first(objs: Seq<Cube>, i: int, k: int, o: Vec3, d: Vec3, eye: Vec3, ld: int)
    requires
        0 <= i <= k < objs.len(),
        blocks(objs, k, o, d, eye, ld),
        forall|j: int| 0 <= j < k ==> !#[trigger] blocks(objs, j, o, d, eye, ld),
    ensures
        shadow_from(objs, i, o, d, eye, ld) == attenuation(objs[k].intersect_spec(o, d, eye).distance as int, ld),
    decreases k - i,
{
    if i < k {
        assert(!blocks(objs, i, o, d, eye, ld));
        lemma_shadow_from_first(objs, i + 1, k, o, d, eye, ld);
    }
}

/// With nothing between the point and the light, the point is fully lit.
pub proof fn lemma_unshadowed(hit: Intersect, light: Light, objs: Seq<Cube>, eye: Vec3)
    requires
        forall|j: int| 0 <= j < objs.len() ==> !#[trigger] blocks(
            objs,
            j,
            offset_origin_spec(hit, normalize_spec(sub_v(light.position, hit.point))),
            normalize_spec(sub_v(light.position, hit.point)),
            eye,
            length_spec(sub_v(light.position, hit.point)),
        ),
    ensures
        shadow_spec(hit, light, objs, eye) == 0,
{
    let to_light = sub_v(light.position, hit.point);
    let dir = normalize_spec(to_light);
    lemma_shadow_from_clear(objs, 0, offset_origin_spec(hit, dir), dir, eye, length_spec(to_light));
}

/// An occluder at least a quarter of the way to the light, and short of it,
/// gives a soft shadow: strictly between none and full.
pub proof fn lemma_soft_shadow(objs: Seq<Cube>, k: int, o: Vec3, d: Vec3, eye: Vec3, ld: int)
    requires
        0 <= k < objs.len(),
        0 < ld <= LIMIT,
        blocks(objs, k, o, d, eye, ld),
        forall|j: int| 0 <= j < k ==> !#[trigger] blocks(objs, j, o, d, eye, ld),
        ld <= 4 * objs[k].intersect_spec(o, d, eye).distance,
    ensures
        0 < shadow_from(objs, 0, o, d, eye, ld) < ONE,
{
    lemma_shadow_from_first(objs, 0, k, o, d, eye, ld);
    let h = objs[k].intersect_spec(o, d, eye).distance as int;
    lemma_attenuation_soft(h, ld);
}

/// `1 - (h / ld)^2` lies strictly between 0 and 1 when `ld / 4 <= h < ld`.
pub proof fn lemma_attenuation_soft(h: int, ld: int)
    requires
        0 < ld <= LIMIT,
        0 <= h < ld,
        ld <= 4 * h,
    ensures
        0 < attenuation(h, ld) < ONE,
{
    let q = (h * 1048576) / ld;
    assert(262144 <= q < 1048576) by (nonlinear_arith)
        requires
            0 <= h < ld,
            ld <= 4 * h,
            q == (h * 1048576) / ld,
            ld > 0,
    ;
    assert(abs_int(h * 1048576) == h * 1048576);
    assert(tdiv(h * ONE, ld) == q);
    assert(div_spec(h, ld) == q);
    assert(68719476736 <= q * q < 1099511627776) by (nonlinear_arith)
        requires
            262144 <= q < 1048576,
    ;
    assert(abs_int(q * q) == q * q);
    assert(tdiv(q * q, ONE as int) == (q * q) / 1048576);
    assert(65536 <= (q * q) / 1048576 < 1048576);
}

/// An occluder exactly halfway to the light shades three quarters.
pub proof fn lemma_attenuation_halfway(h: int, ld: int)
    requires
        0 < ld <= LIMIT,
        2 * h == ld,
    ensures
        attenuation(h, ld) == 3 * ONE / 4,
{
    assert((h * 1048576) / ld == 524288) by (nonlinear_arith)
        requires
            2 * h == ld,
            ld > 0,
    ;
    assert(abs_int(h * 1048576) == h * 1048576);
    assert(tdiv(h * ONE, ld) == 524288);
    assert(abs_int(524288 * 524288int) == 524288 * 524288int);
    assert(abs_int(ONE as int) == ONE);
    assert(274877906944int / 1048576 == 262144);
    assert(tdiv(524288 * 524288int, ONE as int) == 262144);
}

} // verus!
