use refractor::{
    cast_ray, cast_shadow, fresnel, fx_add, fx_div, fx_mul, fx_pow, fx_sqrt, fx_sub, offset_origin, reflect,
    refract, render, Camera, Color, Cube, DayPhase, Framebuffer, Intersect, Light, Material, Texture, Vec3,
    LIMIT, ONE,
};
use std::rc::Rc;

fn plain(albedo: [i64; 4], refractive_index: i64) -> Rc<Material> {
    Rc::new(Material::new(
        Color::new(200, 100, 50),
        10,
        albedo,
        refractive_index,
        [None, None, None, None, None, None],
        None,
    ))
}

fn unit_box(x: i64, y: i64, z: i64, m: &Rc<Material>) -> Cube {
    Cube { center: Vec3::new(x * ONE, y * ONE, z * ONE), dim_x: ONE, dim_y: ONE, dim_z: ONE, material: Rc::clone(m) }
}

fn camera_at(eye: Vec3) -> Camera {
    Camera::new(eye, Vec3::new(0, 0, 0), Vec3::new(0, ONE, 0))
}

#[test]
fn fixed_point_arithmetic() {
    assert_eq!(ONE, 1048576);
    assert_eq!(fx_add(ONE, ONE / 2), 3 * ONE / 2);
    assert_eq!(fx_sub(ONE, 3 * ONE), -2 * ONE);
    assert_eq!(fx_mul(3 * ONE / 2, 2 * ONE), 3 * ONE);
    assert_eq!(fx_mul(-3 * ONE / 2, 2 * ONE), -3 * ONE);
    assert_eq!(fx_div(ONE, 3 * ONE), 349525);
    assert_eq!(fx_div(-ONE, 3 * ONE), -349525);
    assert_eq!(fx_sqrt(4 * ONE), 2 * ONE);
    assert_eq!(fx_sqrt(2 * ONE), 1482910);
    assert_eq!(fx_sqrt(-5), 0);
    assert_eq!(fx_add(LIMIT, LIMIT), LIMIT);
    assert_eq!(fx_mul(LIMIT, -LIMIT), -LIMIT);
    assert_eq!(fx_pow(ONE / 2, 3), ONE / 8);
    assert_eq!(fx_pow(777, 0), ONE);
}

#[test]
fn vector_operations() {
    let v = Vec3::new(3 * ONE, 0, 4 * ONE);
    assert_eq!(v.length(), 5 * ONE);
    assert_eq!(v.normalize(), Vec3::new(629145, 0, 838860));
    assert_eq!(Vec3::new(0, 0, 0).normalize(), Vec3::new(0, 0, 0));
    let x = Vec3::new(ONE, 0, 0);
    let y = Vec3::new(0, ONE, 0);
    assert_eq!(x.cross(&y), Vec3::new(0, 0, ONE));
    assert_eq!(x.dot(&y), 0);
    assert_eq!(v.dot(&v), 25 * ONE);
}

#[test]
fn axis_aligned_ray_hits_face_at_distance() {
    let m = plain([ONE, 0, 0, 0], 0);
    let cube = unit_box(0, 0, 0, &m);
    let origin = Vec3::new(-5 * ONE, 0, 0);
    let hit = cube.ray_intersect(&origin, &Vec3::new(ONE, 0, 0), &origin);
    assert!(hit.is_intersecting);
    assert_eq!(hit.distance, 4 * ONE);
    assert_eq!(hit.normal, Vec3::new(-ONE, 0, 0));
    assert_eq!(hit.face, 0);
    assert_eq!(hit.point, Vec3::new(-ONE, 0, 0));
    assert_eq!((hit.u, hit.v), (ONE / 2, ONE / 2));

    let above = Vec3::new(0, 7 * ONE, 0);
    let top = cube.ray_intersect(&above, &Vec3::new(0, -ONE, 0), &above);
    assert!(top.is_intersecting);
    assert_eq!(top.distance, 6 * ONE);
    assert_eq!(top.normal, Vec3::new(0, ONE, 0));
    assert_eq!(top.face, 3);
}

#[test]
fn box_behind_or_beside_the_ray_is_missed() {
    let m = plain([ONE, 0, 0, 0], 0);
    let cube = unit_box(0, 0, 0, &m);
    let origin = Vec3::new(-5 * ONE, 0, 0);
    let away = cube.ray_intersect(&origin, &Vec3::new(-ONE, 0, 0), &origin);
    assert!(!away.is_intersecting);
    assert_eq!(away, Intersect::empty());
    let beside = Vec3::new(-5 * ONE, 3 * ONE, 0);
    assert!(!cube.ray_intersect(&beside, &Vec3::new(ONE, 0, 0), &beside).is_intersecting);
    let inside = Vec3::new(0, 0, 0);
    assert!(!cube.ray_intersect(&inside, &Vec3::new(ONE, 0, 0), &inside).is_intersecting);
}

#[test]
fn face_turned_from_viewer_is_culled() {
    let m = plain([ONE, 0, 0, 0], 0);
    let cube = unit_box(0, 0, 0, &m);
    let origin = Vec3::new(-5 * ONE, 0, 0);
    let viewer_behind = Vec3::new(9 * ONE, 0, 0);
    assert!(!cube.ray_intersect(&origin, &Vec3::new(ONE, 0, 0), &viewer_behind).is_intersecting);
    assert!(!cube.is_face_visible(&Vec3::new(-ONE, 0, 0), &viewer_behind, &Vec3::new(-ONE, 0, 0)));
    assert!(cube.is_face_visible(&Vec3::new(-ONE, 0, 0), &origin, &Vec3::new(-ONE, 0, 0)));
}

#[test]
fn edge_point_takes_earliest_face() {
    let m = plain([ONE, 0, 0, 0], 0);
    let cube = unit_box(0, 0, 0, &m);
    let min = Vec3::new(-ONE, -ONE, -ONE);
    let max = Vec3::new(ONE, ONE, ONE);
    let edge = Vec3::new(-ONE, -ONE, 0);
    assert_eq!(cube.calculate_normal_and_face_index(&edge, &min, &max), (Vec3::new(-ONE, 0, 0), 0));
    let edge2 = Vec3::new(ONE, ONE, 0);
    assert_eq!(cube.calculate_normal_and_face_index(&edge2, &min, &max), (Vec3::new(ONE, 0, 0), 1));
    let corner = Vec3::new(0, ONE, ONE);
    assert_eq!(cube.calculate_normal_and_face_index(&corner, &min, &max).1, 3);
    let near_edge = Vec3::new(-ONE + 3, -ONE + 5, 0);
    assert_eq!(cube.calculate_normal_and_face_index(&near_edge, &min, &max).1, 0);
    let near_top = Vec3::new(-ONE + 3 * 1024, ONE, 0);
    assert_eq!(cube.calculate_normal_and_face_index(&near_top, &min, &max), (Vec3::new(0, ONE, 0), 3));
    let just_inside = Vec3::new(-ONE + 104, ONE, 0);
    assert_eq!(cube.calculate_normal_and_face_index(&just_inside, &min, &max).1, 0);
    let just_outside = Vec3::new(-ONE + 105, ONE, 0);
    assert_eq!(cube.calculate_normal_and_face_index(&just_outside, &min, &max).1, 3);
    for _ in 0..3 {
        assert_eq!(cube.calculate_normal_and_face_index(&edge, &min, &max).1, 0);
    }
    let diagonal = Vec3::new(-5 * ONE, -5 * ONE, 0);
    let hit = cube.ray_intersect(&diagonal, &Vec3::new(741455, 741455, 0), &diagonal);
    assert!(hit.is_intersecting);
    assert_eq!(hit.face, 0);
}

#[test]
fn texture_coordinates_per_face() {
    let m = plain([ONE, 0, 0, 0], 0);
    let cube = unit_box(0, 0, 0, &m);
    let min = Vec3::new(-ONE, -ONE, -ONE);
    let max = Vec3::new(ONE, ONE, ONE);
    let p = Vec3::new(ONE, ONE / 2, -ONE / 2);
    assert_eq!(cube.get_texture_coordinates(1, &p, &min, &max), (ONE / 4, ONE / 4));
    assert_eq!(cube.get_texture_coordinates(0, &p, &min, &max), (ONE / 4, 3 * ONE / 4));
}

#[test]
fn miss_shows_the_sky() {
    let m = plain([ONE, 0, 0, 0], 0);
    let objects = vec![unit_box(0, 0, 0, &m), unit_box(4, 0, 0, &m)];
    let lights = vec![Light::new(Vec3::new(0, 10 * ONE, 0), Color::new(255, 255, 255), ONE)];
    let origin = Vec3::new(-5 * ONE, 0, 0);
    let cam = camera_at(origin);
    let c = cast_ray(&origin, &Vec3::new(-ONE, 0, 0), &objects, &lights, 0, &cam);
    assert_eq!(c, Color::skybox());
    assert_eq!(Color::skybox(), Color::new(68, 142, 228));
}

#[test]
fn depth_past_three_shows_the_sky() {
    let mirror = plain([0, 0, ONE, 0], 0);
    let objects = vec![unit_box(0, 0, 0, &mirror)];
    let lights = vec![Light::new(Vec3::new(-5 * ONE, 5 * ONE, 0), Color::new(255, 255, 255), ONE)];
    let origin = Vec3::new(-5 * ONE, 0, 0);
    let cam = camera_at(origin);
    let dir = Vec3::new(ONE, 0, 0);
    assert_eq!(cast_ray(&origin, &dir, &objects, &lights, 4, &cam), Color::skybox());
    assert_eq!(cast_ray(&origin, &dir, &objects, &lights, 9, &cam), Color::skybox());
    let hit = cast_ray(&origin, &dir, &objects, &lights, 0, &cam);
    assert_ne!(hit, Color::black());
}

#[test]
fn facing_mirrors_terminate() {
    let mirror = plain([0, 0, ONE, 0], 0);
    let objects = vec![unit_box(-3, 0, 0, &mirror), unit_box(3, 0, 0, &mirror)];
    let lights = vec![Light::new(Vec3::new(0, 5 * ONE, 0), Color::new(255, 255, 255), ONE)];
    let origin = Vec3::new(0, 0, 0);
    let cam = camera_at(Vec3::new(0, 0, 0));
    let c = cast_ray(&origin, &Vec3::new(ONE, 0, 0), &objects, &lights, 0, &cam);
    let again = cast_ray(&origin, &Vec3::new(ONE, 0, 0), &objects, &lights, 0, &cam);
    assert_eq!(c, again);
}

#[test]
fn shadow_is_zero_without_occluder_and_soft_with_one() {
    let m = plain([ONE, 0, 0, 0], 0);
    let floor_point = Intersect {
        is_intersecting: true,
        point: Vec3::new(0, 0, 0),
        normal: Vec3::new(0, ONE, 0),
        distance: 0,
        face: 3,
        u: 0,
        v: 0,
    };
    let light = Light::new(Vec3::new(0, 10 * ONE, 0), Color::new(255, 255, 255), ONE);
    let eye = Vec3::new(0, -20 * ONE, 0);
    let cam = Camera::new(eye, Vec3::new(0, 0, 0), Vec3::new(0, 0, -ONE));
    let clear = vec![unit_box(8, 5, 0, &m)];
    assert_eq!(cast_shadow(&floor_point, &light, &clear, &cam), 0);
    let blocked = vec![unit_box(0, 5, 0, &m)];
    let s = cast_shadow(&floor_point, &light, &blocked, &cam);
    assert!(s > 0 && s < ONE, "{}", s);
    assert_eq!(cast_shadow(&floor_point, &light, &[], &cam), 0);
}

#[test]
fn halfway_occluder_shadows_three_quarters() {
    let m = Rc::new(Material::black());
    let point = Intersect {
        is_intersecting: true,
        point: Vec3::new(0, 0, 0),
        normal: Vec3::new(0, ONE, 0),
        distance: ONE,
        face: 3,
        u: 0,
        v: 0,
    };
    let light = Light::new(Vec3::new(0, 10 * ONE, 0), Color::new(255, 255, 255), ONE);
    let objects = vec![unit_box(0, 6, 0, &m)];
    let cam = Camera::new(Vec3::new(0, 0, 10 * ONE), Vec3::new(0, 0, 0), Vec3::new(0, ONE, 0));
    let s = cast_shadow(&point, &light, &objects, &cam) as f64 / ONE as f64;
    assert!((s - 0.75).abs() < 1e-3 && 0.0 < s && s < 1.0, "{}", s);
}

#[test]
fn fresnel_total_internal_reflection() {
    let n = Vec3::new(0, ONE, 0);
    let leaving = Vec3::new(1023 * 1024, 40 * 1024, 0).normalize();
    let entering = Vec3::new(1023 * 1024, -40 * 1024, 0).normalize();
    let kr = fresnel(&entering, &n, 3 * ONE / 2);
    assert_eq!(fresnel(&leaving, &n, 3 * ONE / 2), ONE);
    assert_eq!(fresnel(&entering, &n, ONE / 2), ONE);
    assert!(kr < ONE && kr > 0);
    let head_on = Vec3::new(0, -ONE, 0);
    let k0 = fresnel(&head_on, &n, 3 * ONE / 2) as f64 / ONE as f64;
    assert!((k0 - 0.04).abs() < 1e-3, "{}", k0);
}

#[test]
fn reflection_and_refraction_directions() {
    let n = Vec3::new(0, ONE, 0);
    let i = Vec3::new(741455, -741455, 0);
    assert_eq!(reflect(&i, &n), Vec3::new(741455, 741455, 0));
    let straight = refract(&Vec3::new(0, -ONE, 0), &n, ONE);
    assert_eq!(straight, Vec3::new(0, -ONE, 0));
    let bent = refract(&i, &n, 3 * ONE / 2);
    assert!(bent.x < 741455 && bent.x > 400 * 1024 && bent.y < 0, "{:?}", bent);
    let inside = Vec3::new(1023 * 1024, 40 * 1024, 0).normalize();
    let trapped = refract(&inside, &n, 3 * ONE / 2);
    assert_eq!(trapped, reflect(&inside, &Vec3::new(0, -ONE, 0)));
}

#[test]
fn secondary_rays_start_off_the_surface() {
    let hit = Intersect {
        is_intersecting: true,
        point: Vec3::new(0, 0, 0),
        normal: Vec3::new(0, ONE, 0),
        distance: 0,
        face: 3,
        u: 0,
        v: 0,
    };
    assert_eq!(offset_origin(&hit, &Vec3::new(0, ONE, 0)), Vec3::new(0, 105, 0));
    assert_eq!(offset_origin(&hit, &Vec3::new(0, -ONE, 0)), Vec3::new(0, -105, 0));
}

#[test]
fn lit_surface_color() {
    let m = plain([ONE, 0, 0, 0], 0);
    let objects = vec![unit_box(0, 0, 0, &m)];
    let lights = vec![Light::new(Vec3::new(-5 * ONE, 0, 0), Color::new(255, 255, 255), ONE)];
    let origin = Vec3::new(-5 * ONE, 0, 0);
    let cam = camera_at(origin);
    let c = cast_ray(&origin, &Vec3::new(ONE, 0, 0), &objects, &lights, 0, &cam);
    assert_eq!(c, Color::new(200, 100, 50));
    assert_eq!(c.to_hex(), 0xc86432);
}

#[test]
fn color_packing_clamps() {
    assert_eq!(Color::new(1, 2, 3).to_hex(), 0x010203);
    let bright = Color::new(200, 10, 0).scale(2 * ONE);
    assert_eq!(bright.to_hex(), 0xff1400);
    let dark = Color { r: -ONE, g: 0, b: 0 };
    assert_eq!(dark.to_hex(), 0);
    assert_eq!(Color::new(10, 20, 30).add(&Color::new(1, 2, 3)), Color::new(11, 22, 33));
}

#[test]
fn textures_and_materials() {
    assert!(Texture::from_rgba(0, 2, vec![]).is_none());
    assert!(Texture::from_rgba(2, 1, vec![0; 7]).is_none());
    let mut data = vec![0u8; 16];
    data[12] = 9;
    data[13] = 8;
    data[14] = 7;
    data[15] = 6;
    let t = Texture::from_rgba(2, 2, data).unwrap();
    assert_eq!(t.get_pixel(1, 1), [9, 8, 7, 6]);
    assert_eq!(t.get_pixel(0, 0), [0, 0, 0, 0]);
    let m = Material::new(
        Color::new(1, 1, 1),
        0,
        [ONE, 0, 0, 0],
        0,
        [Some(t), None, None, None, None, None],
        None,
    );
    assert_eq!(m.surface_color(0, ONE, ONE), Color::new(9, 8, 7));
    assert_eq!(m.surface_color(0, 0, 0), Color::new(0, 0, 0));
    assert_eq!(m.surface_color(1, 0, 0), Color::new(1, 1, 1));
    let n = Vec3::new(ONE, 0, 0);
    assert_eq!(m.shading_normal(&n, 0, 0), n);
    let flat = Texture::from_rgba(1, 1, vec![128, 128, 255, 255]).unwrap();
    let bumpy = Material::new(Color::new(1, 1, 1), 0, [ONE, 0, 0, 0], 0,
        [None, None, None, None, None, None], Some(flat));
    let turned = bumpy.shading_normal(&n, 0, 0);
    assert!(turned.x > ONE * 99 / 100 && turned.x <= ONE, "{:?}", turned);
    let b = Material::black();
    assert_eq!(b.diffuse, Color::black());
    assert_eq!(b.albedo, [0, 0, 0, 0]);
}

#[test]
fn day_phases_and_orbit() {
    let mut sun = Light::new(Vec3::new(0, 30 * ONE, 0), Color::new(255, 255, 224), 2 * ONE);
    assert_eq!(sun.light_condition(), DayPhase::Day);
    sun.update_position_orbit(Vec3::new(0, 0, 0), 40 * ONE, ONE, 0);
    assert_eq!(sun.position, Vec3::new(40 * ONE, 0, 0));
    assert_eq!(sun.light_condition(), DayPhase::Sunrise);
    sun.update_position_orbit(Vec3::new(0, 0, 0), 40 * ONE, -ONE, 0);
    assert_eq!(sun.light_condition(), DayPhase::Sunset);
    sun.update_position_orbit(Vec3::new(0, 0, 0), 40 * ONE, 0, -ONE);
    assert_eq!(sun.position, Vec3::new(0, -40 * ONE, 0));
    assert_eq!(sun.light_condition(), DayPhase::Night);
}

#[test]
fn rendering_twice_gives_the_same_frame() {
    let m = plain([ONE, ONE / 2, 0, 0], 0);
    let glass = plain([0, 0, ONE / 4, 3 * ONE / 4], 3 * ONE / 2);
    let objects = vec![unit_box(0, 0, 0, &m), unit_box(2, 0, 1, &glass)];
    let lights = vec![Light::new(Vec3::new(0, 10 * ONE, 10 * ONE), Color::new(255, 255, 255), ONE)];
    let cam = Camera::new(Vec3::new(0, 2 * ONE, 10 * ONE), Vec3::new(0, 0, 0), Vec3::new(0, ONE, 0));
    let mut a = Framebuffer::new(8, 6);
    let mut b = Framebuffer::new(8, 6);
    b.set_current_color(0x123456);
    b.point(3, 3);
    render(&mut a, &objects, &cam, &lights);
    render(&mut b, &objects, &cam, &lights);
    assert_eq!(a.buffer, b.buffer);
    assert_eq!(a.buffer.len(), 48);
    assert!(a.buffer.iter().any(|&p| p != 0x448ee4));
    assert!(a.buffer.iter().any(|&p| p == 0x448ee4));
}

#[test]
fn framebuffer_points() {
    let mut f = Framebuffer::new(3, 2);
    f.set_current_color(7);
    f.point(2, 1);
    f.point(3, 0);
    assert_eq!(f.buffer, vec![0, 0, 0, 0, 0, 7]);
}
