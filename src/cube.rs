use vstd::prelude::*;
use std::rc::Rc;
use crate::fixed::{abs_int, div_spec, fx_div, fx_sub, lemma_isqrt, mul_spec, sat, sqrt_spec, sub_spec, tdiv, LIMIT, ONE};
use crate::material::Material;
use crate::vector::{add_v, dot_spec, length_spec, normalize_spec, scale_v, sub_v, vec3, Vec3};

verus! {

/// How close a point must be to a face's plane to lie on it: under 1e-4 of a unit.
pub const FACE_EPSILON: i64 = 105;

/// Stands for an unbounded ray parameter; larger than any computed one.
pub const FAR: i64 = 0x7fff_ffff_ffff_ffff;

/// What a ray met: the point, the outward face normal, the ray parameter of the
/// point, the face index (0..6 for -x, +x, -y, +y, -z, +z) and the texture
/// coordinates on that face.
#[derive(Clone, Copy, Debug, PartialEq, Eq, Structural)]
pub struct Intersect {
    pub is_intersecting: bool,
    pub point: Vec3,
    pub normal: Vec3,
    pub distance: i64,
    pub face: usize,
    pub u: i64,
    pub v: i64,
}

pub open spec fn empty_spec() -> Intersect {
    Intersect {
        is_intersecting: false,
        point: vec3(0, 0, 0),
        normal: vec3(0, 0, 0),
        distance: FAR,
        face: 0,
        u: 0,
        v: 0,
    }
}

impl Intersect {
    /// The miss: not intersecting, at an unbounded distance.
    pub fn empty() -> (r: Intersect)
        ensures
            r == empty_spec(),
    {
        let z = Vec3::new(0, 0, 0);
        Intersect { is_intersecting: false, point: z, normal: z, distance: FAR, face: 0, u: 0, v: 0 }
    }
}

/// An axis-aligned box given by its center and half extents.
#[derive(Clone, Debug)]
pub struct Cube {
    pub center: Vec3,
    pub dim_x: i64,
    pub dim_y: i64,
    pub dim_z: i64,
    pub material: Rc<Material>,
}

/// The parameter interval on which a ray lies between two planes of one axis:
/// `(false, _, _)` when it never does (parallel and outside), unbounded when it
/// is parallel and inside.
pub open spec fn axis_span(o: int, d: int, mn: int, mx: int) -> (bool, int, int) {
    if d == 0 {
        if mn <= o && o <= mx { (true, -FAR, FAR as int) } else { (false, 0, 0) }
    } else {
        let a = div_spec(sub_spec(mn, o), d);
        let b = div_spec(sub_spec(mx, o), d);
        if a > b { (true, b, a) } else { (true, a, b) }
    }
}

/// The meet of a running interval with the interval of one more axis.
pub open spec fn clip(s: (bool, int, int), a: (bool, int, int)) -> (bool, int, int) {
    if !s.0 || !a.0 || s.1 > a.2 || a.1 > s.2 {
        (false, 0, 0)
    } else {
        (true, if a.1 > s.1 { a.1 } else { s.1 }, if a.2 < s.2 { a.2 } else { s.2 })
    }
}

/// The slab test: whether the ray's line meets the box, and where it enters.
pub open spec fn entry_spec(o: Vec3, d: Vec3, mn: Vec3, mx: Vec3) -> (bool, int, int) {
    let full = (true, -FAR, FAR as int);
    let sx = clip(full, axis_span(o.x as int, d.x as int, mn.x as int, mx.x as int));
    let sy = clip(sx, axis_span(o.y as int, d.y as int, mn.y as int, mx.y as int));
    clip(sy, axis_span(o.z as int, d.z as int, mn.z as int, mx.z as int))
}

pub open spec fn near(a: int, b: int) -> bool {
    abs_int(sub_spec(a, b)) < FACE_EPSILON
}

/// Whether `p` lies on face `i` of the box `[mn, mx]`.
pub open spec fn on_face(p: Vec3, mn: Vec3, mx: Vec3, i: int) -> bool {
    if i == 0 {
        near(p.x as int, mn.x as int)
    } else if i == 1 {
        near(p.x as int, mx.x as int)
    } else if i == 2 {
        near(p.y as int, mn.y as int)
    } else if i == 3 {
        near(p.y as int, mx.y as int)
    } else if i == 4 {
        near(p.z as int, mn.z as int)
    } else {
        near(p.z as int, mx.z as int)
    }
}

/// The first face, in the order -x, +x, -y, +y, -z, that `p` lies on; +z otherwise.
pub open spec fn face_spec(p: Vec3, mn: Vec3, mx: Vec3) -> int {
    if on_face(p, mn, mx, 0) {
        0
    } else if on_face(p, mn, mx, 1) {
        1
    } else if on_face(p, mn, mx, 2) {
        2
    } else if on_face(p, mn, mx, 3) {
        3
    } else if on_face(p, mn, mx, 4) {
        4
    } else {
        5
    }
}

pub open spec fn face_normal(i: int) -> Vec3 {
    if i == 0 {
        vec3(-ONE as int, 0, 0)
    } else if i == 1 {
        vec3(ONE as int, 0, 0)
    } else if i == 2 {
        vec3(0, -ONE as int, 0)
    } else if i == 3 {
        vec3(0, ONE as int, 0)
    } else if i == 4 {
        vec3(0, 0, -ONE as int)
    } else {
        vec3(0, 0, ONE as int)
    }
}

/// `a / b` in fixed point, and 0 on a flat extent.
pub open spec fn ratio(a: int, b: int) -> int {
    if b == 0 { 0 } else { div_spec(a, b) }
}

/// Texture coordinates of `p` on face `i`: the two other axes scaled to `[0, 1]`,
/// with the vertical axis flipped on some faces so that textures stand upright.
pub open spec fn uv_spec(p: Vec3, mn: Vec3, mx: Vec3, i: int) -> (int, int) {
    let ux = ratio(sub_spec(p.x as int, mn.x as int), sub_spec(mx.x as int, mn.x as int));
    let uz = ratio(sub_spec(p.z as int, mn.z as int), sub_spec(mx.z as int, mn.z as int));
    let vy = ratio(sub_spec(p.y as int, mn.y as int), sub_spec(mx.y as int, mn.y as int));
    let vy_flip = ratio(sub_spec(mx.y as int, p.y as int), sub_spec(mx.y as int, mn.y as int));
    let vz = ratio(sub_spec(p.z as int, mn.z as int), sub_spec(mx.z as int, mn.z as int));
    let vz_flip = ratio(sub_spec(mx.z as int, p.z as int), sub_spec(mx.z as int, mn.z as int));
    if i == 0 {
        (uz, vy)
    } else if i == 1 {
        (uz, vy_flip)
    } else if i == 2 {
        (ux, vz)
    } else if i == 3 {
        (ux, vz_flip)
    } else if i == 4 {
        (ux, vy)
    } else {
        (ux, vy_flip)
    }
}

/// A face is seen from `eye` when its normal points toward `eye`.
pub open spec fn visible_spec(normal: Vec3, eye: Vec3, p: Vec3) -> bool {
    dot_spec(normal, normalize_spec(sub_v(eye, p))) > 0
}

fn axis_span_exec(o: i64, d: i64, mn: i64, mx: i64) -> (r: (bool, i64, i64))
    ensures
        (r.0, r.1 as int, r.2 as int) == axis_span(o as int, d as int, mn as int, mx as int),
        r.1 == -FAR || -LIMIT <= r.1 <= LIMIT,
{
    if d == 0 {
        if mn <= o && o <= mx {
            (true, -FAR, FAR)
        } else {
            (false, 0, 0)
        }
    } else {
        let a = fx_div(fx_sub(mn, o), d);
        let b = fx_div(fx_sub(mx, o), d);
        if a > b {
            (true, b, a)
        } else {
            (true, a, b)
        }
    }
}

fn clip_exec(s: (bool, i64, i64), a: (bool, i64, i64)) -> (r: (bool, i64, i64))
    ensures
        (r.0, r.1 as int, r.2 as int) == clip((s.0, s.1 as int, s.2 as int), (a.0, a.1 as int, a.2 as int)),
        r.1 == s.1 || r.1 == a.1 || r.1 == 0,
{
    if !s.0 || !a.0 || s.1 > a.2 || a.1 > s.2 {
        (false, 0, 0)
    } else {
        (true, if a.1 > s.1 { a.1 } else { s.1 }, if a.2 < s.2 { a.2 } else { s.2 })
    }
}

fn near_exec(a: i64, b: i64) -> (r: bool)
    ensures
        r == near(a as int, b as int),
{
    let d = fx_sub(a, b);
    let m: i64 = if d < 0 { -d } else { d };
    m < FACE_EPSILON
}

fn ratio_exec(a: i64, b: i64) -> (r: i64)
    ensures
        r as int == ratio(a as int, b as int),
{
    if b == 0 { 0 } else { fx_div(a, b) }
}

impl Cube {
    /// Whether the face with normal `face_normal` at `intersection_point` faces `camera_position`.
    pub fn is_face_visible(&self, face_normal: &Vec3, camera_position: &Vec3, intersection_point: &Vec3) -> (r: bool)
        ensures
            r == visible_spec(*face_normal, *camera_position, *intersection_point),
    {
        let view_direction = camera_position.sub(intersection_point).normalize();
        face_normal.dot(&view_direction) > 0
    }

    /// The face that `point` lies on, the first in the fixed order, and its outward normal.
    pub fn calculate_normal_and_face_index(&self, point: &Vec3, min: &Vec3, max: &Vec3) -> (r: (Vec3, usize))
        ensures
            r.1 as int == face_spec(*point, *min, *max),
            r.0 == face_normal(r.1 as int),
            r.1 < 6,
            forall|i: int| 0 <= i < r.1 ==> !on_face(*point, *min, *max, i),
            r.1 < 5 ==> on_face(*point, *min, *max, r.1 as int),
    {
        if near_exec(point.x, min.x) {
            (Vec3::new(-ONE, 0, 0), 0)
        } else if near_exec(point.x, max.x) {
            (Vec3::new(ONE, 0, 0), 1)
        } else if near_exec(point.y, min.y) {
            (Vec3::new(0, -ONE, 0), 2)
        } else if near_exec(point.y, max.y) {
            (Vec3::new(0, ONE, 0), 3)
        } else if near_exec(point.z, min.z) {
            (Vec3::new(0, 0, -ONE), 4)
        } else {
            (Vec3::new(0, 0, ONE), 5)
        }
    }

    /// Texture coordinates of `point` on face `face`.
    pub fn get_texture_coordinates(&self, face: usize, point: &Vec3, min: &Vec3, max: &Vec3) -> (r: (i64, i64))
        ensures
            (r.0 as int, r.1 as int) == uv_spec(*point, *min, *max, face as int),
    {
        let ux = ratio_exec(fx_sub(point.x, min.x), fx_sub(max.x, min.x));
        let uz = ratio_exec(fx_sub(point.z, min.z), fx_sub(max.z, min.z));
        if face == 0 {
            (uz, ratio_exec(fx_sub(point.y, min.y), fx_sub(max.y, min.y)))
        } else if face == 1 {
            (uz, ratio_exec(fx_sub(max.y, point.y), fx_sub(max.y, min.y)))
        } else if face == 2 {
            (ux, ratio_exec(fx_sub(point.z, min.z), fx_sub(max.z, min.z)))
        } else if face == 3 {
            (ux, ratio_exec(fx_sub(max.z, point.z), fx_sub(max.z, min.z)))
        } else if face == 4 {
            (ux, ratio_exec(fx_sub(point.y, min.y), fx_sub(max.y, min.y)))
        } else {
            (ux, ratio_exec(fx_sub(max.y, point.y), fx_sub(max.y, min.y)))
        }
    }

    /// Intersect the ray from `ray_origin` along `ray_direction` with this box,
    /// keeping only faces turned toward `camera_position`.
    pub fn ray_intersect(&self, ray_origin: &Vec3, ray_direction: &Vec3, camera_position: &Vec3) -> (r: Intersect)
        ensures
            r == self.intersect_spec(*ray_origin, *ray_direction, *camera_position),
            r.is_intersecting ==> 0 <= r.distance <= LIMIT && r.face < 6,
    {
        reveal(Cube::intersect_spec);
        let dims = Vec3::new(self.dim_x, self.dim_y, self.dim_z);
        let min = self.center.sub(&dims);
        let max = self.center.add(&dims);
        let sx = clip_exec((true, -FAR, FAR), axis_span_exec(ray_origin.x, ray_direction.x, min.x, max.x));
        let sy = clip_exec(sx, axis_span_exec(ray_origin.y, ray_direction.y, min.y, max.y));
        let s = clip_exec(sy, axis_span_exec(ray_origin.z, ray_direction.z, min.z, max.z));
        if !s.0 || s.1 < 0 {
            return Intersect::empty();
        }
        let t_min = s.1;
        let point = ray_origin.add(&ray_direction.scale(t_min));
        let (normal, face_index) = self.calculate_normal_and_face_index(&point, &min, &max);
        if !self.is_face_visible(&normal, camera_position, &point) {
            return Intersect::empty();
        }
        let (u, v) = self.get_texture_coordinates(face_index, &point, &min, &max);
        Intersect { is_intersecting: true, point, normal, distance: t_min, face: face_index, u, v }
    }

    pub open spec fn min_corner(&self) -> Vec3 {
        sub_v(self.center, vec3(self.dim_x as int, self.dim_y as int, self.dim_z as int))
    }

    pub open spec fn max_corner(&self) -> Vec3 {
        add_v(self.center, vec3(self.dim_x as int, self.dim_y as int, self.dim_z as int))
    }

    /// Where the ray from `o` along `d` first meets this box, seen from `eye`:
    /// a miss when the line misses the box, when the box's entry lies behind
    /// `o`, or when the face there turns away from `eye`.
    #[verifier::opaque]
    pub open spec fn intersect_spec(&self, o: Vec3, d: Vec3, eye: Vec3) -> Intersect {
        let mn = self.min_corner();
        let mx = self.max_corner();
        let s = entry_spec(o, d, mn, mx);
        if !s.0 || s.1 < 0 {
            empty_spec()
        } else {
            let p = add_v(o, scale_v(d, s.1));
            let f = face_spec(p, mn, mx);
            let n = face_normal(f);
            if !visible_spec(n, eye, p) {
                empty_spec()
            } else {
                let uv = uv_spec(p, mn, mx, f);
                Intersect {
                    is_intersecting: true,
                    point: p,
                    normal: n,
                    distance: s.1 as i64,
                    face: f as usize,
                    u: uv.0 as i64,
                    v: uv.1 as i64,
                }
            }
        }
    }
}

/// Faces are tried in a fixed order: a point that lies on several faces
/// (an edge or a corner) is given the earliest of them.
pub proof fn lemma_face_order(p: Vec3, mn: Vec3, mx: Vec3, i: int)
    requires
        0 <= i < 6,
        on_face(p, mn, mx, i),
    ensures
        face_spec(p, mn, mx) <= i,
        on_face(p, mn, mx, face_spec(p, mn, mx)),
        forall|j: int| 0 <= j < face_spec(p, mn, mx) ==> !on_face(p, mn, mx, j),
{
}

/// Coordinate `k` (0, 1, 2 for x, y, z) of `v`.
pub open spec fn comp(v: Vec3, k: int) -> int {
    if k == 0 { v.x as int } else if k == 1 { v.y as int } else { v.z as int }
}

/// The unit vector along axis `k`, pointing the way of the sign `s`.
pub open spec fn axis_dir(k: int, s: int) -> Vec3 {
    vec3(
        if k == 0 { s * ONE } else { 0 },
        if k == 1 { s * ONE } else { 0 },
        if k == 2 { s * ONE } else { 0 },
    )
}

/// Bound under which box and ray coordinates never saturate.
pub open spec fn modest(v: int) -> bool {
    -0x40_0000_0000 <= v <= 0x40_0000_0000
}

proof fn lemma_unit_mul(d: int, t: int)
    requires
        d == ONE || d == -ONE || d == 0,
        -LIMIT <= t <= LIMIT,
    ensures
        mul_spec(d, t) == (if d == ONE { t } else if d == -ONE { -t } else { 0 }),
        mul_spec(t, d) == (if d == ONE { t } else if d == -ONE { -t } else { 0 }),
{
    assert(abs_int(ONE as int) == ONE);
    assert((t * ONE) / (ONE as int) == t && ((-t) * ONE) / (ONE as int) == -t) by (nonlinear_arith);
    assert(abs_int(t * ONE) == abs_int(t) * ONE && abs_int(-t * ONE) == abs_int(t) * ONE) by (nonlinear_arith);
    assert((abs_int(t) * ONE) / (ONE as int) == abs_int(t)) by (nonlinear_arith);
    assert(t * (-ONE) == -(t * ONE) && (-ONE) * t == -(t * ONE) && ONE * t == t * ONE) by (nonlinear_arith);
}

proof fn lemma_span_axis(o: int, d: int, mn: int, mx: int)
    requires
        modest(o),
        modest(mn),
        modest(mx),
        mn < mx,
        d == ONE || d == -ONE || d == 0,
        d == 0 ==> mn <= o <= mx,
        d == ONE ==> o < mn,
        d == -ONE ==> o > mx,
    ensures
        d == 0 ==> axis_span(o, d, mn, mx) == (true, -FAR, FAR as int),
        d == ONE ==> axis_span(o, d, mn, mx) == (true, mn - o, mx - o),
        d == -ONE ==> axis_span(o, d, mn, mx) == (true, o - mx, o - mn),
{
    if d != 0 {
        assert(abs_int(mn - o) * ONE / (ONE as int) == abs_int(mn - o)) by (nonlinear_arith);
        assert(abs_int(mx - o) * ONE / (ONE as int) == abs_int(mx - o)) by (nonlinear_arith);
        assert(abs_int((mn - o) * ONE) == abs_int(mn - o) * ONE) by (nonlinear_arith);
        assert(abs_int((mx - o) * ONE) == abs_int(mx - o) * ONE) by (nonlinear_arith);
        assert(((mn - o) * ONE < 0) == (mn - o < 0)) by (nonlinear_arith);
        assert(((mx - o) * ONE < 0) == (mx - o < 0)) by (nonlinear_arith);
        assert(abs_int(d) == ONE);
    }
}

proof fn lemma_normalize_single(a: int)
    requires
        a != 0,
        -LIMIT <= a <= LIMIT,
    ensures
        ({
            let len = sqrt_spec(mul_spec(a, a));
            &&& len >= 0
            &&& len == 0 || (div_spec(0, len) == 0 && (a > 0 ==> div_spec(a, len) >= 1) && (a < 0
                ==> div_spec(a, len) <= -1) && -LIMIT <= div_spec(a, len) <= LIMIT)
        }),
{
    let aa = abs_int(a);
    assert(a * a == aa * aa && aa * aa > 0) by (nonlinear_arith)
        requires
            aa == abs_int(a),
            a != 0,
    ;
    assert(abs_int(a * a) == a * a);
    assert(0 <= (a * a) / (ONE as int) <= a * a) by (nonlinear_arith)
        requires
            a * a > 0,
    ;
    let dd = mul_spec(a, a);
    assert(0 <= dd <= (a * a) / (ONE as int));
    assert(dd * ONE <= a * a) by (nonlinear_arith)
        requires
            0 <= dd <= (a * a) / 1048576,
            a * a > 0,
    ;
    if dd > 0 {
        lemma_isqrt((dd * ONE) as nat);
        let len = sqrt_spec(dd);
        assert(len <= aa) by (nonlinear_arith)
            requires
                len >= 0,
                len * len <= dd * ONE,
                dd * ONE <= aa * aa,
                aa > 0,
        ;
        assert(len > 0) by (nonlinear_arith)
            requires
                dd * ONE < (len + 1) * (len + 1),
                dd >= 1,
                len >= 0,
        ;
        assert(abs_int(a * ONE) == aa * ONE) by (nonlinear_arith)
            requires
                aa == abs_int(a),
        ;
        assert((aa * ONE) / len >= ONE) by (nonlinear_arith)
            requires
                0 < len <= aa,
        ;
        assert((a * ONE < 0) == (a < 0)) by (nonlinear_arith);
        assert(abs_int(0int * ONE) == 0);
    }
}

/// A ray along an axis (`k` = 0, 1, 2 for x, y, z; `s` = 1 or -1 for its
/// sign), from an origin outside the box on that axis and at least the face
/// tolerance inside the box's extents on the two others, seen from its own
/// origin, meets the face turned toward it: at the distance from the origin
/// to that face's plane, with the normal opposite to the ray.
pub proof fn lemma_axis_hit(c: Cube, o: Vec3, k: int, s: int)
    requires
        0 <= k < 3,
        s == 1 || s == -1,
        FACE_EPSILON <= c.dim_x <= 0x10_0000_0000,
        FACE_EPSILON <= c.dim_y <= 0x10_0000_0000,
        FACE_EPSILON <= c.dim_z <= 0x10_0000_0000,
        modest(2 * c.center.x),
        modest(2 * c.center.y),
        modest(2 * c.center.z),
        modest(o.x as int),
        modest(o.y as int),
        modest(o.z as int),
        forall|j: int|
            0 <= j < 3 && j != k ==> comp(c.min_corner(), j) + FACE_EPSILON <= #[trigger] comp(o, j)
                <= comp(c.max_corner(), j) - FACE_EPSILON,
        s == 1 ==> comp(o, k) < comp(c.min_corner(), k),
        s == -1 ==> comp(o, k) > comp(c.max_corner(), k),
    ensures
        c.intersect_spec(o, axis_dir(k, s), o).is_intersecting,
        c.intersect_spec(o, axis_dir(k, s), o).distance == (if s == 1 {
            comp(c.min_corner(), k) - comp(o, k)
        } else {
            comp(o, k) - comp(c.max_corner(), k)
        }),
        c.intersect_spec(o, axis_dir(k, s), o).normal == axis_dir(k, -s),
        c.intersect_spec(o, axis_dir(k, s), o).face == 2 * k + (if s == 1 { 0int } else { 1 }),
{
    reveal(Cube::intersect_spec);
    let d = axis_dir(k, s);
    let mn = c.min_corner();
    let mx = c.max_corner();
    assert(mn.x == c.center.x - c.dim_x && mn.y == c.center.y - c.dim_y && mn.z == c.center.z - c.dim_z);
    assert(mx.x == c.center.x + c.dim_x && mx.y == c.center.y + c.dim_y && mx.z == c.center.z + c.dim_z);
    assert(comp(o, 0) == o.x && comp(o, 1) == o.y && comp(o, 2) == o.z);
    assert(comp(mn, 0) == mn.x && comp(mn, 1) == mn.y && comp(mn, 2) == mn.z);
    assert(comp(mx, 0) == mx.x && comp(mx, 1) == mx.y && comp(mx, 2) == mx.z);
    lemma_span_axis(o.x as int, d.x as int, mn.x as int, mx.x as int);
    lemma_span_axis(o.y as int, d.y as int, mn.y as int, mx.y as int);
    lemma_span_axis(o.z as int, d.z as int, mn.z as int, mx.z as int);
    let t = if s == 1 { comp(mn, k) - comp(o, k) } else { comp(o, k) - comp(mx, k) };
    let e = entry_spec(o, d, mn, mx);
    assert(e.0 && e.1 == t);
    lemma_unit_mul(d.x as int, t);
    lemma_unit_mul(d.y as int, t);
    lemma_unit_mul(d.z as int, t);
    let p = add_v(o, scale_v(d, t));
    assert(comp(p, k) == (if s == 1 { comp(mn, k) } else { comp(mx, k) }));
    assert(forall|j: int| 0 <= j < 3 && j != k ==> comp(p, j) == comp(o, j));
    let f = face_spec(p, mn, mx);
    assert(f == 2 * k + (if s == 1 { 0int } else { 1 }));
    let v = sub_v(o, p);
    assert(comp(v, k) == -s * t);
    assert(forall|j: int| 0 <= j < 3 && j != k ==> comp(v, j) == 0);
    assert(v == vec3(if k == 0 { -s * t } else { 0 }, if k == 1 { -s * t } else { 0 }, if k == 2 { -s * t } else { 0 }));
    lemma_normalize_single(-s * t);
    assert(mul_spec(0, 0) == 0);
    let nv = normalize_spec(v);
    assert(forall|j: int| 0 <= j < 3 && j != k ==> comp(nv, j) == 0);
    assert(s == 1 ==> comp(nv, k) <= -1);
    assert(s == -1 ==> comp(nv, k) >= 1);
    let n = face_normal(f);
    assert(n == axis_dir(k, -s));
    lemma_unit_mul(n.x as int, nv.x as int);
    lemma_unit_mul(n.y as int, nv.y as int);
    lemma_unit_mul(n.z as int, nv.z as int);
    assert(dot_spec(n, nv) > 0);
}

} // verus!
