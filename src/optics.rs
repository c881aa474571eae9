use vstd::prelude::*;
use crate::cube::{ratio, Intersect};
use crate::fixed::{
    abs_int, isqrt, lemma_isqrt, sat, add_spec, div_spec, fx_add, fx_div, fx_mul, fx_sqrt, fx_sub, mul_spec, sqrt_spec, sub_spec, tdiv,
    LIMIT, ONE,
};
use crate::vector::{add_v, dot_spec, neg_v, scale_v, sub_v, Vec3};

verus! {

/// How far a secondary ray starts off the surface, along the normal: about 1e-4 of a unit.
pub const ORIGIN_BIAS: i64 = 105;

/// One half in fixed point.
pub const HALF: i64 = 524288;

pub open spec fn clamp_unit(c: int) -> int {
    if c < -ONE { -ONE } else if c > ONE { ONE as int } else { c }
}

/// `1 / x` in fixed point, saturating for `x == 0`.
pub open spec fn recip(x: int) -> int {
    if x == 0 { LIMIT as int } else { div_spec(ONE as int, x) }
}

/// `b` to the power `e`, in fixed point.
pub open spec fn pow_spec(b: int, e: nat) -> int
    decreases e,
{
    if e == 0 { ONE as int } else { mul_spec(b, pow_spec(b, (e - 1) as nat)) }
}

/// The start of a secondary ray leaving `hit` along `dir`: the hit point moved
/// by the bias to the side of the surface that `dir` heads for.
pub open spec fn offset_origin_spec(hit: Intersect, dir: Vec3) -> Vec3 {
    let offset = scale_v(hit.normal, ORIGIN_BIAS as int);
    if dot_spec(dir, hit.normal) < 0 {
        sub_v(hit.point, offset)
    } else {
        add_v(hit.point, offset)
    }
}

/// Mirror `i` about the plane with normal `n`: `i - 2 (i . n) n`.
pub open spec fn reflect_spec(i: Vec3, n: Vec3) -> Vec3 {
    let d = dot_spec(i, n);
    sub_v(i, scale_v(n, add_spec(d, d)))
}

/// Bend `i` through a surface with normal `n` into a medium of index `eta_t`
/// (Snell's law, with index ratio `1 / eta_t`); a ray leaving the medium sees
/// the ratio `eta_t` and the flipped normal, and where no ray is transmitted
/// the reflection is returned.
#[verifier::opaque]
pub open spec fn refract_spec(i: Vec3, n: Vec3, eta_t: int) -> Vec3 {
    let cosi = sub_spec(0, clamp_unit(dot_spec(i, n)));
    let n_cosi = if cosi < 0 { sub_spec(0, cosi) } else { cosi };
    let eta = if cosi < 0 { eta_t } else { recip(eta_t) };
    let n_normal = if cosi < 0 { neg_v(n) } else { n };
    let k = sub_spec(ONE as int, mul_spec(mul_spec(eta, eta), sub_spec(ONE as int, mul_spec(n_cosi, n_cosi))));
    if k < 0 {
        reflect_spec(i, n_normal)
    } else {
        add_v(scale_v(i, eta), scale_v(n_normal, sub_spec(mul_spec(eta, n_cosi), sqrt_spec(k))))
    }
}

/// The sine of the transmitted angle for incidence `i` on normal `n`, with the
/// indices swapped when the ray leaves the medium.
pub open spec fn sint_spec(i: Vec3, n: Vec3, ior: int) -> int {
    let cosi = clamp_unit(dot_spec(i, n));
    let etai = if cosi > 0 { ior } else { ONE as int };
    let etat = if cosi > 0 { ONE as int } else { ior };
    mul_spec(mul_spec(etai, recip(etat)), sqrt_spec(sub_spec(ONE as int, mul_spec(cosi, cosi))))
}

/// The Fresnel reflectance: 1 under total internal reflection, else the mean
/// of the s- and p-polarised reflectances.
#[verifier::opaque]
pub open spec fn fresnel_spec(i: Vec3, n: Vec3, ior: int) -> int {
    let c = clamp_unit(dot_spec(i, n));
    let etai = if c > 0 { ior } else { ONE as int };
    let etat = if c > 0 { ONE as int } else { ior };
    let sint = sint_spec(i, n, ior);
    if sint >= ONE {
        ONE as int
    } else {
        let cost = sqrt_spec(sub_spec(ONE as int, mul_spec(sint, sint)));
        let cosi = if c < 0 { sub_spec(0, c) } else { c };
        let rs = ratio(
            sub_spec(mul_spec(etat, cosi), mul_spec(etai, cost)),
            add_spec(mul_spec(etat, cosi), mul_spec(etai, cost)),
        );
        let rp = ratio(
            sub_spec(mul_spec(etai, cosi), mul_spec(etat, cost)),
            add_spec(mul_spec(etai, cosi), mul_spec(etat, cost)),
        );
        mul_spec(add_spec(mul_spec(rs, rs), mul_spec(rp, rp)), HALF as int)
    }
}

fn clamp_unit_exec(c: i64) -> (r: i64)
    ensures
        r as int == clamp_unit(c as int),
{
    if c < -ONE { -ONE } else if c > ONE { ONE } else { c }
}

fn recip_exec(x: i64) -> (r: i64)
    ensures
        r as int == recip(x as int),
{
    if x == 0 { LIMIT } else { fx_div(ONE, x) }
}

fn ratio_of(a: i64, b: i64) -> (r: i64)
    ensures
        r as int == ratio(a as int, b as int),
{
    if b == 0 { 0 } else { fx_div(a, b) }
}

/// `b` to the power `e` by repeated fixed-point products.
pub fn fx_pow(b: i64, e: u32) -> (r: i64)
    ensures
        r as int == pow_spec(b as int, e as nat),
{
    let mut acc: i64 = ONE;
    let mut k: u32 = 0;
    while k < e
        invariant
            k <= e,
            acc as int == pow_spec(b as int, k as nat),
        decreases e - k,
    {
        acc = fx_mul(b, acc);
        k = k + 1;
    }
    acc
}

pub fn offset_origin(intersect: &Intersect, direction: &Vec3) -> (r: Vec3)
    ensures
        r == offset_origin_spec(*intersect, *direction),
{
    let offset = intersect.normal.scale(ORIGIN_BIAS);
    if direction.dot(&intersect.normal) < 0 {
        intersect.point.sub(&offset)
    } else {
        intersect.point.add(&offset)
    }
}

pub fn reflect(incident: &Vec3, normal: &Vec3) -> (r: Vec3)
    ensures
        r == reflect_spec(*incident, *normal),
{
    let d = incident.dot(normal);
    incident.sub(&normal.scale(fx_add(d, d)))
}

pub fn refract(incident: &Vec3, normal: &Vec3, eta_t: i64) -> (r: Vec3)
    ensures
        r == refract_spec(*incident, *normal, eta_t as int),
{
    reveal(refract_spec);
    let cosi = fx_sub(0, clamp_unit_exec(incident.dot(normal)));
    let (n_cosi, eta, n_normal) = if cosi < 0 {
        (fx_sub(0, cosi), eta_t, normal.neg())
    } else {
        (cosi, recip_exec(eta_t), *normal)
    };
    let k = fx_sub(ONE, fx_mul(fx_mul(eta, eta), fx_sub(ONE, fx_mul(n_cosi, n_cosi))));
    if k < 0 {
        reflect(incident, &n_normal)
    } else {
        incident.scale(eta).add(&n_normal.scale(fx_sub(fx_mul(eta, n_cosi), fx_sqrt(k))))
    }
}

pub fn fresnel(incident: &Vec3, normal: &Vec3, ior: i64) -> (r: i64)
    ensures
        r as int == fresnel_spec(*incident, *normal, ior as int),
        r as int == ONE <== sint_spec(*incident, *normal, ior as int) >= ONE,
{
    reveal(fresnel_spec);
    let c = clamp_unit_exec(incident.dot(normal));
    let (etai, etat) = if c > 0 { (ior, ONE) } else { (ONE, ior) };
    let sint = fx_mul(fx_mul(etai, recip_exec(etat)), fx_sqrt(fx_sub(ONE, fx_mul(c, c))));
    if sint >= ONE {
        ONE
    } else {
        let cost = fx_sqrt(fx_sub(ONE, fx_mul(sint, sint)));
        let cosi = if c < 0 { fx_sub(0, c) } else { c };
        let rs = ratio_of(
            fx_sub(fx_mul(etat, cosi), fx_mul(etai, cost)),
            fx_add(fx_mul(etat, cosi), fx_mul(etai, cost)),
        );
        let rp = ratio_of(
            fx_sub(fx_mul(etai, cosi), fx_mul(etat, cost)),
            fx_add(fx_mul(etai, cosi), fx_mul(etat, cost)),
        );
        fx_mul(fx_add(fx_mul(rs, rs), fx_mul(rp, rp)), HALF)
    }
}

proof fn lemma_one_mul(t: int)
    requires
        -LIMIT <= t <= LIMIT,
    ensures
        mul_spec(ONE as int, t) == t,
        mul_spec(t, ONE as int) == t,
{
    assert(abs_int(t * ONE) == abs_int(t) * ONE) by (nonlinear_arith);
    assert((abs_int(t) * ONE) / (ONE as int) == abs_int(t)) by (nonlinear_arith);
    assert((t * ONE < 0) == (t < 0)) by (nonlinear_arith);
    assert(ONE * t == t * ONE) by (nonlinear_arith);
    assert(abs_int(ONE as int) == ONE);
}

/// Total internal reflection for a ray leaving a medium of index `ior`:
/// where the incidence sine times `ior` reaches 1 (past the critical angle),
/// all is reflected.
pub proof fn lemma_total_internal_reflection(i: Vec3, n: Vec3, ior: int)
    requires
        0 < ior <= LIMIT,
        0 < dot_spec(i, n) <= ONE,
        mul_spec(ior, sqrt_spec(sub_spec(ONE as int, mul_spec(dot_spec(i, n), dot_spec(i, n))))) >= ONE,
    ensures
        fresnel_spec(i, n, ior) == ONE,
{
    reveal(fresnel_spec);
    assert(abs_int(ONE * ONE) == ONE * ONE);
    assert((ONE * ONE) / (ONE as int) == ONE);
    assert(tdiv(ONE * ONE, ONE as int) == ONE);
    assert(recip(ONE as int) == ONE);
    lemma_one_mul(ior);
}

/// Total internal reflection for a ray entering a medium of index `ior`
/// below 1: where the incidence sine `s` reaches `ior` (with a margin of two
/// fixed-point steps in a million for rounding), all is reflected.
pub proof fn lemma_total_internal_reflection_entering(i: Vec3, n: Vec3, ior: int)
    requires
        1 <= ior,
        -ONE <= dot_spec(i, n) < 0,
        sqrt_spec(sub_spec(ONE as int, mul_spec(dot_spec(i, n), dot_spec(i, n)))) * ONE >= (ONE + 2) * ior,
    ensures
        fresnel_spec(i, n, ior) == ONE,
{
    reveal(fresnel_spec);
    let c = dot_spec(i, n);
    let sn = sqrt_spec(sub_spec(ONE as int, mul_spec(c, c)));
    assert(0 <= c * c <= ONE * ONE) by (nonlinear_arith)
        requires
            -1048576 <= c < 0,
    ;
    assert(abs_int(c * c) == c * c);
    assert(0 <= mul_spec(c, c) <= ONE) by (nonlinear_arith)
        requires
            mul_spec(c, c) == sat((c * c) / 1048576),
            0 <= c * c <= 1048576 * 1048576,
    ;
    let m = sub_spec(ONE as int, mul_spec(c, c));
    assert(0 <= m <= ONE);
    if m > 0 {
        lemma_isqrt_bound((m * ONE) as nat);
    }
    assert(0 <= sn <= ONE);
    assert(ior < ONE) by (nonlinear_arith)
        requires
            sn * 1048576 >= (1048576 + 2) * ior,
            sn <= 1048576,
            ior >= 1,
    ;
    let q = (ONE * ONE) / ior;
    assert(abs_int(ONE * ONE) == ONE * ONE);
    assert(tdiv(ONE * ONE, ior) == q);
    assert(ONE < q <= ONE * ONE) by (nonlinear_arith)
        requires
            q == (1048576 * 1048576int) / ior,
            1 <= ior < 1048576,
    ;
    assert(recip(ior) == q);
    lemma_one_mul(q);
    assert(q * ior > ONE * ONE - ior) by (nonlinear_arith)
        requires
            q == (1048576 * 1048576int) / ior,
            ior >= 1,
    ;
    assert(q * sn >= ONE * ONE) by (nonlinear_arith)
        requires
            q * ior > 1048576 * 1048576 - ior,
            sn * 1048576 >= (1048576 + 2) * ior,
            1 <= ior < 1048576,
            q > 0,
    ;
    assert(abs_int(q * sn) == q * sn);
    assert((q * sn) / (ONE as int) >= ONE) by (nonlinear_arith)
        requires
            q * sn >= 1048576 * 1048576,
    ;
    assert(sint_spec(i, n, ior) >= ONE);
}

proof fn lemma_isqrt_bound(n: nat)
    requires
        n <= ONE * ONE,
    ensures
        isqrt(n) <= ONE,
{
    lemma_isqrt(n);
    let r = isqrt(n) as int;
    assert(r <= ONE) by (nonlinear_arith)
        requires
            r >= 0,
            r * r <= n,
            n <= 1048576 * 1048576,
    ;
}

proof fn lemma_ratio_unit(a: int, b: int)
    requires
        0 <= a <= LIMIT,
        0 <= b <= LIMIT,
    ensures
        -ONE <= ratio(sub_spec(a, b), add_spec(a, b)) <= ONE,
{
    let num = sub_spec(a, b);
    let den = add_spec(a, b);
    assert(num == a - b);
    assert(abs_int(num) <= den);
    if den != 0 {
        assert(abs_int(num * ONE) == abs_int(num) * ONE) by (nonlinear_arith);
        assert((abs_int(num) * ONE) / den <= ONE) by (nonlinear_arith)
            requires
                0 <= abs_int(num) <= den,
                den > 0,
        ;
        assert((abs_int(num) * ONE) / den >= 0) by (nonlinear_arith)
            requires
                abs_int(num) >= 0,
                den > 0,
        ;
    }
}

proof fn lemma_square_unit(x: int)
    requires
        -ONE <= x <= ONE,
    ensures
        0 <= mul_spec(x, x) <= ONE,
{
    assert(0 <= x * x <= ONE * ONE) by (nonlinear_arith)
        requires
            -1048576 <= x <= 1048576,
    ;
    assert(abs_int(x * x) == x * x);
    assert(0 <= (x * x) / (ONE as int) <= ONE) by (nonlinear_arith)
        requires
            0 <= x * x <= 1048576 * 1048576,
    ;
}

/// The Fresnel reflectance is a fraction: it lies in `[0, 1]` for every
/// incidence and every index that is not negative.
pub proof fn lemma_fresnel_range(i: Vec3, n: Vec3, ior: int)
    requires
        0 <= ior <= LIMIT,
    ensures
        0 <= fresnel_spec(i, n, ior) <= ONE,
{
    reveal(fresnel_spec);
    let c = clamp_unit(dot_spec(i, n));
    let etai = if c > 0 { ior } else { ONE as int };
    let etat = if c > 0 { ONE as int } else { ior };
    let sint = sint_spec(i, n, ior);
    if sint < ONE {
        let cost = sqrt_spec(sub_spec(ONE as int, mul_spec(sint, sint)));
        let cosi = if c < 0 { sub_spec(0, c) } else { c };
        assert(0 <= cosi <= ONE);
        assert(cost >= 0);
        assert(forall|x: int, y: int| 0 <= x <= LIMIT && 0 <= y ==> 0 <= #[trigger] mul_spec(x, y) <= LIMIT) by {
            assert forall|x: int, y: int| 0 <= x <= LIMIT && 0 <= y implies 0 <= #[trigger] mul_spec(x, y) <= LIMIT by {
                assert(x * y >= 0) by (nonlinear_arith)
                    requires
                        x >= 0,
                        y >= 0,
                ;
                assert(abs_int(x * y) == x * y);
                assert(abs_int(ONE as int) == ONE);
            }
        }
        lemma_ratio_unit(mul_spec(etat, cosi), mul_spec(etai, cost));
        lemma_ratio_unit(mul_spec(etai, cosi), mul_spec(etat, cost));
        let rs = ratio(sub_spec(mul_spec(etat, cosi), mul_spec(etai, cost)), add_spec(mul_spec(etat, cosi), mul_spec(etai, cost)));
        let rp = ratio(sub_spec(mul_spec(etai, cosi), mul_spec(etat, cost)), add_spec(mul_spec(etai, cosi), mul_spec(etat, cost)));
        lemma_square_unit(rs);
        lemma_square_unit(rp);
        let sum = add_spec(mul_spec(rs, rs), mul_spec(rp, rp));
        assert(0 <= sum <= 2 * ONE);
        assert(abs_int(sum * HALF) == sum * HALF) by (nonlinear_arith)
            requires
                sum >= 0,
        ;
        assert(0 <= (sum * HALF) / (ONE as int) <= ONE) by (nonlinear_arith)
            requires
                0 <= sum <= 2 * 1048576,
        ;
    }
}

} // verus!
