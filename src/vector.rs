use vstd::prelude::*;
use crate::fixed::{add_spec, div_spec, fx_add, fx_div, fx_mul, fx_sqrt, fx_sub, mul_spec, sqrt_spec, sub_spec};

verus! {

/// A point or direction in fixed-point coordinates.
#[derive(Clone, Copy, Debug, PartialEq, Eq, Structural)]
pub struct Vec3 {
    pub x: i64,
    pub y: i64,
    pub z: i64,
}

pub open spec fn vec3(x: int, y: int, z: int) -> Vec3 {
    Vec3 { x: x as i64, y: y as i64, z: z as i64 }
}

pub open spec fn add_v(a: Vec3, b: Vec3) -> Vec3 {
    vec3(add_spec(a.x as int, b.x as int), add_spec(a.y as int, b.y as int), add_spec(a.z as int, b.z as int))
}

pub open spec fn sub_v(a: Vec3, b: Vec3) -> Vec3 {
    vec3(sub_spec(a.x as int, b.x as int), sub_spec(a.y as int, b.y as int), sub_spec(a.z as int, b.z as int))
}

pub open spec fn scale_v(a: Vec3, k: int) -> Vec3 {
    vec3(mul_spec(a.x as int, k), mul_spec(a.y as int, k), mul_spec(a.z as int, k))
}

pub open spec fn neg_v(a: Vec3) -> Vec3 {
    vec3(sub_spec(0, a.x as int), sub_spec(0, a.y as int), sub_spec(0, a.z as int))
}

pub open spec fn dot_spec(a: Vec3, b: Vec3) -> int {
    add_spec(
        add_spec(mul_spec(a.x as int, b.x as int), mul_spec(a.y as int, b.y as int)),
        mul_spec(a.z as int, b.z as int),
    )
}

pub open spec fn cross_spec(a: Vec3, b: Vec3) -> Vec3 {
    vec3(
        sub_spec(mul_spec(a.y as int, b.z as int), mul_spec(a.z as int, b.y as int)),
        sub_spec(mul_spec(a.z as int, b.x as int), mul_spec(a.x as int, b.z as int)),
        sub_spec(mul_spec(a.x as int, b.y as int), mul_spec(a.y as int, b.x as int)),
    )
}

pub open spec fn length_spec(a: Vec3) -> int {
    sqrt_spec(dot_spec(a, a))
}

/// Scale to unit length; a vector of length 0 is returned unchanged.
pub open spec fn normalize_spec(a: Vec3) -> Vec3 {
    let len = length_spec(a);
    if len == 0 {
        a
    } else {
        vec3(div_spec(a.x as int, len), div_spec(a.y as int, len), div_spec(a.z as int, len))
    }
}

impl Vec3 {
    pub fn new(x: i64, y: i64, z: i64) -> (r: Vec3)
        ensures
            r == (Vec3 { x, y, z }),
    {
        Vec3 { x, y, z }
    }

    pub fn add(&self, o: &Vec3) -> (r: Vec3)
        ensures
            r == add_v(*self, *o),
    {
        Vec3 { x: fx_add(self.x, o.x), y: fx_add(self.y, o.y), z: fx_add(self.z, o.z) }
    }

    pub fn sub(&self, o: &Vec3) -> (r: Vec3)
        ensures
            r == sub_v(*self, *o),
    {
        Vec3 { x: fx_sub(self.x, o.x), y: fx_sub(self.y, o.y), z: fx_sub(self.z, o.z) }
    }

    pub fn scale(&self, k: i64) -> (r: Vec3)
        ensures
            r == scale_v(*self, k as int),
    {
        Vec3 { x: fx_mul(self.x, k), y: fx_mul(self.y, k), z: fx_mul(self.z, k) }
    }

    pub fn neg(&self) -> (r: Vec3)
        ensures
            r == neg_v(*self),
    {
        Vec3 { x: fx_sub(0, self.x), y: fx_sub(0, self.y), z: fx_sub(0, self.z) }
    }

    pub fn dot(&self, o: &Vec3) -> (r: i64)
        ensures
            r as int == dot_spec(*self, *o),
    {
        fx_add(fx_add(fx_mul(self.x, o.x), fx_mul(self.y, o.y)), fx_mul(self.z, o.z))
    }

    pub fn cross(&self, o: &Vec3) -> (r: Vec3)
        ensures
            r == cross_spec(*self, *o),
    {
        Vec3 {
            x: fx_sub(fx_mul(self.y, o.z), fx_mul(self.z, o.y)),
            y: fx_sub(fx_mul(self.z, o.x), fx_mul(self.x, o.z)),
            z: fx_sub(fx_mul(self.x, o.y), fx_mul(self.y, o.x)),
        }
    }

    pub fn length(&self) -> (r: i64)
        ensures
            r as int == length_spec(*self),
            r >= 0,
    {
        fx_sqrt(self.dot(self))
    }

    pub fn normalize(&self) -> (r: Vec3)
        ensures
            r == normalize_spec(*self),
    {
        let len = self.length();
        if len == 0 {
            *self
        } else {
            Vec3 { x: fx_div(self.x, len), y: fx_div(self.y, len), z: fx_div(self.z, len) }
        }
    }
}

} // verus!
