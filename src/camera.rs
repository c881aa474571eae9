use vstd::prelude::*;
use crate::vector::{add_v, cross_spec, normalize_spec, scale_v, sub_v, Vec3};

verus! {

/// A camera at `eye` looking at `center`, with `up` giving the vertical.
#[derive(Clone, Copy, Debug, PartialEq, Eq, Structural)]
pub struct Camera {
    pub eye: Vec3,
    pub center: Vec3,
    pub up: Vec3,
}

impl Camera {
    pub open spec fn forward_spec(&self) -> Vec3 {
        normalize_spec(sub_v(self.center, self.eye))
    }

    pub open spec fn right_spec(&self) -> Vec3 {
        normalize_spec(cross_spec(self.forward_spec(), self.up))
    }

    pub open spec fn true_up_spec(&self) -> Vec3 {
        normalize_spec(cross_spec(self.right_spec(), self.forward_spec()))
    }

    /// A camera-space direction (x right, y up, looking along -z) in world space.
    pub open spec fn base_change_spec(&self, v: Vec3) -> Vec3 {
        sub_v(
            add_v(scale_v(self.right_spec(), v.x as int), scale_v(self.true_up_spec(), v.y as int)),
            scale_v(self.forward_spec(), v.z as int),
        )
    }

    pub fn new(eye: Vec3, center: Vec3, up: Vec3) -> (r: Camera)
        ensures
            r == (Camera { eye, center, up }),
    {
        Camera { eye, center, up }
    }

    pub fn base_change(&self, v: &Vec3) -> (r: Vec3)
        ensures
            r == self.base_change_spec(*v),
    {
        let forward = self.center.sub(&self.eye).normalize();
        let right = forward.cross(&self.up).normalize();
        let up = right.cross(&forward).normalize();
        right.scale(v.x).add(&up.scale(v.y)).sub(&forward.scale(v.z))
    }
}

} // verus!
