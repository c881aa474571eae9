use vstd::prelude::*;
use crate::color::Color;
use crate::fixed::{add_spec, fx_add, fx_mul, mul_spec, ONE};
use crate::vector::Vec3;

verus! {

/// A point light.
#[derive(Clone, Copy, Debug, PartialEq, Eq, Structural)]
pub struct Light {
    pub position: Vec3,
    pub color: Color,
    pub intensity: i64,
}

/// The time of day that a sun at some height stands for.
#[derive(Clone, Copy, Debug, PartialEq, Eq, Structural)]
pub enum DayPhase {
    Day,
    Sunrise,
    Sunset,
    Night,
}

/// Day from height 20 up to 40; between 0 and 20 sunrise on the +x side and
/// sunset otherwise; night everywhere else.
pub open spec fn phase_spec(x: int, y: int) -> DayPhase {
    if 20 * ONE <= y && y < 40 * ONE {
        DayPhase::Day
    } else if 0 <= y && y < 20 * ONE {
        if x > 0 { DayPhase::Sunrise } else { DayPhase::Sunset }
    } else {
        DayPhase::Night
    }
}

impl Light {
    pub fn new(position: Vec3, color: Color, intensity: i64) -> (r: Light)
        ensures
            r == (Light { position, color, intensity }),
    {
        Light { position, color, intensity }
    }

    /// The phase of day that this light's position stands for.
    pub fn light_condition(&self) -> (r: DayPhase)
        ensures
            r == phase_spec(self.position.x as int, self.position.y as int),
    {
        let y = self.position.y;
        if y >= 20 * ONE && y < 40 * ONE {
            DayPhase::Day
        } else if y >= 0 && y < 20 * ONE {
            if self.position.x > 0 {
                DayPhase::Sunrise
            } else {
                DayPhase::Sunset
            }
        } else {
            DayPhase::Night
        }
    }

    /// Put the light on the circle of `radius` about `center` in the x-y plane,
    /// at the angle whose cosine and sine (fixed-point) are given; z is kept.
    pub fn update_position_orbit(&mut self, center: Vec3, radius: i64, cos_angle: i64, sin_angle: i64)
        ensures
            final(self).position.x as int == add_spec(center.x as int, mul_spec(radius as int, cos_angle as int)),
            final(self).position.y as int == add_spec(center.y as int, mul_spec(radius as int, sin_angle as int)),
            final(self).position.z == old(self).position.z,
            final(self).color == old(self).color,
            final(self).intensity == old(self).intensity,
    {
        self.position.x = fx_add(center.x, fx_mul(radius, cos_angle));
        self.position.y = fx_add(center.y, fx_mul(radius, sin_angle));
    }
}

} // verus!
