//! Shapes that a ray can hit. There is one: the sphere.

use crate::colors::get_color;
use crate::colors::spec_get_color;
use crate::colors::Color;
use crate::intersections::within;
use crate::intersections::Crossing;
use crate::intersections::Intersectable;
use crate::intersections::IntersectionRecord;
use crate::scalar::Scalar;
use crate::vector::Vector3;
use vstd::prelude::*;

verus! {

/// A sphere with its colour and the three numbers that say how its surface
/// answers light.
#[derive(Debug, Clone, Copy)]
pub struct Sphere {
    pub center: Vector3,
    pub radius: Scalar,
    /// Red, green and blue, each on the scale of a byte.
    pub color: Vector3,
    /// Exponent of the highlight; zero switches the highlight off.
    pub specular: Scalar,
    /// Share of the final colour that comes from the mirrored ray.
    pub reflective: Scalar,
    /// Refractive index of the material.
    pub refractive: Scalar,
}

impl Sphere {
    /// Whether the sphere is one that a scene is meant to hold: a radius above
    /// zero, a highlight exponent and colour channels not below zero, and a
    /// mirrored share between zero and one.
    pub open spec fn well_formed(self) -> bool {
        &&& self.radius.spec_positive()
        &&& self.specular.spec_ge(Scalar::spec_zero())
        &&& self.reflective.spec_ge(Scalar::spec_zero())
        &&& self.reflective.spec_le(Scalar::spec_one())
        &&& self.color.x.spec_ge(Scalar::spec_zero())
        &&& self.color.y.spec_ge(Scalar::spec_zero())
        &&& self.color.z.spec_ge(Scalar::spec_zero())
    }

    /// The record of a hit on this sphere at parameter `t` and point `point`:
    /// the two as given, and copies of the sphere's centre, colour and
    /// material beside them.
    pub open spec fn spec_record_at(self, t: Scalar, point: Vector3) -> IntersectionRecord {
        IntersectionRecord {
            intersection_point: t,
            intersection_vector: point,
            object_center: self.center,
            object_color: self.color,
            object_specular: self.specular,
            object_reflective: self.reflective,
            object_refractive: self.refractive,
        }
    }

    /// The sphere with the given centre, radius, colour and material.
    pub fn new(
        center: Vector3,
        radius: Scalar,
        color: Vector3,
        specular: Scalar,
        reflective: Scalar,
        refractive: Scalar,
    ) -> (sphere: Sphere)
        ensures
            sphere == (Sphere { center, radius, color, specular, reflective, refractive }),
    {
        Sphere { center, radius, color, specular, reflective, refractive }
    }

    /// Tests what `well_formed` states.
    pub fn is_well_formed(&self) -> (ok: bool)
        ensures
            ok == self.well_formed(),
    {
        let zero = Scalar::zero();
        self.radius.is_positive() && self.specular.ge(zero) && self.reflective.ge(zero)
            && self.reflective.le(Scalar::one()) && self.color.x.ge(zero) && self.color.y.ge(zero)
            && self.color.z.ge(zero)
    }

    /// Where the middle of the sphere lies.
    pub fn center(&self) -> (c: Vector3)
        ensures
            c == self.center,
    {
        self.center
    }

    /// How far the surface lies from the centre.
    pub fn radius(&self) -> (r: Scalar)
        ensures
            r == self.radius,
    {
        self.radius
    }

    /// The exponent of the highlight.
    pub fn specular(&self) -> (s: Scalar)
        ensures
            s == self.specular,
    {
        self.specular
    }

    /// The share of the colour that comes from the mirrored ray.
    pub fn reflective(&self) -> (r: Scalar)
        ensures
            r == self.reflective,
    {
        self.reflective
    }

    /// The refractive index of the material.
    pub fn refractive(&self) -> (r: Scalar)
        ensures
            r == self.refractive,
    {
        self.refractive
    }

    /// The colour as red, green and blue on the scale of a byte.
    pub fn color_vector(&self) -> (c: Vector3)
        ensures
            c == self.color,
    {
        self.color
    }

    /// The sphere's colour as the display would show it.
    pub fn get_color(&self) -> (c: Color)
        ensures
            c == spec_get_color(self.color),
    {
        get_color(self.color)
    }

    /// Makes the record of a hit on this sphere.
    pub fn record_at(&self, t: Scalar, point: Vector3) -> (record: IntersectionRecord)
        ensures
            record == self.spec_record_at(t, point),
    {
        IntersectionRecord {
            intersection_point: t,
            intersection_vector: point,
            object_center: self.center(),
            object_color: self.color_vector(),
            object_specular: self.specular(),
            object_reflective: self.reflective(),
            object_refractive: self.refractive(),
        }
    }
}

impl Intersectable for Sphere {
    open spec fn spec_center(&self) -> Vector3 {
        self.center
    }

    /// The nearer crossing if it lies in the window, else the farther one if
    /// that does; nothing where the discriminant is not above zero, so a ray
    /// that only grazes the sphere misses it.
    open spec fn spec_intersect(&self, crossing: Crossing, t_min: Scalar, t_max: Scalar) -> Option<
        IntersectionRecord,
    > {
        match crossing.spec_first_within(t_min, t_max) {
            Some((t, point)) => Some(self.spec_record_at(t, point)),
            None => None,
        }
    }

    fn center(&self) -> (c: Vector3) {
        self.center
    }

    fn intersect(&self, crossing: &Crossing, t_min: Scalar, t_max: Scalar) -> (hit: Option<
        IntersectionRecord,
    >)
        ensures
            !crossing.discriminant.spec_positive() ==> hit is None,
            hit matches Some(record) ==> within(record.intersection_point, t_min, t_max),
    {
        match crossing.first_within(t_min, t_max) {
            Some((t, point)) => Some(self.record_at(t, point)),
            None => None,
        }
    }
}

} // verus!
