//! The scene: what there is to see, and what lights it.

use crate::intersections::Intersectable;
use crate::lights::LightSource;
use crate::scalar::Scalar;
use crate::shapes::Sphere;
use crate::vector::Vector3;
use vstd::prelude::*;

verus! {

/// The objects and the lights of one picture, each kind in the order in which
/// it was put in. A scene is built once and then only read.
pub struct Scene {
    pub objects: Vec<Sphere>,
    pub lights: Vec<LightSource>,
}

impl Default for Scene {
    /// The scene with nothing in it.
    fn default() -> (scene: Scene)
        ensures
            scene.objects@ == Seq::<Sphere>::empty(),
            scene.lights@ == Seq::<LightSource>::empty(),
            scene.well_formed(),
    {
        Scene { objects: Vec::new(), lights: Vec::new() }
    }
}

impl Scene {
    /// Whether every object and every light of the scene is one that a scene
    /// is meant to hold.
    pub open spec fn well_formed(self) -> bool {
        &&& forall|i: int| 0 <= i < self.objects@.len() ==> (#[trigger] self.objects@[i]).well_formed()
        &&& forall|i: int| 0 <= i < self.lights@.len() ==> (#[trigger] self.lights@[i]).well_formed()
    }

    /// The centre of the object at place `n`, counted from zero in the order
    /// in which the objects were put in; none where there is no such place.
    pub open spec fn spec_nth_element_center(self, n: int) -> Option<Vector3> {
        if 0 <= n < self.objects@.len() {
            Some(self.objects@[n].center)
        } else {
            None
        }
    }

    /// The point to look at when the object at place `n` is asked for: its
    /// centre, or the point one step along the first axis where there is no
    /// such object.
    pub open spec fn spec_look_at_target(self, n: int) -> Vector3 {
        match self.spec_nth_element_center(n) {
            Some(center) => center,
            None => Vector3 {
                x: Scalar::spec_one(),
                y: Scalar::spec_zero(),
                z: Scalar::spec_zero(),
            },
        }
    }

    /// Puts `object` behind the objects that are there.
    pub fn push(&mut self, object: Sphere)
        ensures
            final(self).objects@ == old(self).objects@.push(object),
            final(self).lights@ == old(self).lights@,
            old(self).well_formed() && object.well_formed() ==> final(self).well_formed(),
    {
        self.objects.push(object)
    }

    /// Puts `light` behind the lights that are there.
    pub fn add_light(&mut self, light: LightSource)
        ensures
            final(self).lights@ == old(self).lights@.push(light),
            final(self).objects@ == old(self).objects@,
            old(self).well_formed() && light.well_formed() ==> final(self).well_formed(),
    {
        self.lights.push(light)
    }

    /// Tests what `well_formed` states.
    pub fn is_well_formed(&self) -> (ok: bool)
        ensures
            ok == self.well_formed(),
    {
        let mut index: usize = 0;
        while index < self.objects.len()
            invariant
                index <= self.objects@.len(),
                forall|i: int| 0 <= i < index ==> (#[trigger] self.objects@[i]).well_formed(),
            decreases self.objects@.len() - index,
        {
            if !self.objects[index].is_well_formed() {
                return false;
            }
            index = index + 1;
        }
        let mut index: usize = 0;
        while index < self.lights.len()
            invariant
                index <= self.lights@.len(),
                forall|i: int|
                    0 <= i < self.objects@.len() ==> (#[trigger] self.objects@[i]).well_formed(),
                forall|i: int| 0 <= i < index ==> (#[trigger] self.lights@[i]).well_formed(),
            decreases self.lights@.len() - index,
        {
            if !self.lights[index].is_well_formed() {
                return false;
            }
            index = index + 1;
        }
        true
    }

    /// The centre of the object at place `n`.
    pub fn get_nth_element_center(&self, n: i32) -> (center: Option<Vector3>)
        ensures
            center == self.spec_nth_element_center(n as int),
    {
        if n < 0 {
            return None;
        }
        let place = n as usize;
        if place < self.objects.len() {
            Some(Intersectable::center(&self.objects[place]))
        } else {
            None
        }
    }

    /// The point for the camera to look at when the object at place `n` is
    /// asked for.
    pub fn look_at_target(&self, n: i32) -> (target: Vector3)
        ensures
            target == self.spec_look_at_target(n as int),
    {
        match self.get_nth_element_center(n) {
            Some(center) => center,
            None => Vector3::new(Scalar::one(), Scalar::zero(), Scalar::zero()),
        }
    }
}

} // verus!
