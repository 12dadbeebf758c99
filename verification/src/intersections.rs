//! Where a ray meets the scene.
//!
//! Solving the quadratic of a ray against a sphere is arithmetic on
//! single-precision numbers, which the host does. What it finds comes in as a
//! [`Crossing`]; which of the crossings counts as the hit, and which object of
//! a scene is hit first, is settled here.

use crate::scalar::Scalar;
use crate::scene::Scene;
use crate::shapes::Sphere;
use crate::vector::Vector3;
use vstd::prelude::*;

verus! {

/// What a hit leaves behind for shading: where along the ray and where in
/// space it lies, and a copy of the centre, colour and material of the object
/// hit. The colour is the object's own, channel for channel: nothing is cut
/// to bytes before a pixel is written.
#[derive(Clone, Copy, Debug)]
pub struct IntersectionRecord {
    /// Parameter of the hit along the ray.
    pub intersection_point: Scalar,
    /// The hit in space.
    pub intersection_vector: Vector3,
    pub object_center: Vector3,
    pub object_color: Vector3,
    pub object_specular: Scalar,
    pub object_reflective: Scalar,
    pub object_refractive: Scalar,
}

/// The solved quadratic of one ray against one sphere, in the form with the
/// halved middle coefficient: with `f` the vector from the centre to the ray's
/// origin and `d` the ray's direction, `a = d.d`, `b = f.d`, `c = f.f - r^2`.
#[derive(Clone, Copy, Debug)]
pub struct Crossing {
    /// `b^2 - a c`.
    pub discriminant: Scalar,
    /// `(-b - sqrt(discriminant)) / a`.
    pub near: Scalar,
    /// `(-b + sqrt(discriminant)) / a`.
    pub far: Scalar,
    /// The point of the ray at parameter `near`.
    pub near_point: Vector3,
    /// The point of the ray at parameter `far`.
    pub far_point: Vector3,
}

/// Whether `t` lies strictly between `t_min` and `t_max`.
pub open spec fn within(t: Scalar, t_min: Scalar, t_max: Scalar) -> bool {
    t_min.spec_lt(t) && t.spec_lt(t_max)
}

/// Tests whether `t` lies strictly between `t_min` and `t_max`.
pub fn is_within(t: Scalar, t_min: Scalar, t_max: Scalar) -> (r: bool)
    ensures
        r == within(t, t_min, t_max),
{
    t_min.lt(t) && t.lt(t_max)
}

impl Crossing {
    /// Whether the two crossings, where there are any, come in their order
    /// along the ray. They do whenever `a` is above zero, that is, for every
    /// ray that has a direction.
    pub open spec fn ordered(self) -> bool {
        self.discriminant.spec_positive() ==> self.near.spec_le(self.far)
    }

    /// Tests whether the two crossings come in their order.
    pub fn is_ordered(&self) -> (ok: bool)
        ensures
            ok == self.ordered(),
    {
        !self.discriminant.is_positive() || self.near.le(self.far)
    }

    /// The crossing that counts in the window from `t_min` to `t_max`, with
    /// its point: the nearer one if it lies strictly inside, else the farther
    /// one if that does. A discriminant that is not above zero gives none.
    pub open spec fn spec_first_within(self, t_min: Scalar, t_max: Scalar) -> Option<
        (Scalar, Vector3),
    > {
        if !self.discriminant.spec_positive() {
            None
        } else if within(self.near, t_min, t_max) {
            Some((self.near, self.near_point))
        } else if within(self.far, t_min, t_max) {
            Some((self.far, self.far_point))
        } else {
            None
        }
    }

    /// Picks the crossing that counts in the window from `t_min` to `t_max`.
    pub fn first_within(&self, t_min: Scalar, t_max: Scalar) -> (hit: Option<(Scalar, Vector3)>)
        ensures
            hit == self.spec_first_within(t_min, t_max),
            !self.discriminant.spec_positive() ==> hit is None,
            hit matches Some((t, _)) ==> within(t, t_min, t_max),
    {
        if !self.discriminant.is_positive() {
            None
        } else if is_within(self.near, t_min, t_max) {
            Some((self.near, self.near_point))
        } else if is_within(self.far, t_min, t_max) {
            Some((self.far, self.far_point))
        } else {
            None
        }
    }

    /// A crossing that counts in a window counts in every window that ends
    /// farther out, though it may not be the same one.
    pub proof fn lemma_wider_window(self, t_min: Scalar, t_max: Scalar, farther: Scalar)
        requires
            t_max.spec_le(farther),
        ensures
            self.spec_first_within(t_min, t_max) is Some ==> self.spec_first_within(
                t_min,
                farther,
            ) is Some,
    {
    }

    /// Pulling the far end of the window in to `bound` changes nothing but
    /// this: a hit at or beyond `bound` is lost.
    pub proof fn lemma_narrowed_window(self, t_min: Scalar, t_max: Scalar, bound: Scalar)
        requires
            self.ordered(),
            bound.spec_lt(t_max),
        ensures
            self.spec_first_within(t_min, bound) == match self.spec_first_within(t_min, t_max) {
                Some((t, point)) => if t.spec_lt(bound) {
                    Some((t, point))
                } else {
                    None
                },
                None => None,
            },
    {
    }
}

/// The solved quadratic of one ray against one sphere in its plain form: with
/// `f` the vector from the centre to the ray's origin and `d` the ray's
/// direction, `a = d.d`, `b = 2 f.d`, `c = f.f - r^2`.
#[derive(Clone, Copy, Debug)]
pub struct QuadraticRoots {
    /// `b^2 - 4 a c`.
    pub discriminant: Scalar,
    /// `(-b + sqrt(discriminant)) / (2 a)`.
    pub first: Scalar,
    /// `(-b - sqrt(discriminant)) / (2 a)`.
    pub second: Scalar,
    /// `-b / 2`, the parameter reported for a ray that grazes the sphere.
    pub tangent: Scalar,
}

/// The lesser of two numbers, the first where neither is less.
pub open spec fn spec_lesser(a: Scalar, b: Scalar) -> Scalar {
    if b.spec_lt(a) {
        b
    } else {
        a
    }
}

/// The distance at which a ray meets a sphere, by the roots of its
/// quadratic: with a discriminant above zero, the lesser root where both lie
/// ahead of the ray's origin, and none where one does not; with a
/// discriminant of zero, the parameter of the grazing point; else none.
pub open spec fn spec_ray_sphere_intersection(roots: QuadraticRoots) -> Option<Scalar> {
    if roots.discriminant.spec_positive() {
        if roots.first.spec_positive() && roots.second.spec_positive() {
            Some(spec_lesser(roots.first, roots.second))
        } else {
            None
        }
    } else if roots.discriminant.spec_eq(Scalar::spec_zero()) {
        Some(roots.tangent)
    } else {
        None
    }
}

/// Reads off the roots of its quadratic at which distance a ray meets a
/// sphere, if it does.
pub fn ray_sphere_intersection(roots: &QuadraticRoots) -> (distance: Option<Scalar>)
    ensures
        distance == spec_ray_sphere_intersection(*roots),
{
    let zero = Scalar::zero();
    if roots.discriminant.is_positive() {
        if roots.first.is_positive() && roots.second.is_positive() {
            if roots.second.lt(roots.first) {
                return Some(roots.second);
            }
            return Some(roots.first);
        }
    } else if roots.discriminant.eq(zero) {
        return Some(roots.tangent);
    }
    None
}

/// What can be asked of anything that stands in a scene.
pub trait Intersectable {
    /// The middle of the object.
    spec fn spec_center(&self) -> Vector3;

    /// The hit of the ray whose crossings with the object are `crossing`, in
    /// the window from `t_min` to `t_max`.
    spec fn spec_intersect(&self, crossing: Crossing, t_min: Scalar, t_max: Scalar) -> Option<
        IntersectionRecord,
    >;

    /// The middle of the object, for a camera to be aimed at.
    fn center(&self) -> (c: Vector3)
        ensures
            c == self.spec_center(),
    ;

    /// Decides whether the ray whose crossings with the object are `crossing`
    /// hits it strictly between `t_min` and `t_max`, and records the hit.
    fn intersect(&self, crossing: &Crossing, t_min: Scalar, t_max: Scalar) -> (hit: Option<
        IntersectionRecord,
    >)
        ensures
            hit == self.spec_intersect(*crossing, t_min, t_max),
    ;
}

/// The far end of the window that is left once `best` has been found: the
/// parameter of that hit, or `t_max` while nothing has been hit.
pub open spec fn bound_after(best: Option<IntersectionRecord>, t_max: Scalar) -> Scalar {
    match best {
        Some(record) => record.intersection_point,
        None => t_max,
    }
}

/// The hit that stands after the first `n` objects have been tried in their
/// order, each against the window that the hits before it have left.
pub open spec fn nearest_among(
    objects: Seq<Sphere>,
    crossings: Seq<Crossing>,
    t_min: Scalar,
    t_max: Scalar,
    n: nat,
) -> Option<IntersectionRecord>
    decreases n,
{
    if n == 0 {
        None
    } else {
        let before = nearest_among(objects, crossings, t_min, t_max, (n - 1) as nat);
        match objects[n - 1].spec_intersect(crossings[n - 1], t_min, bound_after(before, t_max)) {
            Some(record) => Some(record),
            None => before,
        }
    }
}

/// How many objects of `objects` have their crossings in `crossings`.
pub open spec fn probed(objects: Seq<Sphere>, crossings: Seq<Crossing>) -> nat {
    if objects.len() <= crossings.len() {
        objects.len()
    } else {
        crossings.len()
    }
}

/// The nearest hit in a scene whose objects have the crossings `crossings`,
/// object by object. An object without its crossings is not tried.
pub open spec fn spec_nearest_intersected_object(
    scene: Scene,
    crossings: Seq<Crossing>,
    min_distance: Scalar,
    max_distance: Scalar,
) -> Option<IntersectionRecord> {
    nearest_among(
        scene.objects@,
        crossings,
        min_distance,
        max_distance,
        probed(scene.objects@, crossings),
    )
}

/// The hit of object `i` when it is tried alone against the whole window.
pub open spec fn alone(
    objects: Seq<Sphere>,
    crossings: Seq<Crossing>,
    t_min: Scalar,
    t_max: Scalar,
    i: int,
) -> Option<IntersectionRecord> {
    objects[i].spec_intersect(crossings[i], t_min, t_max)
}

/// Whether none of the first `n` objects is hit in the window.
pub open spec fn nothing_hit(
    objects: Seq<Sphere>,
    crossings: Seq<Crossing>,
    t_min: Scalar,
    t_max: Scalar,
    n: nat,
) -> bool {
    forall|j: int| 0 <= j < n ==> #[trigger] alone(objects, crossings, t_min, t_max, j) is None
}

/// Whether `best` is the hit of object `at`, no hit among the first `n`
/// objects is nearer, and every hit of an object put in before `at` is
/// farther.
pub open spec fn first_least_hit(
    objects: Seq<Sphere>,
    crossings: Seq<Crossing>,
    t_min: Scalar,
    t_max: Scalar,
    n: nat,
    at: int,
    best: IntersectionRecord,
) -> bool {
    &&& 0 <= at < n
    &&& alone(objects, crossings, t_min, t_max, at) == Some(best)
    &&& forall|j: int|
        0 <= j < n ==> match #[trigger] alone(objects, crossings, t_min, t_max, j) {
            Some(other) => if j < at {
                best.intersection_point.spec_lt(other.intersection_point)
            } else {
                best.intersection_point.spec_le(other.intersection_point)
            },
            None => true,
        }
}

/// Whether every crossing of `crossings` comes in its order.
pub open spec fn all_ordered(crossings: Seq<Crossing>) -> bool {
    forall|i: int| 0 <= i < crossings.len() ==> (#[trigger] crossings[i]).ordered()
}

/// Whether `hit` is what a search among the first `n` objects has to return:
/// the least hit, of equal ones the first, or none where no object is hit.
pub open spec fn is_nearest_hit(
    objects: Seq<Sphere>,
    crossings: Seq<Crossing>,
    t_min: Scalar,
    t_max: Scalar,
    n: nat,
    hit: Option<IntersectionRecord>,
) -> bool {
    match hit {
        Some(best) => exists|at: int|
            first_least_hit(objects, crossings, t_min, t_max, n, at, best),
        None => nothing_hit(objects, crossings, t_min, t_max, n),
    }
}

/// Whether `crossings` is what a search in `scene` is meant to be given: one
/// crossing for each object, and each in its order. Then every object is
/// tried, and the hit that the search returns is the nearest.
pub open spec fn spec_covers(scene: Scene, crossings: Seq<Crossing>) -> bool {
    crossings.len() == scene.objects@.len() && all_ordered(crossings)
}

/// Tests whether `crossings` holds one crossing for each object of `scene`,
/// each in its order. A search with crossings that fail this test leaves out
/// the objects that have none, and may return a hit that is not the nearest.
pub fn covers(scene: &Scene, crossings: &Vec<Crossing>) -> (ok: bool)
    ensures
        ok == spec_covers(*scene, crossings@),
{
    if crossings.len() != scene.objects.len() {
        return false;
    }
    let mut index: usize = 0;
    while index < crossings.len()
        invariant
            index <= crossings@.len(),
            forall|i: int| 0 <= i < index ==> (#[trigger] crossings@[i]).ordered(),
        decreases crossings@.len() - index,
    {
        if !crossings[index].is_ordered() {
            return false;
        }
        index = index + 1;
    }
    true
}

/// Finds the nearest hit of a ray in `scene`, strictly between `min_distance`
/// and `max_distance`. `crossings` holds, object by object, what the ray's
/// quadratic against it gave. The objects are tried in the order in which
/// they were put in, each against a window that ends at the nearest hit so
/// far, so that of two objects hit at the same distance the earlier one stays.
///
/// Where the crossings come in their order, as those of every ray with a
/// direction do, the hit returned is the least of all, and none is returned
/// only where no object is hit. An object without its crossing is not tried:
/// [`covers`] tests beforehand that there is none such.
pub fn nearest_intersected_object(
    scene: &Scene,
    crossings: &Vec<Crossing>,
    min_distance: Scalar,
    max_distance: Scalar,
) -> (hit: Option<IntersectionRecord>)
    ensures
        hit == spec_nearest_intersected_object(*scene, crossings@, min_distance, max_distance),
        scene.objects@.len() == 0 ==> hit is None,
        hit is None <==> nothing_hit(
            scene.objects@,
            crossings@,
            min_distance,
            max_distance,
            probed(scene.objects@, crossings@),
        ),
        hit matches Some(best) ==> within(best.intersection_point, min_distance, max_distance),
        all_ordered(crossings@) ==> is_nearest_hit(
            scene.objects@,
            crossings@,
            min_distance,
            max_distance,
            probed(scene.objects@, crossings@),
            hit,
        ),
        spec_covers(*scene, crossings@) ==> is_nearest_hit(
            scene.objects@,
            crossings@,
            min_distance,
            max_distance,
            scene.objects@.len(),
            hit,
        ),
{
    let count = if scene.objects.len() <= crossings.len() {
        scene.objects.len()
    } else {
        crossings.len()
    };
    let mut nearest_object_distance = max_distance;
    let mut intersect_anything: Option<IntersectionRecord> = None;
    let mut index: usize = 0;
    while index < count
        invariant
            index <= count,
            count == probed(scene.objects@, crossings@),
            intersect_anything == nearest_among(
                scene.objects@,
                crossings@,
                min_distance,
                max_distance,
                index as nat,
            ),
            nearest_object_distance == bound_after(intersect_anything, max_distance),
        decreases count - index,
    {
        if let Some(intersection) = scene.objects[index].intersect(
            &crossings[index],
            min_distance,
            nearest_object_distance,
        ) {
            nearest_object_distance = intersection.intersection_point;
            intersect_anything = Some(intersection);
        }
        index = index + 1;
    }
    proof {
        lemma_hit_is_within(
            scene.objects@,
            crossings@,
            min_distance,
            max_distance,
            count as nat,
        );
        lemma_none_when_nothing_is_hit(
            scene.objects@,
            crossings@,
            min_distance,
            max_distance,
            count as nat,
        );
        if all_ordered(crossings@) {
            let at = lemma_nearest_is_first_least(
                scene.objects@,
                crossings@,
                min_distance,
                max_distance,
                count as nat,
            );
            if let Some(best) = intersect_anything {
                assert(first_least_hit(
                    scene.objects@,
                    crossings@,
                    min_distance,
                    max_distance,
                    count as nat,
                    at,
                    best,
                ));
            }
        }
    }
    intersect_anything
}

/// The search returns none exactly where no object is hit, whatever the
/// crossings are: as long as nothing has been hit, every object is tried
/// against the whole window.
pub proof fn lemma_none_when_nothing_is_hit(
    objects: Seq<Sphere>,
    crossings: Seq<Crossing>,
    t_min: Scalar,
    t_max: Scalar,
    n: nat,
)
    ensures
        nearest_among(objects, crossings, t_min, t_max, n) is None <==> nothing_hit(
            objects,
            crossings,
            t_min,
            t_max,
            n,
        ),
    decreases n,
{
    if n > 0 {
        lemma_none_when_nothing_is_hit(objects, crossings, t_min, t_max, (n - 1) as nat);
        let before = nearest_among(objects, crossings, t_min, t_max, (n - 1) as nat);
        if before is None {
            assert(objects[n - 1].spec_intersect(crossings[n - 1], t_min, t_max) == alone(
                objects,
                crossings,
                t_min,
                t_max,
                n - 1,
            ));
        } else {
            let hit_before = choose|j: int|
                0 <= j < n - 1 && !(#[trigger] alone(objects, crossings, t_min, t_max, j) is None);
            assert(!(alone(objects, crossings, t_min, t_max, hit_before) is None));
        }
    }
}

/// A hit that the search returns lies strictly inside the window, whatever
/// the crossings are.
pub proof fn lemma_hit_is_within(
    objects: Seq<Sphere>,
    crossings: Seq<Crossing>,
    t_min: Scalar,
    t_max: Scalar,
    n: nat,
)
    ensures
        nearest_among(objects, crossings, t_min, t_max, n) matches Some(best) ==> within(
            best.intersection_point,
            t_min,
            t_max,
        ),
    decreases n,
{
    if n > 0 {
        lemma_hit_is_within(objects, crossings, t_min, t_max, (n - 1) as nat);
    }
}

/// The search returns the least hit, and of equal ones the first: where it
/// returns a record, that is the hit of the object whose place comes back as
/// `at`, strictly inside the window, no farther than any other hit and nearer
/// than every hit before it; where it returns none, no object is hit.
pub proof fn lemma_nearest_is_first_least(
    objects: Seq<Sphere>,
    crossings: Seq<Crossing>,
    t_min: Scalar,
    t_max: Scalar,
    n: nat,
) -> (at: int)
    requires
        n <= objects.len(),
        n <= crossings.len(),
        forall|i: int| 0 <= i < n ==> (#[trigger] crossings[i]).ordered(),
    ensures
        match nearest_among(objects, crossings, t_min, t_max, n) {
            Some(best) => first_least_hit(objects, crossings, t_min, t_max, n, at, best) && within(
                best.intersection_point,
                t_min,
                t_max,
            ),
            None => nothing_hit(objects, crossings, t_min, t_max, n),
        },
    decreases n,
{
    if n == 0 {
        0
    } else {
        let last = n - 1;
        let earlier = lemma_nearest_is_first_least(objects, crossings, t_min, t_max, last as nat);
        let before = nearest_among(objects, crossings, t_min, t_max, last as nat);
        let bound = bound_after(before, t_max);
        let tried = objects[last].spec_intersect(crossings[last], t_min, bound);
        let whole = alone(objects, crossings, t_min, t_max, last);
        assert(crossings[last].ordered());
        match before {
            Some(best) => {
                crossings[last].lemma_narrowed_window(t_min, t_max, bound);
                match tried {
                    Some(record) => {
                        assert(whole == Some(record));
                        assert(first_least_hit(objects, crossings, t_min, t_max, n, last, record));
                        last
                    },
                    None => {
                        assert(first_least_hit(objects, crossings, t_min, t_max, n, earlier, best));
                        earlier
                    },
                }
            },
            None => {
                assert(tried == whole);
                match tried {
                    Some(record) => {
                        assert(first_least_hit(objects, crossings, t_min, t_max, n, last, record));
                        last
                    },
                    None => {
                        assert(nothing_hit(objects, crossings, t_min, t_max, n));
                        0
                    },
                }
            },
        }
    }
}

/// At most one record is the first least hit: what
/// `lemma_nearest_is_first_least` says of the search holds of nothing else.
pub proof fn lemma_first_least_is_one(
    objects: Seq<Sphere>,
    crossings: Seq<Crossing>,
    t_min: Scalar,
    t_max: Scalar,
    n: nat,
    at: int,
    best: IntersectionRecord,
    other_at: int,
    other: IntersectionRecord,
)
    requires
        first_least_hit(objects, crossings, t_min, t_max, n, at, best),
        first_least_hit(objects, crossings, t_min, t_max, n, other_at, other),
    ensures
        at == other_at,
        best == other,
{
    assert(alone(objects, crossings, t_min, t_max, at) == Some(best));
    assert(alone(objects, crossings, t_min, t_max, other_at) == Some(other));
}

/// Of two spheres that the same ray hits, the search returns the nearer hit,
/// whichever of the two was put into the scene first.
pub proof fn lemma_nearer_of_two_wins(
    one_way: Scene,
    other_way: Scene,
    a: Sphere,
    a_crossing: Crossing,
    b: Sphere,
    b_crossing: Crossing,
    t_min: Scalar,
    t_max: Scalar,
)
    requires
        one_way.objects@ == seq![a, b],
        other_way.objects@ == seq![b, a],
        a_crossing.ordered(),
        b_crossing.ordered(),
        a.spec_intersect(a_crossing, t_min, t_max) is Some,
        b.spec_intersect(b_crossing, t_min, t_max) is Some,
        a.spec_intersect(a_crossing, t_min, t_max).unwrap().intersection_point.spec_lt(
            b.spec_intersect(b_crossing, t_min, t_max).unwrap().intersection_point,
        ),
    ensures
        spec_nearest_intersected_object(one_way, seq![a_crossing, b_crossing], t_min, t_max)
            == a.spec_intersect(a_crossing, t_min, t_max),
        spec_nearest_intersected_object(other_way, seq![b_crossing, a_crossing], t_min, t_max)
            == a.spec_intersect(a_crossing, t_min, t_max),
{
    let a_hit = a.spec_intersect(a_crossing, t_min, t_max).unwrap();
    let b_hit = b.spec_intersect(b_crossing, t_min, t_max).unwrap();
    reveal_with_fuel(nearest_among, 3);
    b_crossing.lemma_narrowed_window(t_min, t_max, a_hit.intersection_point);
    a_crossing.lemma_narrowed_window(t_min, t_max, b_hit.intersection_point);
}

/// Whether the second scene holds the objects of the first, each with its
/// crossings, in another order: object `j` of the second stands at place
/// `place[j]` in the first, and object `i` of the first at place `back[i]`
/// in the second.
pub open spec fn reordered(
    objects: Seq<Sphere>,
    crossings: Seq<Crossing>,
    other_objects: Seq<Sphere>,
    other_crossings: Seq<Crossing>,
    place: Seq<int>,
    back: Seq<int>,
) -> bool {
    &&& objects.len() == crossings.len()
    &&& other_objects.len() == objects.len()
    &&& other_crossings.len() == objects.len()
    &&& place.len() == objects.len()
    &&& back.len() == objects.len()
    &&& forall|j: int|
        0 <= j < objects.len() ==> {
            &&& 0 <= #[trigger] place[j] < objects.len()
            &&& other_objects[j] == objects[place[j]]
            &&& other_crossings[j] == crossings[place[j]]
        }
    &&& forall|i: int|
        0 <= i < objects.len() ==> {
            &&& 0 <= #[trigger] back[i] < objects.len()
            &&& place[back[i]] == i
        }
}

/// The distance of the nearest hit does not depend on the order of the
/// objects: put into the scene in any other order, the same objects give a
/// hit where they gave one before, and at the same distance.
pub proof fn lemma_nearest_distance_ignores_order(
    objects: Seq<Sphere>,
    crossings: Seq<Crossing>,
    other_objects: Seq<Sphere>,
    other_crossings: Seq<Crossing>,
    place: Seq<int>,
    back: Seq<int>,
    t_min: Scalar,
    t_max: Scalar,
)
    requires
        reordered(objects, crossings, other_objects, other_crossings, place, back),
        forall|i: int| 0 <= i < crossings.len() ==> (#[trigger] crossings[i]).ordered(),
    ensures
        match (
            nearest_among(objects, crossings, t_min, t_max, objects.len()),
            nearest_among(other_objects, other_crossings, t_min, t_max, objects.len()),
        ) {
            (Some(best), Some(other)) => best.intersection_point.spec_eq(other.intersection_point),
            (None, None) => true,
            _ => false,
        },
{
    let n = objects.len();
    assert forall|j: int| 0 <= j < n implies (#[trigger] other_crossings[j]).ordered() by {
        assert(other_crossings[j] == crossings[place[j]]);
    }
    let at = lemma_nearest_is_first_least(objects, crossings, t_min, t_max, n);
    let other_at = lemma_nearest_is_first_least(other_objects, other_crossings, t_min, t_max, n);
    let here = nearest_among(objects, crossings, t_min, t_max, n);
    let there = nearest_among(other_objects, other_crossings, t_min, t_max, n);
    if here is Some {
        let moved = back[at];
        assert(place[moved] == at);
        assert(alone(other_objects, other_crossings, t_min, t_max, moved) == alone(
            objects,
            crossings,
            t_min,
            t_max,
            at,
        ));
    }
    if there is Some {
        let from = place[other_at];
        assert(alone(other_objects, other_crossings, t_min, t_max, other_at) == alone(
            objects,
            crossings,
            t_min,
            t_max,
            from,
        ));
    }
}

} // verus!
