//! The rules of shading: which lights reach a point, and how far a ray is
//! followed.
//!
//! The sums and products of shading are single-precision arithmetic, which
//! the host does. The decisions between them are made here: whether a light
//! adds its ambient, diffuse or specular term, and whether a ray ends at the
//! surface it hits or goes on as a mirrored or a refracted one.

use crate::colors::get_vector;
use crate::colors::holds_color;
use crate::colors::Color;
use crate::intersections::alone;
use crate::intersections::nothing_hit;
use crate::intersections::lemma_none_when_nothing_is_hit;
use crate::intersections::nearest_intersected_object;
use crate::intersections::probed;
use crate::intersections::spec_nearest_intersected_object;
use crate::intersections::Crossing;
use crate::intersections::IntersectionRecord;
use crate::lights::Light;
use crate::lights::LightSource;
use crate::lights::LightType;
use crate::pixels::lemma_one_color_everywhere;
use crate::pixels::spec_bytes;
use crate::pixels::PixelBuffer;
use crate::scalar::Scalar;
use crate::scene::Scene;
use crate::vector::Vector3;
use vstd::prelude::*;

verus! {

/// Code of one thousandth, the near end of the window of every ray that
/// leaves a surface. It keeps a ray from hitting the point it starts at.
pub const RAY_EPSILON_BITS: u32 = 0x3A83_126F;

/// Code of one hundred, the far end of the window of a shadow ray.
pub const SHADOW_REACH_BITS: u32 = 0x42C8_0000;

/// Code of the largest finite number, the far end of the window of a traced
/// ray.
pub const FARTHEST_BITS: u32 = 0x7F7F_FFFF;

/// Code of the refractive index of amber.
pub const REFRACTIVE_INDEX_OF_AMBER_BITS: u32 = 0x3FC6_6666;

/// Code of the refractive index of diamond.
pub const REFRACTIVE_INDEX_OF_DIAMOND_BITS: u32 = 0x401A_B021;

/// The colour of a ray that hits nothing: black with a breath of blue.
pub open spec fn spec_background_color() -> Color {
    Color { r: 0, g: 0, b: 32, a: 255 }
}

/// The near end of the window of every ray that leaves a surface.
pub open spec fn spec_ray_epsilon() -> Scalar {
    Scalar { bits: RAY_EPSILON_BITS }
}

/// The far end of the window of a shadow ray.
pub open spec fn spec_shadow_reach() -> Scalar {
    Scalar { bits: SHADOW_REACH_BITS }
}

/// The far end of the window of a traced ray.
pub open spec fn spec_farthest() -> Scalar {
    Scalar { bits: FARTHEST_BITS }
}

/// The refractive index that marks a material as one that rays do not enter.
pub open spec fn spec_reference_index() -> Scalar {
    Scalar { bits: REFRACTIVE_INDEX_OF_AMBER_BITS }
}

/// The colour of a ray that hits nothing.
pub fn background_color() -> (c: Color)
    ensures
        c == spec_background_color(),
{
    Color::RGB(0, 0, 32)
}

/// The colour of a ray that hits nothing, as the vector that a traced ray
/// brings back.
pub fn background_vector() -> (v: Vector3)
    ensures
        holds_color(v, spec_background_color()),
{
    get_vector(background_color())
}

/// The near end of the window of every ray that leaves a surface.
pub fn ray_epsilon() -> (t: Scalar)
    ensures
        t == spec_ray_epsilon(),
{
    Scalar::from_bits(RAY_EPSILON_BITS)
}

/// The far end of the window of a shadow ray.
pub fn shadow_reach() -> (t: Scalar)
    ensures
        t == spec_shadow_reach(),
{
    Scalar::from_bits(SHADOW_REACH_BITS)
}

/// The far end of the window of a traced ray.
pub fn farthest() -> (t: Scalar)
    ensures
        t == spec_farthest(),
{
    Scalar::from_bits(FARTHEST_BITS)
}

/// The windows are not empty: the near end lies above zero and below both far
/// ends, and the reach of a shadow ray is below the farthest parameter.
pub proof fn lemma_windows_are_not_empty()
    ensures
        spec_ray_epsilon().spec_positive(),
        spec_ray_epsilon().spec_lt(spec_shadow_reach()),
        spec_shadow_reach().spec_lt(spec_farthest()),
{
    Scalar::lemma_zero_and_one();
    Scalar::spec_zero().lemma_rank_orders(spec_ray_epsilon());
    spec_ray_epsilon().lemma_rank_orders(spec_shadow_reach());
    spec_shadow_reach().lemma_rank_orders(spec_farthest());
}

/// What the host measured at a hit point for one light of the scene. With
/// `N` the normal at the point, `L` the vector from the point to the light,
/// `R = 2 N (N.L) - L` its mirror image and `V` the direction back along the
/// ray:
pub struct LightProbe {
    /// The crossings of the ray from the point along `L` with each object of
    /// the scene, object by object.
    pub shadow_crossings: Vec<Crossing>,
    /// `N.L`.
    pub n_dot_l: Scalar,
    /// `R.V`.
    pub r_dot_v: Scalar,
}

/// Which terms one light adds to the intensity at a point.
#[derive(Clone, Copy, Debug, PartialEq, Eq, Structural)]
pub struct LightTerms {
    /// The light's intensity as it is.
    pub ambient: bool,
    /// The intensity times the cosine between `N` and `L`.
    pub diffuse: bool,
    /// The intensity times the cosine between `R` and `V`, raised to the
    /// exponent of the surface.
    pub specular: bool,
}

/// Whether anything stands between a point and a light: whether the ray
/// towards the light hits an object of the scene on its way.
pub open spec fn spec_in_shadow(scene: Scene, shadow_crossings: Seq<Crossing>) -> bool {
    spec_nearest_intersected_object(
        scene,
        shadow_crossings,
        spec_ray_epsilon(),
        spec_shadow_reach(),
    ) is Some
}

/// The terms that `light` adds at a point with the measurements `probe`, on a
/// surface whose highlight exponent is `specular`.
///
/// An ambient light adds its intensity whatever stands in the way. A
/// positional light adds nothing to a point in its shadow; elsewhere it adds
/// the diffuse term where the surface faces it, and the specular term where
/// the surface has an exponent above zero and the mirrored light comes
/// towards the eye.
pub open spec fn spec_light_terms(
    scene: Scene,
    light: LightSource,
    probe: LightProbe,
    specular: Scalar,
) -> LightTerms {
    match light.spec_light_type() {
        LightType::Ambient => LightTerms { ambient: true, diffuse: false, specular: false },
        LightType::Positional => if spec_in_shadow(scene, probe.shadow_crossings@) {
            LightTerms { ambient: false, diffuse: false, specular: false }
        } else {
            LightTerms {
                ambient: false,
                diffuse: probe.n_dot_l.spec_positive(),
                specular: specular.spec_positive() && probe.r_dot_v.spec_positive(),
            }
        },
    }
}

/// Tests whether anything stands between a point and a light.
pub fn in_shadow(scene: &Scene, shadow_crossings: &Vec<Crossing>) -> (shadowed: bool)
    ensures
        shadowed == spec_in_shadow(*scene, shadow_crossings@),
        shadowed <==> !nothing_hit(
            scene.objects@,
            shadow_crossings@,
            spec_ray_epsilon(),
            spec_shadow_reach(),
            probed(scene.objects@, shadow_crossings@),
        ),
{
    nearest_intersected_object(scene, shadow_crossings, ray_epsilon(), shadow_reach()).is_some()
}

/// Decides which terms `light` adds at a point.
pub fn light_terms(scene: &Scene, light: &LightSource, probe: &LightProbe, specular: Scalar) -> (terms:
    LightTerms)
    ensures
        terms == spec_light_terms(*scene, *light, *probe, specular),
        light.spec_light_type() == LightType::Positional && spec_in_shadow(
            *scene,
            probe.shadow_crossings@,
        ) ==> !terms.ambient && !terms.diffuse && !terms.specular,
{
    match light.light_type() {
        LightType::Ambient => LightTerms { ambient: true, diffuse: false, specular: false },
        LightType::Positional => {
            if in_shadow(scene, &probe.shadow_crossings) {
                LightTerms { ambient: false, diffuse: false, specular: false }
            } else {
                LightTerms {
                    ambient: false,
                    diffuse: probe.n_dot_l.is_positive(),
                    specular: specular.is_positive() && probe.r_dot_v.is_positive(),
                }
            }
        },
    }
}

/// Whether `probes` is what shading in `scene` is meant to be given: one set
/// of measurements for each light, and in that of each positional light one
/// shadow crossing for each object. The shadow crossings of an ambient light
/// are never read and may be left empty.
pub open spec fn spec_probes_cover(scene: Scene, probes: Seq<LightProbe>) -> bool {
    &&& probes.len() == scene.lights@.len()
    &&& forall|i: int|
        0 <= i < probes.len() && scene.lights@[i].spec_light_type() == LightType::Positional ==> (
        #[trigger] probes[i]).shadow_crossings@.len() == scene.objects@.len()
}

/// Tests whether `probes` holds the measurements for every light of `scene`,
/// with a shadow crossing for every object where the light is a positional
/// one. Shading with probes that fail this test leaves out the lights that
/// have none, and overlooks the objects without a shadow crossing.
pub fn probes_cover(scene: &Scene, probes: &Vec<LightProbe>) -> (ok: bool)
    ensures
        ok == spec_probes_cover(*scene, probes@),
{
    if probes.len() != scene.lights.len() {
        return false;
    }
    let mut index: usize = 0;
    while index < probes.len()
        invariant
            index <= probes@.len(),
            probes@.len() == scene.lights@.len(),
            forall|i: int|
                0 <= i < index && scene.lights@[i].spec_light_type() == LightType::Positional ==> (
                #[trigger] probes@[i]).shadow_crossings@.len() == scene.objects@.len(),
        decreases probes@.len() - index,
    {
        match scene.lights[index].light_type() {
            LightType::Ambient => {},
            LightType::Positional => {
                if probes[index].shadow_crossings.len() != scene.objects.len() {
                    return false;
                }
            },
        }
        index = index + 1;
    }
    true
}

/// How many lights of `lights` have their measurements in `probes`.
pub open spec fn measured(lights: Seq<LightSource>, probes: Seq<LightProbe>) -> nat {
    if lights.len() <= probes.len() {
        lights.len()
    } else {
        probes.len()
    }
}

/// Decides, light by light in the order of the scene, which terms make up the
/// intensity at a point. `probes` holds the measurements for each light in
/// that order; a light without measurements is left out. [`probes_cover`]
/// tests beforehand that there is none such.
pub fn compute_light_terms(scene: &Scene, probes: &Vec<LightProbe>, specular: Scalar) -> (terms:
    Vec<LightTerms>)
    ensures
        terms@.len() == measured(scene.lights@, probes@),
        spec_probes_cover(*scene, probes@) ==> terms@.len() == scene.lights@.len(),
        forall|i: int|
            0 <= i < terms@.len() ==> terms@[i] == spec_light_terms(
                *scene,
                scene.lights@[i],
                #[trigger] probes@[i],
                specular,
            ),
{
    let count = if scene.lights.len() <= probes.len() {
        scene.lights.len()
    } else {
        probes.len()
    };
    let mut terms: Vec<LightTerms> = Vec::new();
    let mut index: usize = 0;
    while index < count
        invariant
            index <= count,
            count == measured(scene.lights@, probes@),
            terms@.len() == index,
            forall|i: int|
                0 <= i < index ==> terms@[i] == spec_light_terms(
                    *scene,
                    scene.lights@[i],
                    #[trigger] probes@[i],
                    specular,
                ),
        decreases count - index,
    {
        terms.push(light_terms(scene, &scene.lights[index], &probes[index], specular));
        index = index + 1;
    }
    terms
}

/// A positional light that any one object hides adds nothing: where the ray
/// from the point towards the light hits object `i` before the parameter
/// `upto`, and `upto` is within the reach of a shadow ray, neither a diffuse
/// nor a specular term comes from that light. With `upto` at one, the
/// parameter of the light itself, the object stands between the point and the
/// light.
pub proof fn lemma_hidden_light_adds_nothing(
    scene: Scene,
    light: LightSource,
    probe: LightProbe,
    specular: Scalar,
    i: int,
    upto: Scalar,
)
    requires
        light.spec_light_type() == LightType::Positional,
        0 <= i < probed(scene.objects@, probe.shadow_crossings@),
        upto.spec_le(spec_shadow_reach()),
        alone(scene.objects@, probe.shadow_crossings@, spec_ray_epsilon(), upto, i) is Some,
    ensures
        spec_in_shadow(scene, probe.shadow_crossings@),
        spec_light_terms(scene, light, probe, specular) == (LightTerms {
            ambient: false,
            diffuse: false,
            specular: false,
        }),
{
    probe.shadow_crossings@[i].lemma_wider_window(spec_ray_epsilon(), upto, spec_shadow_reach());
    assert(alone(
        scene.objects@,
        probe.shadow_crossings@,
        spec_ray_epsilon(),
        spec_shadow_reach(),
        i,
    ) is Some);
    lemma_none_when_nothing_is_hit(
        scene.objects@,
        probe.shadow_crossings@,
        spec_ray_epsilon(),
        spec_shadow_reach(),
        probed(scene.objects@, probe.shadow_crossings@),
    );
}

/// How a ray goes on from the surface it has hit.
#[derive(Clone, Copy, Debug, PartialEq, Eq, Structural)]
pub enum Bounce {
    /// It does not: the colour of the ray is the local colour of the surface.
    Stop,
    /// As a mirrored ray, whose colour is blended into the local one by the
    /// reflective share of the surface.
    Reflect,
    /// As a mirrored ray and as a second ray into the surface, whose colour
    /// is added on top of the blend.
    ReflectAndRefract,
}

/// What tracing a ray comes to.
#[derive(Clone, Copy, Debug)]
pub enum Trace {
    /// The ray hits nothing and has the colour of the background.
    Background,
    /// The ray hits a surface at `hit` and goes on from there as `bounce`
    /// says.
    Surface { hit: IntersectionRecord, bounce: Bounce },
}

/// How a ray that has `recursion_depth` bounces left goes on from `hit`.
///
/// It stops where the surface mirrors nothing or no bounce is left. Else it
/// is mirrored, and where the material's refractive index is not the one of
/// reference, a second ray is followed as well.
pub open spec fn spec_bounce(hit: IntersectionRecord, recursion_depth: int) -> Bounce {
    if hit.object_reflective.spec_le(Scalar::spec_zero()) || recursion_depth <= 0 {
        Bounce::Stop
    } else if hit.object_refractive.spec_eq(spec_reference_index()) {
        Bounce::Reflect
    } else {
        Bounce::ReflectAndRefract
    }
}

/// What tracing a ray with the crossings `crossings` comes to, in the window
/// from `t_min` to `t_max` and with `recursion_depth` bounces left.
pub open spec fn spec_trace_step(
    scene: Scene,
    crossings: Seq<Crossing>,
    t_min: Scalar,
    t_max: Scalar,
    recursion_depth: int,
) -> Trace {
    match spec_nearest_intersected_object(scene, crossings, t_min, t_max) {
        Some(hit) => Trace::Surface { hit, bounce: spec_bounce(hit, recursion_depth) },
        None => Trace::Background,
    }
}

/// The bounces left to the rays that go on from a surface, for a ray that
/// had `recursion_depth` left: one fewer, and none where none was left.
pub open spec fn spec_next_depth(recursion_depth: int) -> int {
    if recursion_depth > 0 {
        recursion_depth - 1
    } else {
        0
    }
}

/// Counts down the bounces: the depth at which the mirrored and the second
/// ray of a ray of depth `recursion_depth` are traced. Each step down the
/// tree of rays lowers the depth by one until none is left.
pub fn next_depth(recursion_depth: i32) -> (d: i32)
    ensures
        d == spec_next_depth(recursion_depth as int),
        recursion_depth > 0 ==> d == recursion_depth - 1,
        recursion_depth > 0 ==> 0 <= d < recursion_depth,
{
    if recursion_depth > 0 {
        recursion_depth - 1
    } else {
        0
    }
}

/// Decides how a ray goes on from `hit`.
pub fn bounce(hit: &IntersectionRecord, recursion_depth: i32) -> (b: Bounce)
    ensures
        b == spec_bounce(*hit, recursion_depth as int),
        recursion_depth <= 0 ==> b == Bounce::Stop,
        b != Bounce::Stop ==> spec_next_depth(recursion_depth as int) == recursion_depth - 1,
{
    if hit.object_reflective.le(Scalar::zero()) || recursion_depth <= 0 {
        Bounce::Stop
    } else if hit.object_refractive.eq(Scalar::from_bits(REFRACTIVE_INDEX_OF_AMBER_BITS)) {
        Bounce::Reflect
    } else {
        Bounce::ReflectAndRefract
    }
}

/// Finds what a ray hits and decides how it goes on. `crossings` holds,
/// object by object, what the ray's quadratic against it gave.
///
/// In a scene without objects every ray has the colour of the background.
/// With no bounce left no ray goes on, however much the surface mirrors.
pub fn trace_step(
    scene: &Scene,
    crossings: &Vec<Crossing>,
    t_min: Scalar,
    t_max: Scalar,
    recursion_depth: i32,
) -> (step: Trace)
    ensures
        step == spec_trace_step(*scene, crossings@, t_min, t_max, recursion_depth as int),
        scene.objects@.len() == 0 ==> step is Background,
        recursion_depth <= 0 ==> step is Background || step->bounce == Bounce::Stop,
{
    match nearest_intersected_object(scene, crossings, t_min, t_max) {
        Some(hit) => {
            let b = bounce(&hit, recursion_depth);
            Trace::Surface { hit, bounce: b }
        },
        None => Trace::Background,
    }
}

/// What tracing comes to depends on the scene only through its objects in
/// their order: two scenes with the same objects give every ray the same
/// step, so that a picture made twice from the same rays is the same picture.
pub proof fn lemma_trace_is_repeatable(
    first: Scene,
    second: Scene,
    crossings: Seq<Crossing>,
    t_min: Scalar,
    t_max: Scalar,
    recursion_depth: int,
)
    requires
        first.objects@ == second.objects@,
    ensures
        spec_trace_step(first, crossings, t_min, t_max, recursion_depth) == spec_trace_step(
            second,
            crossings,
            t_min,
            t_max,
            recursion_depth,
        ),
{
}

/// A picture of a scene without objects is background all over: every ray
/// into such a scene has the colour of the background, and a picture whose
/// pixels all hold that colour shows it in every pixel.
pub proof fn lemma_empty_scene_is_background(
    scene: Scene,
    crossings: Seq<Crossing>,
    t_min: Scalar,
    t_max: Scalar,
    recursion_depth: int,
    picture: PixelBuffer,
    colors: Seq<Vector3>,
    column: u32,
    row: u32,
)
    requires
        scene.objects@.len() == 0,
        picture@ == spec_bytes(colors),
        colors.len() == picture.spec_width() * picture.spec_height(),
        forall|k: int|
            0 <= k < colors.len() ==> holds_color(#[trigger] colors[k], spec_background_color()),
        column < picture.spec_width(),
        row < picture.spec_height(),
    ensures
        spec_trace_step(scene, crossings, t_min, t_max, recursion_depth) == Trace::Background,
        picture.spec_pixel(column, row) == Some(spec_background_color()),
{
    lemma_one_color_everywhere(picture, colors, spec_background_color(), column, row);
}

} // verus!
