use raytracer::colors::Color;
use raytracer::intersections::Intersectable;
use raytracer::lights::AmbientLight;
use raytracer::lights::Light;
use raytracer::lights::LightSource;
use raytracer::lights::LightType;
use raytracer::lights::PositionalLight;
use raytracer::scalar::Scalar;
use raytracer::scene::Scene;
use raytracer::shapes::Sphere;
use raytracer::vector::Vector3;

fn s(x: f32) -> Scalar {
    Scalar::from_bits(x.to_bits())
}

fn f(x: Scalar) -> f32 {
    f32::from_bits(x.to_bits())
}

fn v(x: f32, y: f32, z: f32) -> Vector3 {
    Vector3::new(s(x), s(y), s(z))
}

fn xyz(v: Vector3) -> (f32, f32, f32) {
    (f(v.x), f(v.y), f(v.z))
}

fn ball(x: f32) -> Sphere {
    Sphere::new(v(x, 0.5, -0.5), s(1.0), v(10.0, 20.0, 30.0), s(70.0), s(0.3), s(1.55))
}

#[test]
fn a_new_scene_is_empty() {
    let scene = Scene::default();
    assert_eq!(scene.objects.len(), 0);
    assert_eq!(scene.lights.len(), 0);
    assert!(scene.is_well_formed());
}

#[test]
fn push_keeps_the_order() {
    let mut scene = Scene::default();
    scene.push(ball(1.0));
    scene.push(ball(2.0));
    scene.push(ball(3.0));
    assert_eq!(scene.objects.len(), 3);
    assert_eq!(f(scene.objects[0].center.x), 1.0);
    assert_eq!(f(scene.objects[1].center.x), 2.0);
    assert_eq!(f(scene.objects[2].center.x), 3.0);
    assert_eq!(scene.lights.len(), 0);
}

#[test]
fn add_light_keeps_the_order() {
    let mut scene = Scene::default();
    scene.add_light(LightSource::Positional(PositionalLight::new(
        v(0.0, -2.0, -2.0),
        s(0.9),
        v(255.0, 255.0, 255.0),
    )));
    scene.add_light(LightSource::Ambient(AmbientLight::new(s(0.4), v(255.0, 255.0, 255.0))));
    assert_eq!(scene.lights.len(), 2);
    assert_eq!(scene.lights[0].light_type(), LightType::Positional);
    assert_eq!(scene.lights[1].light_type(), LightType::Ambient);
    assert_eq!(scene.objects.len(), 0);
}

#[test]
fn the_nth_center_is_found_by_place() {
    let mut scene = Scene::default();
    scene.push(ball(1.0));
    scene.push(ball(2.0));
    assert_eq!(scene.get_nth_element_center(0).map(xyz), Some((1.0, 0.5, -0.5)));
    assert_eq!(scene.get_nth_element_center(1).map(xyz), Some((2.0, 0.5, -0.5)));
}

#[test]
fn there_is_no_center_outside_the_scene() {
    let mut scene = Scene::default();
    assert!(scene.get_nth_element_center(0).is_none());
    scene.push(ball(1.0));
    assert!(scene.get_nth_element_center(1).is_none());
    assert!(scene.get_nth_element_center(-1).is_none());
    assert!(scene.get_nth_element_center(i32::MIN).is_none());
    assert!(scene.get_nth_element_center(i32::MAX).is_none());
}

#[test]
fn the_camera_looks_at_the_object_or_straight_ahead() {
    let mut scene = Scene::default();
    scene.push(ball(7.0));
    assert_eq!(xyz(scene.look_at_target(0)), (7.0, 0.5, -0.5));
    assert_eq!(xyz(scene.look_at_target(1)), (1.0, 0.0, 0.0));
    assert_eq!(xyz(scene.look_at_target(-3)), (1.0, 0.0, 0.0));
}

#[test]
fn sphere_gives_back_what_it_was_made_of() {
    let sphere =
        Sphere::new(v(2.0, 0.0, 0.0), s(0.7), v(6.0, 214.0, 160.0), s(6100.0), s(0.3), s(1.55));
    assert_eq!(xyz(sphere.center()), (2.0, 0.0, 0.0));
    assert_eq!(xyz(Intersectable::center(&sphere)), (2.0, 0.0, 0.0));
    assert_eq!(f(sphere.radius()), 0.7);
    assert_eq!(f(sphere.specular()), 6100.0);
    assert_eq!(f(sphere.reflective()), 0.3);
    assert_eq!(f(sphere.refractive()), 1.55);
    assert_eq!(xyz(sphere.color_vector()), (6.0, 214.0, 160.0));
    assert_eq!(sphere.get_color(), Color::RGB(6, 214, 160));
}

#[test]
fn sphere_color_is_cut_to_bytes() {
    let sphere = Sphere::new(v(0.0, 0.0, 0.0), s(1.0), v(6.9, 300.0, -4.0), s(0.0), s(0.0), s(1.0));
    assert_eq!(sphere.get_color(), Color::RGB(6, 255, 0));
}

#[test]
fn a_sphere_needs_a_radius_above_zero() {
    let good = ball(1.0);
    assert!(good.is_well_formed());
    let mut flat = good;
    flat.radius = s(0.0);
    assert!(!flat.is_well_formed());
    let mut inverted = good;
    inverted.radius = s(-1.0);
    assert!(!inverted.is_well_formed());
    let mut unknown = good;
    unknown.radius = s(f32::NAN);
    assert!(!unknown.is_well_formed());
}

#[test]
fn a_sphere_mirrors_between_nothing_and_all() {
    let good = ball(1.0);
    for share in [0.0, 0.5, 1.0] {
        let mut sphere = good;
        sphere.reflective = s(share);
        assert!(sphere.is_well_formed());
    }
    for share in [-0.1, 1.1, f32::NAN] {
        let mut sphere = good;
        sphere.reflective = s(share);
        assert!(!sphere.is_well_formed());
    }
}

#[test]
fn a_sphere_has_no_channel_or_exponent_below_zero() {
    let good = ball(1.0);
    let mut dark = good;
    dark.color = v(0.0, 0.0, 0.0);
    dark.specular = s(0.0);
    assert!(dark.is_well_formed());
    let mut wrong = good;
    wrong.color = v(1.0, -1.0, 1.0);
    assert!(!wrong.is_well_formed());
    let mut dull = good;
    dull.specular = s(-1.0);
    assert!(!dull.is_well_formed());
}

#[test]
fn a_scene_is_well_formed_when_all_in_it_is() {
    let mut scene = Scene::default();
    scene.push(ball(1.0));
    scene.add_light(LightSource::Ambient(AmbientLight::new(s(0.4), v(255.0, 255.0, 255.0))));
    assert!(scene.is_well_formed());

    let mut with_bad_sphere = Scene::default();
    with_bad_sphere.push(ball(1.0));
    let mut flat = ball(2.0);
    flat.radius = s(0.0);
    with_bad_sphere.push(flat);
    assert!(!with_bad_sphere.is_well_formed());

    let mut with_bad_light = Scene::default();
    with_bad_light.push(ball(1.0));
    with_bad_light.add_light(LightSource::Positional(PositionalLight::new(
        v(0.0, 0.0, 0.0),
        s(-0.5),
        v(255.0, 255.0, 255.0),
    )));
    assert!(!with_bad_light.is_well_formed());
}

#[test]
fn positional_light_gives_back_what_it_was_made_of() {
    let light = PositionalLight::new(v(0.0, -2.0, -2.0), s(0.9), v(255.0, 254.9, 0.2));
    assert_eq!(xyz(light.center()), (0.0, -2.0, -2.0));
    assert_eq!(xyz(light.color_vector()), (255.0, 254.9, 0.2));
    assert_eq!(light.get_color(), Color::RGB(255, 254, 0));
    assert_eq!(Light::light_type(&light), LightType::Positional);
    assert_eq!(f(Light::intensity(&light)), 0.9);
    assert_eq!(xyz(Light::center(&light)), (0.0, -2.0, -2.0));
    assert!(light.is_well_formed());
}

#[test]
fn ambient_light_gives_back_what_it_was_made_of() {
    let light = AmbientLight::new(s(0.4), v(1.0, 2.0, 3.0));
    assert_eq!(f(light.intensity()), 0.4);
    assert_eq!(light.light_type(), "ambient");
    assert_eq!(xyz(light.color_vector()), (1.0, 2.0, 3.0));
    assert_eq!(light.get_color(), Color::RGB(1, 2, 3));
    assert_eq!(Light::light_type(&light), LightType::Ambient);
    assert_eq!(f(Light::intensity(&light)), 0.4);
    assert_eq!(xyz(Light::center(&light)), (0.0, 0.0, 0.0));
    assert!(light.is_well_formed());
}

#[test]
fn a_light_source_answers_for_the_light_in_it() {
    let point =
        LightSource::Positional(PositionalLight::new(v(1.0, 2.0, 3.0), s(0.9), v(0.0, 0.0, 0.0)));
    assert_eq!(point.light_type(), LightType::Positional);
    assert_eq!(f(point.intensity()), 0.9);
    assert_eq!(xyz(point.center()), (1.0, 2.0, 3.0));

    let around = LightSource::Ambient(AmbientLight::new(s(0.4), v(0.0, 0.0, 0.0)));
    assert_eq!(around.light_type(), LightType::Ambient);
    assert_eq!(f(around.intensity()), 0.4);
    assert_eq!(xyz(around.center()), (0.0, 0.0, 0.0));
}

#[test]
fn a_light_has_no_intensity_below_zero() {
    assert!(!AmbientLight::new(s(-0.1), v(0.0, 0.0, 0.0)).is_well_formed());
    assert!(!AmbientLight::new(s(0.1), v(0.0, -1.0, 0.0)).is_well_formed());
    assert!(AmbientLight::new(s(0.0), v(0.0, 0.0, 0.0)).is_well_formed());
    assert!(!LightSource::Ambient(AmbientLight::new(s(f32::NAN), v(0.0, 0.0, 0.0)))
        .is_well_formed());
}
