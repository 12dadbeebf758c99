use nalgebra::Vector3 as Float3;
use raytracer::colors::get_color;
use raytracer::colors::Color;
use raytracer::intersections::covers;
use raytracer::intersections::nearest_intersected_object;
use raytracer::intersections::ray_sphere_intersection;
use raytracer::intersections::Crossing;
use raytracer::intersections::Intersectable;
use raytracer::intersections::QuadraticRoots;
use raytracer::ray::Ray;
use raytracer::scalar::Scalar;
use raytracer::scene::Scene;
use raytracer::shapes::Sphere;
use raytracer::vector::Vector3;

const AMBER: f32 = 1.55;

fn s(x: f32) -> Scalar {
    Scalar::from_bits(x.to_bits())
}

fn f(x: Scalar) -> f32 {
    f32::from_bits(x.to_bits())
}

fn pack(v: Float3<f32>) -> Vector3 {
    Vector3::new(s(v[0]), s(v[1]), s(v[2]))
}

fn unpack(v: Vector3) -> Float3<f32> {
    Float3::new(f(v.x), f(v.y), f(v.z))
}

fn ray(origin: Float3<f32>, direction: Float3<f32>) -> Ray {
    Ray::new(pack(origin), pack(direction))
}

fn sphere(center: Float3<f32>, radius: f32, color: Float3<f32>) -> Sphere {
    Sphere::new(pack(center), s(radius), pack(color), s(0.0), s(0.0), s(AMBER))
}

/// The quadratic in its plain form, with `b = 2 f.d`.
fn roots(ray: &Ray, sphere: &Sphere) -> QuadraticRoots {
    let radius = f(sphere.radius);
    let ray_direction = unpack(ray.direction());
    let ray_to_sphere = unpack(ray.origin()) - unpack(sphere.center);
    let a = ray_direction.dot(&ray_direction);
    let b = 2.0 * ray_to_sphere.dot(&ray_direction);
    let c: f32 = ray_to_sphere.dot(&ray_to_sphere) - (radius * radius);
    let delta = (b * b) - 4.0 * a * c;
    QuadraticRoots {
        discriminant: s(delta),
        first: s((-b + f32::sqrt(delta)) / (2.0 * a)),
        second: s((-b - f32::sqrt(delta)) / (2.0 * a)),
        tangent: s(-b / 2.0),
    }
}

/// The quadratic in the form with the halved middle coefficient, `b = f.d`.
fn crossing(ray: &Ray, sphere: &Sphere) -> Crossing {
    let origin = unpack(ray.origin());
    let direction = unpack(ray.direction());
    let ray_to_sphere = origin - unpack(sphere.center);
    let a = direction.dot(&direction);
    let b = ray_to_sphere.dot(&direction);
    let c: f32 = ray_to_sphere.dot(&ray_to_sphere) - f(sphere.radius).powi(2);
    let delta = b.powi(2) - a * c;
    let delta_squared = f32::sqrt(delta);
    let near = (-b + -delta_squared) / a;
    let far = (-b + delta_squared) / a;
    Crossing {
        discriminant: s(delta),
        near: s(near),
        far: s(far),
        near_point: pack(origin + near * direction),
        far_point: pack(origin + far * direction),
    }
}

fn crossings(scene: &Scene, ray: &Ray) -> Vec<Crossing> {
    scene.objects.iter().map(|object| crossing(ray, object)).collect()
}

#[test]
fn test_ray_sphere_two_intersections() {
    let r1 = ray(Float3::new(0.0, 0.0, 0.0), Float3::new(1.0, 0.0, 0.0));

    let sphere = sphere(Float3::new(4.0, 0.0, 0.0), 1.0, Float3::new(0.0, 0.0, 0.0));

    let res = ray_sphere_intersection(&roots(&r1, &sphere));

    match res {
        Some(val) => assert_eq!(f(val), 3.0 as f32),
        None => assert!(false),
    }
}

#[test]
fn ray_sphere_intersection_intersection() {
    let r2 = ray(Float3::new(0.0, 0.0, 1.0), Float3::new(1.0, 0.0, 0.0));

    let sphere = sphere(Float3::new(4.0, 0.0, 0.0), 1.0, Float3::new(0.0, 0.0, 0.0));

    let res = ray_sphere_intersection(&roots(&r2, &sphere));

    match res {
        Some(val) => assert_eq!(f(val), 4.0 as f32),
        None => assert!(false),
    }
}

#[test]
fn ray_sphere_intersection_no_intersection() {
    let r3 = ray(Float3::new(0.0, 0.0, 2.0), Float3::new(1.0, 0.0, 0.0));

    let sphere = sphere(Float3::new(4.0, 0.0, 0.0), 1.0, Float3::new(0.0, 0.0, 0.0));

    let res = ray_sphere_intersection(&roots(&r3, &sphere));

    match res {
        None => assert!(true),
        Some(_) => assert!(false),
    }
}

#[test]
fn test_nearest_object_trivial() {
    let mut scene = Scene::default();

    scene.push(sphere(Float3::new(7.0, 0.0, 0.0), 1.2, Float3::new(255.0, 255.0, 255.0)));

    scene.push(sphere(Float3::new(4.0, 0.0, 0.0), 1.0, Float3::new(0.0, 0.0, 0.0)));

    let r = ray(Float3::new(0.0, 0.0, 0.0), Float3::new(1.0, 0.0, 0.0));

    let res = nearest_intersected_object(&scene, &crossings(&scene, &r), s(0.01), s(10.0));

    match res {
        Some(intersection) => {
            assert_eq!(
                get_color(intersection.object_color),
                Color::RGB(0.0 as u8, 0.0 as u8, 0.0 as u8)
            );
            assert_eq!(f(intersection.intersection_point), 3.0);
        }
        None => assert!(false),
    }
}

#[test]
fn test_nearest_object_no_intersection() {
    let mut scene = Scene::default();

    scene.push(sphere(Float3::new(7.0, 0.0, 0.0), 1.2, Float3::new(0.0, 0.0, 0.0)));

    scene.push(sphere(Float3::new(4.0, 0.0, 0.0), 1.0, Float3::new(0.0, 0.0, 0.0)));

    let r = ray(Float3::new(0.0, 0.0, 3.0), Float3::new(1.0, 0.0, 0.0));

    let res = nearest_intersected_object(&scene, &crossings(&scene, &r), s(0.01), s(10.0));

    match res {
        Some(_) => assert!(false),
        None => assert!(true),
    }
}

#[test]
fn roots_behind_the_origin_give_nothing() {
    let back = ray(Float3::new(10.0, 0.0, 0.0), Float3::new(1.0, 0.0, 0.0));
    let ball = sphere(Float3::new(4.0, 0.0, 0.0), 1.0, Float3::new(0.0, 0.0, 0.0));
    assert!(ray_sphere_intersection(&roots(&back, &ball)).is_none());
}

#[test]
fn one_root_behind_the_origin_gives_nothing() {
    let inside = ray(Float3::new(4.0, 0.0, 0.0), Float3::new(1.0, 0.0, 0.0));
    let ball = sphere(Float3::new(4.0, 0.0, 0.0), 1.0, Float3::new(0.0, 0.0, 0.0));
    assert!(ray_sphere_intersection(&roots(&inside, &ball)).is_none());
}

#[test]
fn the_lesser_root_is_read_whichever_comes_first() {
    let swapped = QuadraticRoots {
        discriminant: s(4.0),
        first: s(3.0),
        second: s(5.0),
        tangent: s(4.0),
    };
    assert_eq!(ray_sphere_intersection(&swapped).map(f), Some(3.0));
    let plain = QuadraticRoots {
        discriminant: s(4.0),
        first: s(5.0),
        second: s(3.0),
        tangent: s(4.0),
    };
    assert_eq!(ray_sphere_intersection(&plain).map(f), Some(3.0));
}

#[test]
fn a_discriminant_that_is_no_number_gives_nothing() {
    let broken = QuadraticRoots {
        discriminant: s(f32::NAN),
        first: s(1.0),
        second: s(2.0),
        tangent: s(3.0),
    };
    assert!(ray_sphere_intersection(&broken).is_none());
}

#[test]
fn a_discriminant_of_negative_zero_counts_as_zero() {
    let grazing = QuadraticRoots {
        discriminant: s(-0.0),
        first: s(f32::NAN),
        second: s(f32::NAN),
        tangent: s(4.0),
    };
    assert_eq!(ray_sphere_intersection(&grazing).map(f), Some(4.0));
}

#[test]
fn distance_to_a_sphere_straight_ahead_is_gap_minus_radius() {
    let cases: [(Float3<f32>, Float3<f32>, f32); 3] = [
        (Float3::new(0.0, 0.0, 0.0), Float3::new(4.0, 0.0, 0.0), 1.0),
        (Float3::new(0.0, 0.0, -8.0), Float3::new(0.0, 0.0, 8.0), 2.5),
        (Float3::new(1.0, 2.0, 3.0), Float3::new(1.0, 12.0, 3.0), 0.5),
    ];
    for (origin, center, radius) in cases {
        let towards = (center - origin) / (center - origin).norm();
        let ball = sphere(center, radius, Float3::new(0.0, 0.0, 0.0));
        let hit = ball.intersect(&crossing(&ray(origin, towards), &ball), s(0.001), s(f32::MAX));
        let expected = (origin - center).norm() - radius;
        match hit {
            Some(record) => {
                assert!((f(record.intersection_point) - expected).abs() <= 1.0e-5);
            }
            None => assert!(false),
        }
    }
}

#[test]
fn a_ray_that_passes_wide_hits_nothing() {
    let wide = ray(Float3::new(0.0, 3.0, 0.0), Float3::new(1.0, 0.0, 0.0));
    let ball = sphere(Float3::new(4.0, 0.0, 0.0), 1.0, Float3::new(0.0, 0.0, 0.0));
    let found = crossing(&wide, &ball);
    assert!(f(found.discriminant) <= 0.0);
    assert!(ball.intersect(&found, s(0.001), s(f32::MAX)).is_none());
}

#[test]
fn a_grazing_ray_misses_when_intersect_is_asked() {
    let grazing = ray(Float3::new(0.0, 0.0, 1.0), Float3::new(1.0, 0.0, 0.0));
    let ball = sphere(Float3::new(4.0, 0.0, 0.0), 1.0, Float3::new(0.0, 0.0, 0.0));
    let found = crossing(&grazing, &ball);
    assert_eq!(f(found.discriminant), 0.0);
    assert!(ball.intersect(&found, s(0.001), s(f32::MAX)).is_none());
}

#[test]
fn intersect_copies_the_sphere_into_the_record() {
    let ball = Sphere::new(
        pack(Float3::new(4.0, 0.0, 0.0)),
        s(1.0),
        pack(Float3::new(6.9, 214.2, 300.0)),
        s(70.0),
        s(0.3),
        s(2.417),
    );
    let ahead = ray(Float3::new(0.0, 0.0, 0.0), Float3::new(1.0, 0.0, 0.0));
    let record = ball.intersect(&crossing(&ahead, &ball), s(0.001), s(f32::MAX)).unwrap();
    assert_eq!(f(record.intersection_point), 3.0);
    assert_eq!(unpack(record.intersection_vector), Float3::new(3.0, 0.0, 0.0));
    assert_eq!(unpack(record.object_center), Float3::new(4.0, 0.0, 0.0));
    assert_eq!(unpack(record.object_color), Float3::new(6.9, 214.2, 300.0));
    assert_eq!(get_color(record.object_color), Color::RGB(6, 214, 255));
    assert_eq!(f(record.object_specular), 70.0);
    assert_eq!(f(record.object_reflective), 0.3);
    assert_eq!(f(record.object_refractive), 2.417);
}

#[test]
fn from_inside_a_sphere_the_far_crossing_is_the_hit() {
    let inside = ray(Float3::new(4.0, 0.0, 0.0), Float3::new(1.0, 0.0, 0.0));
    let ball = sphere(Float3::new(4.0, 0.0, 0.0), 1.0, Float3::new(0.0, 0.0, 0.0));
    let record = ball.intersect(&crossing(&inside, &ball), s(0.001), s(f32::MAX)).unwrap();
    assert_eq!(f(record.intersection_point), 1.0);
    assert_eq!(unpack(record.intersection_vector), Float3::new(5.0, 0.0, 0.0));
}

#[test]
fn the_ends_of_the_window_are_not_part_of_it() {
    let ahead = ray(Float3::new(0.0, 0.0, 0.0), Float3::new(1.0, 0.0, 0.0));
    let ball = sphere(Float3::new(4.0, 0.0, 0.0), 1.0, Float3::new(0.0, 0.0, 0.0));
    let found = crossing(&ahead, &ball);
    assert_eq!((f(found.near), f(found.far)), (3.0, 5.0));
    assert_eq!(f(ball.intersect(&found, s(2.9), s(3.1)).unwrap().intersection_point), 3.0);
    assert_eq!(f(ball.intersect(&found, s(3.0), s(6.0)).unwrap().intersection_point), 5.0);
    assert!(ball.intersect(&found, s(3.0), s(5.0)).is_none());
    assert!(ball.intersect(&found, s(0.0), s(3.0)).is_none());
    assert!(ball.intersect(&found, s(f32::NAN), s(10.0)).is_none());
    assert!(ball.intersect(&found, s(0.0), s(f32::NAN)).is_none());
}

#[test]
fn a_ray_without_direction_hits_nothing() {
    let still = ray(Float3::new(0.0, 0.0, 0.0), Float3::new(0.0, 0.0, 0.0));
    let ball = sphere(Float3::new(4.0, 0.0, 0.0), 1.0, Float3::new(0.0, 0.0, 0.0));
    assert!(ball.intersect(&crossing(&still, &ball), s(0.001), s(f32::MAX)).is_none());
}

#[test]
fn crossings_of_a_real_ray_are_ordered() {
    let ahead = ray(Float3::new(0.0, 0.5, 0.0), Float3::new(2.0, 0.0, 0.0));
    let ball = sphere(Float3::new(4.0, 0.0, 0.0), 1.0, Float3::new(0.0, 0.0, 0.0));
    assert!(crossing(&ahead, &ball).is_ordered());
    let swapped = Crossing {
        discriminant: s(1.0),
        near: s(5.0),
        far: s(3.0),
        near_point: pack(Float3::new(5.0, 0.0, 0.0)),
        far_point: pack(Float3::new(3.0, 0.0, 0.0)),
    };
    assert!(!swapped.is_ordered());
}

#[test]
fn the_nearer_of_two_spheres_wins_in_either_order() {
    let near_ball = sphere(Float3::new(4.0, 0.0, 0.0), 1.0, Float3::new(10.0, 20.0, 30.0));
    let far_ball = sphere(Float3::new(9.0, 0.0, 0.0), 2.0, Float3::new(200.0, 100.0, 50.0));
    let ahead = ray(Float3::new(0.0, 0.0, 0.0), Float3::new(1.0, 0.0, 0.0));

    let mut one_way = Scene::default();
    one_way.push(near_ball);
    one_way.push(far_ball);
    let mut other_way = Scene::default();
    other_way.push(far_ball);
    other_way.push(near_ball);

    for scene in [&one_way, &other_way] {
        let hit =
            nearest_intersected_object(scene, &crossings(scene, &ahead), s(0.001), s(f32::MAX))
                .unwrap();
        assert_eq!(f(hit.intersection_point), 3.0);
        assert_eq!(unpack(hit.object_color), Float3::new(10.0, 20.0, 30.0));
    }
}

#[test]
fn of_two_spheres_hit_at_one_distance_the_first_stays() {
    let red = sphere(Float3::new(4.0, 0.0, 0.0), 1.0, Float3::new(255.0, 0.0, 0.0));
    let green = sphere(Float3::new(4.0, 0.0, 0.0), 1.0, Float3::new(0.0, 255.0, 0.0));
    let ahead = ray(Float3::new(0.0, 0.0, 0.0), Float3::new(1.0, 0.0, 0.0));

    let mut scene = Scene::default();
    scene.push(red);
    scene.push(green);
    let hit = nearest_intersected_object(&scene, &crossings(&scene, &ahead), s(0.01), s(10.0));
    assert_eq!(get_color(hit.unwrap().object_color), Color::RGB(255, 0, 0));

    let mut scene = Scene::default();
    scene.push(green);
    scene.push(red);
    let hit = nearest_intersected_object(&scene, &crossings(&scene, &ahead), s(0.01), s(10.0));
    assert_eq!(get_color(hit.unwrap().object_color), Color::RGB(0, 255, 0));
}

#[test]
fn the_nearest_of_many_is_found() {
    let centers: [f32; 6] = [30.0, 12.0, 50.0, 8.0, 20.0, 8.5];
    let mut scene = Scene::default();
    for (place, center) in centers.iter().enumerate() {
        scene.push(sphere(
            Float3::new(*center, 0.0, 0.0),
            1.0,
            Float3::new(place as f32, 0.0, 0.0),
        ));
    }
    let ahead = ray(Float3::new(0.0, 0.0, 0.0), Float3::new(1.0, 0.0, 0.0));
    let hit = nearest_intersected_object(&scene, &crossings(&scene, &ahead), s(0.001), s(100.0))
        .unwrap();
    assert_eq!(f(hit.intersection_point), 7.0);
    assert_eq!(get_color(hit.object_color), Color::RGB(3, 0, 0));
}

#[test]
fn an_empty_scene_is_never_hit() {
    let scene = Scene::default();
    let none: Vec<Crossing> = Vec::new();
    assert!(nearest_intersected_object(&scene, &none, s(0.001), s(f32::MAX)).is_none());
}

#[test]
fn an_object_without_its_crossings_is_not_tried() {
    let mut scene = Scene::default();
    scene.push(sphere(Float3::new(9.0, 0.0, 0.0), 1.0, Float3::new(1.0, 1.0, 1.0)));
    scene.push(sphere(Float3::new(4.0, 0.0, 0.0), 1.0, Float3::new(2.0, 2.0, 2.0)));
    let ahead = ray(Float3::new(0.0, 0.0, 0.0), Float3::new(1.0, 0.0, 0.0));
    let mut found = crossings(&scene, &ahead);
    found.truncate(1);
    let hit = nearest_intersected_object(&scene, &found, s(0.001), s(f32::MAX)).unwrap();
    assert_eq!(f(hit.intersection_point), 8.0);
    assert_eq!(get_color(hit.object_color), Color::RGB(1, 1, 1));
}

#[test]
fn a_hit_beyond_the_far_end_is_not_found() {
    let mut scene = Scene::default();
    scene.push(sphere(Float3::new(40.0, 0.0, 0.0), 1.0, Float3::new(1.0, 1.0, 1.0)));
    let ahead = ray(Float3::new(0.0, 0.0, 0.0), Float3::new(1.0, 0.0, 0.0));
    assert!(nearest_intersected_object(&scene, &crossings(&scene, &ahead), s(0.01), s(10.0))
        .is_none());
}

#[test]
fn ray_keeps_what_it_was_made_of() {
    let r = ray(Float3::new(1.0, 2.0, 3.0), Float3::new(0.0, -1.0, 0.5));
    assert_eq!(unpack(r.origin()), Float3::new(1.0, 2.0, 3.0));
    assert_eq!(unpack(r.direction()), Float3::new(0.0, -1.0, 0.5));
}

/// A fixed sequence of numbers between zero and one that looks scattered.
fn scattered(count: usize, seed: u64) -> Vec<f32> {
    let mut state: u64 = seed;
    (0..count)
        .map(|_| {
            state = state.wrapping_mul(6_364_136_223_846_793_005).wrapping_add(1_442_695_040_888_963_407);
            ((state >> 40) as f32) / ((1u64 << 24) as f32)
        })
        .collect()
}

#[test]
fn the_search_agrees_with_trying_every_object_alone() {
    for round in 0..200u64 {
        let numbers = scattered(4 * 12 + 6, round + 1);
        let mut scene = Scene::default();
        for k in 0..12 {
            scene.push(sphere(
                Float3::new(
                    20.0 * numbers[4 * k] - 10.0,
                    20.0 * numbers[4 * k + 1] - 10.0,
                    20.0 * numbers[4 * k + 2] - 10.0,
                ),
                0.5 + 3.0 * numbers[4 * k + 3],
                Float3::new(k as f32, 0.0, 0.0),
            ));
        }
        let from = Float3::new(
            30.0 * numbers[48] - 15.0,
            30.0 * numbers[49] - 15.0,
            30.0 * numbers[50] - 15.0,
        );
        let towards = Float3::new(
            2.0 * numbers[51] - 1.0,
            2.0 * numbers[52] - 1.0,
            2.0 * numbers[53] - 1.0,
        );
        let shot = ray(from, towards);
        let found = crossings(&scene, &shot);
        assert!(found.iter().all(|c| c.is_ordered()));

        let mut least: Option<(usize, f32)> = None;
        for (k, object) in scene.objects.iter().enumerate() {
            if let Some(record) = object.intersect(&found[k], s(0.001), s(f32::MAX)) {
                let t = f(record.intersection_point);
                if least.map_or(true, |(_, best)| t < best) {
                    least = Some((k, t));
                }
            }
        }

        let hit = nearest_intersected_object(&scene, &found, s(0.001), s(f32::MAX));
        match (hit, least) {
            (Some(record), Some((k, t))) => {
                assert_eq!(f(record.intersection_point), t);
                assert_eq!(unpack(record.object_color), Float3::new(k as f32, 0.0, 0.0));
            }
            (None, None) => {}
            _ => assert!(false, "round {}", round),
        }
    }
}

#[test]
fn crossings_out_of_their_order_are_taken_as_they_come() {
    let first = sphere(Float3::new(4.0, 0.0, 0.0), 1.0, Float3::new(1.0, 0.0, 0.0));
    let second = sphere(Float3::new(5.0, 0.0, 0.0), 1.0, Float3::new(2.0, 0.0, 0.0));
    let swapped = Crossing {
        discriminant: s(1.0),
        near: s(5.0),
        far: s(3.0),
        near_point: pack(Float3::new(5.0, 0.0, 0.0)),
        far_point: pack(Float3::new(3.0, 0.0, 0.0)),
    };
    let plain = Crossing {
        discriminant: s(1.0),
        near: s(4.0),
        far: s(6.0),
        near_point: pack(Float3::new(4.0, 0.0, 0.0)),
        far_point: pack(Float3::new(6.0, 0.0, 0.0)),
    };
    assert!(!swapped.is_ordered());

    let mut one_way = Scene::default();
    one_way.push(first);
    one_way.push(second);
    let hit = nearest_intersected_object(&one_way, &vec![swapped, plain], s(0.001), s(10.0));
    assert_eq!(f(hit.unwrap().intersection_point), 4.0);

    let mut other_way = Scene::default();
    other_way.push(second);
    other_way.push(first);
    let hit = nearest_intersected_object(&other_way, &vec![plain, swapped], s(0.001), s(10.0));
    assert_eq!(f(hit.unwrap().intersection_point), 3.0);
}

#[test]
fn the_record_holds_the_colour_uncut() {
    let ball = Sphere::new(
        pack(Float3::new(4.0, 0.0, 0.0)),
        s(1.0),
        pack(Float3::new(0.5, 100.7, 200.0)),
        s(0.0),
        s(0.0),
        s(1.55),
    );
    let ahead = ray(Float3::new(0.0, 0.0, 0.0), Float3::new(1.0, 0.0, 0.0));
    let record = ball.intersect(&crossing(&ahead, &ball), s(0.01), s(10.0)).unwrap();
    assert_eq!(unpack(record.object_color), Float3::new(0.5, 100.7, 200.0));
    assert_eq!(get_color(record.object_color), Color::RGB(0, 100, 200));

    let mut scene = Scene::default();
    scene.push(ball);
    let hit = nearest_intersected_object(&scene, &crossings(&scene, &ahead), s(0.01), s(10.0));
    assert_eq!(unpack(hit.unwrap().object_color), Float3::new(0.5, 100.7, 200.0));
}

#[test]
fn crossings_cover_a_scene_when_each_object_has_one_in_order() {
    let mut scene = Scene::default();
    scene.push(sphere(Float3::new(9.0, 0.0, 0.0), 1.0, Float3::new(1.0, 1.0, 1.0)));
    scene.push(sphere(Float3::new(4.0, 0.0, 0.0), 1.0, Float3::new(2.0, 2.0, 2.0)));
    let ahead = ray(Float3::new(0.0, 0.0, 0.0), Float3::new(1.0, 0.0, 0.0));
    let found = crossings(&scene, &ahead);
    assert!(covers(&scene, &found));

    let mut short = found.clone();
    short.truncate(1);
    assert!(!covers(&scene, &short));
    assert!(!covers(&scene, &Vec::new()));

    let mut long = found.clone();
    long.push(found[0]);
    assert!(!covers(&scene, &long));

    let mut swapped = found.clone();
    swapped[1] = Crossing {
        discriminant: s(1.0),
        near: s(5.0),
        far: s(3.0),
        near_point: pack(Float3::new(5.0, 0.0, 0.0)),
        far_point: pack(Float3::new(3.0, 0.0, 0.0)),
    };
    assert!(!covers(&scene, &swapped));

    assert!(covers(&Scene::default(), &Vec::new()));
}

#[test]
fn a_sphere_without_its_crossing_is_overlooked_and_covers_says_so() {
    let mut scene = Scene::default();
    scene.push(sphere(Float3::new(4.0, 0.0, 0.0), 1.0, Float3::new(2.0, 2.0, 2.0)));
    let ahead = ray(Float3::new(0.0, 0.0, 0.0), Float3::new(1.0, 0.0, 0.0));
    let none: Vec<Crossing> = Vec::new();
    assert!(!covers(&scene, &none));
    assert!(nearest_intersected_object(&scene, &none, s(0.01), s(10.0)).is_none());
    let found = crossings(&scene, &ahead);
    assert!(covers(&scene, &found));
    assert!(nearest_intersected_object(&scene, &found, s(0.01), s(10.0)).is_some());
}
