use raytrace::camera::Camera;
use raytrace::collidable::{add_to_world, Collidable, CollidableVec, Sphere};
use raytrace::color::Color;
use raytrace::material::{Dielectric, Lambertian, Material, Metal, ScatterOutcome};
use raytrace::point::Point;
use raytrace::ray::{Collision, Facing, Ray};
use raytrace::render::{make_bands, render_pixel, Collector};
use raytrace::utility::{clamp, fx_div, fx_mul, isqrt, rand, rand_range};

const S: i64 = 65536;

fn white_diffuse() -> Material {
    Material::Lambertian(Lambertian::new(Color::new(S, S, S)))
}

#[test]
fn clamp_picks_the_nearest_bound() {
    assert_eq!(clamp(5, 0, 3), 3);
    assert_eq!(clamp(-5, 0, 3), 0);
    assert_eq!(clamp(2, 0, 3), 2);
}

#[test]
fn isqrt_rounds_down() {
    assert_eq!(isqrt(0), 0);
    assert_eq!(isqrt(17), 4);
    assert_eq!(isqrt(4294967296), 65536);
}

#[test]
fn fixed_point_products_and_quotients() {
    assert_eq!(fx_mul(S / 2, S / 2), S / 4);
    assert_eq!(fx_mul(S, 12345), 12345);
    assert_eq!(fx_div(S, 2 * S), S / 2);
    assert_eq!(fx_div(3 * S, 5 * S), 39321);
}

#[test]
fn rand_range_of_one_value_is_that_value() {
    assert_eq!(rand_range(5, 6), 5);
}

#[test]
fn rand_is_a_unit_fraction() {
    for _ in 0..100 {
        let r = rand();
        assert!(0 <= r && r < S);
    }
}

#[test]
fn unit_sphere_samples_are_interior_and_nonzero() {
    for _ in 0..50 {
        let v = Point::random_in_unit_sphere();
        let ls = v.len_sq();
        assert!(0 < ls && ls < (S as i128) * (S as i128));
        let u = Point::random_unit_vector();
        assert!(u.x.abs() <= S && u.y.abs() <= S && u.z.abs() <= S);
    }
}

#[test]
fn vector_algebra_exact_values() {
    let a = Point::new(3 * S, 4 * S, 0);
    assert_eq!(a.len_sq(), 25 * (S as i128) * (S as i128));
    assert_eq!(a.len(), 5 * S);
    let u = a.unit();
    assert_eq!(u, Point::new(39321, 52428, 0));
    let c = Point::from_x(S).cross(Point::from_y(S));
    assert_eq!(c, Point::from_z(S));
    assert_eq!(Point::from_x(S).dot_product(Point::from_y(S)), 0);
}

#[test]
fn reflection_is_the_exact_mirror() {
    let v = Point::new(S, -S, 0);
    let n = Point::from_y(S);
    assert_eq!(v.reflect(n), Point::new(S, S, 0));
}

#[test]
fn reflection_preserves_squared_length() {
    let v = Point::new(S, -S, 0);
    let n = Point::from_y(S);
    let r = v.reflect(n);
    assert_eq!(r.len_sq(), v.len_sq());
}

#[test]
fn face_normal_opposes_the_ray() {
    let mat = white_diffuse();
    let ray = Ray::new(Point::origin(), Point::from_y(-S));
    let outward = Point::from_y(S);
    let mut col = Collision::new(Point::origin(), outward, S, Facing::Front, mat);
    col.set_face_normal(&ray, outward);
    assert_eq!(col.facing, Facing::Front);
    assert_eq!(col.normal, outward);
    assert!(ray.direction.dot_product(col.normal) < 0);

    let against = Ray::new(Point::origin(), Point::from_y(S));
    let mut col2 = Collision::new(Point::origin(), outward, S, Facing::Front, mat);
    col2.set_face_normal(&against, outward);
    assert_eq!(col2.facing, Facing::Back);
    assert_eq!(col2.normal, Point::from_y(-S));
    assert!(against.direction.dot_product(col2.normal) < 0);
}

#[test]
fn sphere_hit_from_outside_is_exact() {
    let sphere = Sphere::new(Point::new(0, 0, -2 * S), S, white_diffuse());
    let ray = Ray::new(Point::origin(), Point::from_z(-S));
    let col = sphere.collide(&ray, 0, 1 << 30).expect("the ray points at the sphere");
    assert_eq!(col.dist, S);
    assert!(col.dist > 0);
    assert_eq!(col.point, Point::from_z(-S));
    assert_eq!(col.normal, Point::from_z(S));
    assert_eq!(col.facing, Facing::Front);
    // the hit lies on the surface: |point - center| equals the radius
    let offset = col.point.sub(Point::new(0, 0, -2 * S));
    assert_eq!(offset.len(), S);
    // and the oriented normal has unit length
    assert_eq!(col.normal.len(), S);
}

#[test]
fn sphere_miss_returns_nothing() {
    let sphere = Sphere::new(Point::new(0, 4 * S, -2 * S), S, white_diffuse());
    let ray = Ray::new(Point::origin(), Point::from_z(-S));
    assert!(sphere.collide(&ray, 0, 1 << 30).is_none());
}

#[test]
fn world_scan_keeps_the_closest_hit() {
    let mut world = CollidableVec::new();
    add_to_world(
        &mut world,
        Collidable::Sphere(Sphere::new(Point::new(0, 0, -4 * S), S, white_diffuse())),
    );
    add_to_world(
        &mut world,
        Collidable::Sphere(Sphere::new(Point::new(0, 0, -2 * S), S, white_diffuse())),
    );
    let ray = Ray::new(Point::origin(), Point::from_z(-S));
    let col = world.collide(&ray, 0, 1 << 30).expect("both spheres lie ahead");
    assert_eq!(col.dist, S);
}

#[test]
fn diffuse_scatter_never_absorbs_and_keeps_its_albedo() {
    let albedo = Color::new(S / 2, S / 4, S / 8);
    let lambertian = Lambertian::new(albedo);
    let ray = Ray::new(Point::origin(), Point::from_z(-S));
    let col = Collision::new(Point::from_z(-S), Point::from_z(S), S, Facing::Front, white_diffuse());
    for _ in 0..20 {
        let res = lambertian.scatter(&ray, &col);
        assert_eq!(res.outcome, ScatterOutcome::Scattered);
        assert_eq!(res.attenuation, albedo);
        assert_eq!(res.scattered_ray.origin, col.point);
    }
}

#[test]
fn metal_with_zero_fuzz_is_an_exact_mirror() {
    let albedo = Color::new(S, S, S);
    let metal = Metal::new(albedo, 0);
    let ray = Ray::new(Point::origin(), Point::from_y(-S));
    let col = Collision::new(Point::origin(), Point::from_y(S), S, Facing::Front, white_diffuse());
    let res = metal.scatter(&ray, &col);
    assert_eq!(res.scattered_ray.direction, Point::from_y(S));
    assert_eq!(res.outcome, ScatterOutcome::Scattered);
    assert_eq!(res.attenuation, albedo);
}

#[test]
fn metal_fuzz_is_clamped_at_construction() {
    let albedo = Color::new(S, S, S);
    assert_eq!(Metal::new(albedo, 3 * S).fuzz, S);
    assert_eq!(Metal::new(albedo, -5).fuzz, 0);
    assert_eq!(Metal::new(albedo, 123).fuzz, 123);
}

#[test]
fn index_matched_dielectric_refracts_without_direction_change() {
    let glass = Dielectric::new(S);
    let ray = Ray::new(Point::origin(), Point::from_y(-S));
    let col = Collision::new(Point::from_y(-S), Point::from_y(S), S, Facing::Front, white_diffuse());
    for _ in 0..20 {
        let res = glass.scatter(&ray, &col);
        assert_eq!(res.outcome, ScatterOutcome::Scattered);
        assert_eq!(res.attenuation, Color::new(S, S, S));
        assert_eq!(res.scattered_ray.direction, Point::from_y(-S));
    }
}

#[test]
fn schlick_reflectance_vanishes_at_normal_incidence_of_matched_media() {
    assert_eq!(Dielectric::schlick_approximation(S, S), 0);
}

#[test]
fn depth_zero_returns_black_whatever_the_scene() {
    let mut world = CollidableVec::new();
    add_to_world(
        &mut world,
        Collidable::Sphere(Sphere::new(Point::new(0, 0, -2 * S), S, white_diffuse())),
    );
    let ray = Ray::new(Point::origin(), Point::from_z(-S));
    assert_eq!(ray.do_color(&world, 0), Color::black());
    let empty = CollidableVec::new();
    assert_eq!(Ray::new(Point::origin(), Point::from_y(S)).do_color(&empty, 0), Color::black());
}

#[test]
fn empty_scene_yields_the_exact_background_gradient() {
    let empty = CollidableVec::new();
    let up = Ray::new(Point::origin(), Point::from_y(S));
    assert_eq!(up.color(&empty), Color::new(32768, 45875, S));
    let down = Ray::new(Point::origin(), Point::from_y(-S));
    assert_eq!(down.color(&empty), Color::new(S, S, S));
    let level = Ray::new(Point::origin(), Point::from_z(-S));
    assert_eq!(level.color(&empty), Color::new(49152, 55705, S));
}

#[test]
fn shallow_depth_darkens_every_pixel_of_a_covered_view() {
    let mut world = CollidableVec::new();
    add_to_world(
        &mut world,
        Collidable::Sphere(Sphere::new(Point::origin(), 294912, white_diffuse())),
    );
    let camera = Camera::new()
        .vfov(8192)
        .look_from(Point::new(0, 0, 8 * S))
        .look_at(Point::origin())
        .lens_radius(0);
    for row in 0..2 {
        for col in 0..2 {
            let bytes = render_pixel(&world, &camera, row, col, 2, 2, 1, 1);
            assert_eq!(bytes, b"0 0 0\n".to_vec());
        }
    }
}

#[test]
fn zero_lens_rays_are_deterministic() {
    let camera = Camera::new()
        .look_from(Point::new(0, 0, 8 * S))
        .look_at(Point::origin())
        .lens_radius(0);
    let a = camera.get_ray(S / 2, S / 2);
    let b = camera.get_ray(S / 2, S / 2);
    assert_eq!(a, b);
    assert_eq!(a.origin, camera.origin);
}

#[test]
fn band_partition_covers_the_rows_exactly() {
    let bands = make_bands(450, 150);
    assert_eq!(bands.len(), 3);
    assert_eq!((bands[0].start, bands[0].end), (0, 150));
    assert_eq!((bands[1].start, bands[1].end), (150, 300));
    assert_eq!((bands[2].start, bands[2].end), (300, 450));
}

#[test]
fn collector_reassembly_is_arrival_order_independent() {
    let mut in_order = Collector::new(3);
    in_order.record(0, vec![1, 2]);
    in_order.record(0, vec![3]);
    in_order.record(1, vec![4]);
    in_order.record(2, vec![5, 6]);

    let mut shuffled = Collector::new(3);
    shuffled.record(2, vec![5, 6]);
    shuffled.record(0, vec![1, 2]);
    shuffled.record(1, vec![4]);
    shuffled.record(0, vec![3]);

    assert_eq!(in_order.assemble(), shuffled.assemble());
    // bands in reverse order, pixels within a band in reverse order
    assert_eq!(in_order.assemble(), vec![5, 6, 4, 3, 1, 2]);
}

#[test]
fn output_encoding_averages_and_gamma_corrects() {
    assert_eq!(Color::black().as_output(1), b"0 0 0\n".to_vec());
    assert_eq!(Color::new(S, S, S).as_output(1), b"255 255 255\n".to_vec());
    assert_eq!(Color::new(4 * S, 4 * S, 4 * S).as_output(4), b"255 255 255\n".to_vec());
    // a quarter-intensity red channel: sqrt(0.25) = 0.5, scaled to 128
    assert_eq!(Color::new(S, 0, 0).as_output(4), b"128 0 0\n".to_vec());
}

#[test]
fn ray_at_walks_the_parametric_line() {
    let ray = Ray::new(Point::new(S, 0, 0), Point::from_z(-S));
    assert_eq!(ray.at(2 * S), Point::new(S, 0, -2 * S));
}

#[test]
fn dielectric_reflects_on_total_internal_reflection() {
    // leaving glass at 45 degrees: 1.5 * sin(45) > 1, so the ray must reflect
    let glass = Dielectric::new(98304);
    let ray = Ray::new(Point::origin(), Point::new(S, -S, 0));
    let col = Collision::new(Point::origin(), Point::from_y(S), S, Facing::Back, white_diffuse());
    let res = glass.scatter(&ray, &col);
    assert_eq!(res.outcome, ScatterOutcome::Scattered);
    assert_eq!(res.scattered_ray.direction, Point::new(46341, 46341, 0));
}

#[test]
fn defocus_rays_converge_on_the_focal_point() {
    // with a nonzero lens the origin jitters, but origin + direction is
    // always the same focal-plane point
    let camera = Camera::new()
        .look_from(Point::new(0, 0, 8 * S))
        .look_at(Point::origin())
        .lens_radius(S / 2);
    let a = camera.get_ray(S / 2, S / 2);
    let b = camera.get_ray(S / 2, S / 2);
    assert_eq!(a.origin.add(a.direction), b.origin.add(b.direction));
}

#[test]
fn zero_depth_pixels_are_black() {
    let world = CollidableVec::new();
    let camera = Camera::new()
        .look_from(Point::new(0, 0, 8 * S))
        .look_at(Point::origin())
        .lens_radius(0);
    let bytes = render_pixel(&world, &camera, 0, 0, 2, 2, 3, 0);
    assert_eq!(bytes, b"0 0 0\n".to_vec());
}

#[test]
fn empty_scene_pixels_keep_the_full_background_blue() {
    let world = CollidableVec::new();
    let camera = Camera::new()
        .look_from(Point::new(0, 0, 8 * S))
        .look_at(Point::origin())
        .lens_radius(0);
    for _ in 0..5 {
        let bytes = render_pixel(&world, &camera, 1, 1, 2, 2, 4, 50);
        assert_eq!(&bytes[bytes.len() - 4..], b"255\n");
    }
}
