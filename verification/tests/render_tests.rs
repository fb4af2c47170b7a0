use render::camera::Camera;
use render::color::{Color, write_color};
use render::fixed::mul_fx;
use render::hittable::HitRecord;
use render::hittable_list::HittableList;
use render::material::{Dieletric, Lambertian, Material, Metal};
use render::ray::{Point3, Ray};
use render::sphere::Sphere;
use render::utility::{degrees_to_radians, Interval, INFINITY, PI_FX};
use render::vec3::{cross, dot, unit_vector, Vec3};

const S: i64 = 1_000_000;

#[test]
fn basic() {
    // Create an empty point as origin and check all values are zero.
    let origin = Vec3::new();
    assert_eq!(origin.x(), 0);
    assert_eq!(origin.y(), 0);
    assert_eq!(origin.z(), 0);

    // Create a direction vector and check the values.
    let direction = Vec3::from(1 * S, 2 * S, 3 * S);
    assert_eq!(direction.x(), 1 * S);
    assert_eq!(direction.y(), 2 * S);
    assert_eq!(direction.z(), 3 * S);

    // Addition.
    let point = origin.add(direction);
    assert_eq!(point.x(), 1 * S);
    assert_eq!(point.y(), 2 * S);
    assert_eq!(point.z(), 3 * S);

    // Scaling.
    let point = point.mul(5 * S);
    assert_eq!(point.x(), 5 * S);
    assert_eq!(point.y(), 10 * S);
    assert_eq!(point.z(), 15 * S);

    // Division.
    let mut point = point.div(5 * S);
    assert_eq!(point.x(), 1 * S);
    assert_eq!(point.y(), 2 * S);
    assert_eq!(point.z(), 3 * S);

    // In-place scaling and division.
    point.mul_assign(5 * S);
    point.div_assign(5 * S);
    assert_eq!(point.x(), 1 * S);
    assert_eq!(point.y(), 2 * S);
    assert_eq!(point.z(), 3 * S);

    // Indexed reads.
    assert_eq!(point.get(0), 1 * S);
    assert_eq!(point.get(1), 2 * S);
    assert_eq!(point.get(2), 3 * S);

    // Indexed writes.
    let mut point = point;
    point.set(0, 0);
    point.set(1, 3 * S);
    point.set(2, 4 * S);

    assert_eq!(point.length_squared(), 25 * S);
    assert_eq!(point.length(), 5 * S);
}

#[test]
fn vec_operation() {
    let u = Vec3::from(1 * S, 0, 0);
    let v = Vec3::from(10 * S, 0, 0);

    assert_eq!(unit_vector(v), u);
    assert_eq!(dot(&u, &v), 10 * S);
    assert_eq!(cross(&u, &v), Vec3::new());
}

// A normalized vector has length one, up to fixed-point resolution.
#[test]
fn unit_vector_has_unit_length() {
    let u = unit_vector(Vec3::from(3 * S, 4 * S, 0));
    assert_eq!(u, Vec3::from(600_000, 800_000, 0));
    assert_eq!(u.length(), S);

    let w = unit_vector(Vec3::from(S, S, S));
    let len = w.length();
    assert!((len - S).abs() <= 2, "length {} strays from one", len);
}

// The dot product is symmetric; the cross product is antisymmetric and
// vanishes on equal arguments.
#[test]
fn dot_and_cross_identities() {
    let a = Vec3::from(3 * S, -2 * S, 700_000);
    let b = Vec3::from(-S, 4 * S, 2_500_000);
    assert_eq!(dot(&a, &b), dot(&b, &a));
    assert_eq!(cross(&a, &b), cross(&b, &a).neg());
    assert_eq!(cross(&a, &a), Vec3::new());
}

#[test]
fn interval_clamp_is_idempotent_and_bounded() {
    let iv = Interval::from(-5 * S, 10 * S);
    assert_eq!(iv.clamp(20 * S), 10 * S);
    assert_eq!(iv.clamp(iv.clamp(20 * S)), 10 * S);
    assert_eq!(iv.clamp(-7 * S), -5 * S);
    assert_eq!(iv.clamp(iv.clamp(-7 * S)), -5 * S);
    assert_eq!(iv.clamp(3 * S), 3 * S);
    assert!(iv.contains(-5 * S) && iv.contains(10 * S));
    assert!(!iv.surrounds(-5 * S) && !iv.surrounds(10 * S));
    assert!(iv.surrounds(0));
}

// A ray aimed straight at a sphere's center hits at the center distance
// minus the radius, with the outward normal pointing back at the origin.
#[test]
fn sphere_head_on_hit_distance() {
    let mat = Material::Lambertian(Lambertian::from(Color::from(S / 2, S / 2, S / 2)));
    let sphere = Sphere::from(Point3::from(0, 0, -2 * S), S / 2, mat);
    let ray = Ray::from(Point3::new(), Vec3::from(0, 0, -S));
    let rec = sphere
        .hit(&ray, Interval::from(1_000, INFINITY))
        .expect("the ray aims at the center and must hit");
    assert_eq!(rec.t, 1_500_000);
    assert!(rec.front_face);
    assert_eq!(rec.normal, Vec3::from(0, 0, S));
    assert_eq!(rec.p, Point3::from(0, 0, -1_500_000));
}

// A ray whose perpendicular offset exceeds the radius misses.
#[test]
fn sphere_miss_returns_no_hit() {
    let mat = Material::Lambertian(Lambertian::from(Color::from(S / 2, S / 2, S / 2)));
    let sphere = Sphere::from(Point3::from(0, 0, -2 * S), S / 2, mat);
    let ray = Ray::from(Point3::from(0, 2 * S, 0), Vec3::from(0, 0, -S));
    assert!(sphere.hit(&ray, Interval::from(1_000, INFINITY)).is_none());
}

// The list returns the closest hit, whatever order the spheres were added.
#[test]
fn hittable_list_returns_nearest() {
    let gray = Material::Lambertian(Lambertian::from(Color::from(S / 2, S / 2, S / 2)));
    let near = Sphere::from(Point3::from(0, 0, -2 * S), S / 2, gray);
    let far = Sphere::from(Point3::from(0, 0, -4 * S), S / 2, gray);
    let ray = Ray::from(Point3::new(), Vec3::from(0, 0, -S));

    let mut world = HittableList::default();
    world.add(near);
    world.add(far);
    let rec = world.hit(&ray, Interval::from(1_000, INFINITY)).unwrap();
    assert_eq!(rec.t, 1_500_000);

    let mut swapped = HittableList::default();
    swapped.add(far);
    swapped.add(near);
    let rec2 = swapped.hit(&ray, Interval::from(1_000, INFINITY)).unwrap();
    assert_eq!(rec2.t, 1_500_000);

    swapped.clear();
    assert_eq!(swapped.len(), 0);
    assert!(swapped.hit(&ray, Interval::from(1_000, INFINITY)).is_none());
}

// Exhausting the bounce budget yields pure black whatever the scene holds.
#[test]
fn ray_color_depth_zero_is_black() {
    let mat = Material::Lambertian(Lambertian::from(Color::from(S / 2, S / 2, S / 2)));
    let mut world = HittableList::default();
    world.add(Sphere::from(Point3::from(0, 0, -S), S / 2, mat));
    let ray = Ray::from(Point3::new(), Vec3::from(0, 0, -S));
    assert_eq!(Camera::ray_color(&ray, 0, &world), Color::new());
}

// Diffuse scattering always scatters from the hit point with the albedo as
// attenuation, and never hands back a degenerate direction.
#[test]
fn lambertian_scatter_never_degenerates() {
    let albedo = Color::from(400_000, 200_000, 100_000);
    let lam = Lambertian::from(albedo);
    let rec = HitRecord {
        p: Point3::from(0, 0, -S),
        normal: Vec3::from(0, 0, S),
        t: S,
        front_face: true,
        mat: Material::Lambertian(lam),
    };
    let r_in = Ray::from(Point3::new(), Vec3::from(0, 0, -S));
    for _ in 0..32 {
        let (scattered, attenuation) = lam.scatter(&r_in, &rec).expect("diffuse always scatters");
        assert_eq!(attenuation, albedo);
        assert_eq!(scattered.origin(), rec.p);
        assert!(!scattered.direction().near_zero());
    }
}

// With zero fuzz, metal is a perfect mirror: the scattered direction is the
// exact reflection, and the normal component of the direction flips sign.
#[test]
fn metal_zero_fuzz_is_mirror() {
    let albedo = Color::from(800_000, 800_000, 800_000);
    let metal = Metal::from(albedo, 0);
    let normal = Vec3::from(0, S, 0);
    let rec = HitRecord {
        p: Point3::from(0, 0, 0),
        normal,
        t: S,
        front_face: true,
        mat: Material::Metal(metal),
    };
    let r_in = Ray::from(Point3::from(-S, S, 0), Vec3::from(S, -S, 0));

    let unit_in = unit_vector(r_in.direction());
    let expected = unit_in.sub(normal.mul(mul_fx(2_000_000, dot(&unit_in, &normal))));

    let (scattered, attenuation) = metal.scatter(&r_in, &rec).expect("the reflection points up");
    assert_eq!(attenuation, albedo);
    assert_eq!(scattered.direction(), expected);
    assert_eq!(dot(&scattered.direction(), &normal), -dot(&unit_in, &normal));
}

#[test]
fn metal_fuzz_is_clamped_at_construction() {
    assert_eq!(Metal::from(Color::new(), -5 * S).fuzz, 0);
    assert_eq!(Metal::from(Color::new(), 300_000).fuzz, 300_000);
    assert_eq!(Metal::from(Color::new(), 2 * S).fuzz, S);
}

// A dielectric of index one neither tints nor deviates a head-on ray.
#[test]
fn dieletric_unit_index_passes_straight_through() {
    let d = Dieletric::from(S);
    let rec = HitRecord {
        p: Point3::from(0, 0, -S),
        normal: Vec3::from(0, 0, S),
        t: S,
        front_face: true,
        mat: Material::Dieletric(d),
    };
    let r_in = Ray::from(Point3::new(), Vec3::from(0, 0, -S));
    for _ in 0..8 {
        let (scattered, attenuation) = d.scatter(&r_in, &rec).expect("dielectrics always scatter");
        assert_eq!(attenuation, Color::from(S, S, S));
        assert_eq!(scattered.origin(), rec.p);
        assert_eq!(scattered.direction(), Vec3::from(0, 0, -S));
    }
}

// One diffuse sphere straight ahead, one sample, one bounce: the center ray
// hits and comes back black, never the sky gradient.
#[test]
fn single_sphere_center_ray_registers_hit() {
    let mat = Material::Lambertian(Lambertian::from(Color::from(S / 2, S / 2, S / 2)));
    let mut world = HittableList::default();
    world.add(Sphere::from(Point3::from(0, 0, -S), S / 2, mat));

    let mut camera = Camera::default();
    camera.aspect_ratio = Some(S);
    camera.image_width = Some(100);
    camera.samples_per_pixel = Some(1);
    camera.max_depth = Some(1);
    camera.look_from = Some(Point3::from(0, 0, 0));
    camera.look_at = Some(Point3::from(0, 0, -S));
    camera.initialize();

    let ray = camera.get_ray(50, 50);
    let color = Camera::ray_color(&ray, 1, &world);
    assert_eq!(color, Color::new());
    // The sky gradient always carries a full blue channel; black does not.
    assert_ne!(color.z(), S);
}

// An empty world shows exactly the sky gradient: deterministic per ray, and
// a full blue channel on every rendered pixel.
#[test]
fn empty_world_renders_sky_gradient() {
    let world = HittableList::default();

    let up = Ray::from(Point3::new(), Vec3::from(0, S, 0));
    assert_eq!(
        Camera::ray_color(&up, 5, &world),
        Color::from(500_000, 700_000, S)
    );

    let mut camera = Camera::default();
    camera.aspect_ratio = Some(S);
    camera.image_width = Some(8);
    camera.samples_per_pixel = Some(1);
    camera.max_depth = Some(5);
    let pixels = camera.render(&world);
    assert_eq!(pixels.len(), 64);
    for p in pixels.iter() {
        assert_eq!(p.z(), S);
        assert!(p.x() >= 0 && p.x() <= S + 1_000);
        assert!(p.y() >= 0 && p.y() <= S + 1_000);
    }
}

// With no defocus angle, every generated ray starts exactly at the camera
// center.
#[test]
fn zero_defocus_rays_start_at_center() {
    let mut camera = Camera::default();
    camera.look_from = Some(Point3::from(13 * S, 2 * S, 3 * S));
    camera.look_at = Some(Point3::new());
    camera.defocus_angle = Some(0);
    camera.initialize();

    for (i, j) in [(0, 0), (3, 7), (99, 42)] {
        let ray = camera.get_ray(i, j);
        assert_eq!(ray.origin(), Point3::from(13 * S, 2 * S, 3 * S));
    }
}

#[test]
fn camera_defaults_fill_in_once() {
    let mut camera = Camera::default();
    camera.initialize();
    assert_eq!(camera.aspect_ratio, Some(S));
    assert_eq!(camera.image_width, Some(100));
    assert_eq!(camera.samples_per_pixel, Some(10));
    assert_eq!(camera.max_depth, Some(10));
    assert_eq!(camera.vfov, Some(90 * S));
    assert_eq!(camera.defocus_angle, Some(0));
    assert_eq!(camera.focus_dist, Some(10 * S));
    assert_eq!(camera.image_height, 100);
    assert_eq!(camera.center, Point3::from(0, 0, -S));
}

// The color sink values: averaged, gamma corrected, clamped, scaled.
#[test]
fn write_color_full_white_saturates() {
    let (r, g, b) = write_color(Color::from(S, S, S), 1);
    assert_eq!(r, 255_734_010);
    assert_eq!(g, 255_734_010);
    assert_eq!(b, 255_734_010);
}

#[test]
fn write_color_applies_gamma() {
    // A quarter of full intensity has root one half.
    let (r, _, _) = write_color(Color::from(250_000, 0, 0), 1);
    assert_eq!(r, 127_995_000);
    // Averaging over four samples quarters the channel first.
    let (r4, _, _) = write_color(Color::from(S, 0, 0), 4);
    assert_eq!(r4, 127_995_000);
}

// An index-one dielectric never mirror-reflects, whatever the reflectance
// draw: a slanted ray keeps its direction up to this scale's rounding.
#[test]
fn dieletric_unit_index_never_reflects() {
    let d = Dieletric::from(S);
    let normal = Vec3::from(0, S, 0);
    let rec = HitRecord {
        p: Point3::from(0, 0, 0),
        normal,
        t: S,
        front_face: true,
        mat: Material::Dieletric(d),
    };
    let r_in = Ray::from(Point3::from(-S, S, 0), Vec3::from(S, -S, 0));
    let u = unit_vector(r_in.direction());
    for _ in 0..8 {
        let (scattered, _) = d.scatter(&r_in, &rec).expect("dielectrics always scatter");
        let dir = scattered.direction();
        // A mirror reflection would point up; passing through points down.
        assert!(dir.y() < 0);
        assert_eq!(dir.x(), u.x());
        assert!((dir.y() - u.y()).abs() <= 4);
        assert_eq!(dir.z(), 0);
    }
}

#[test]
fn interval_range_constants() {
    let empty = Interval::empty();
    assert!(!empty.contains(0));
    assert!(!empty.contains(INFINITY));
    let universe = Interval::universe();
    assert!(universe.contains(0));
    assert!(universe.contains(INFINITY));
    assert!(universe.contains(-INFINITY));
}

#[test]
fn degrees_to_radians_half_turn_is_pi() {
    assert_eq!(degrees_to_radians(180 * S), PI_FX);
    assert_eq!(degrees_to_radians(0), 0);
}
