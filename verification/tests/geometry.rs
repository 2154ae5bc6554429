use ray_tracing::color::Color;
use ray_tracing::hit_record::HitRecord;
use ray_tracing::material::{Lambertian, Material, Metal};
use ray_tracing::objects::Sphere;
use ray_tracing::ray::Ray;
use ray_tracing::vec3::Vec3;
use ray_tracing::{closest_hit, T_MAX, T_MIN};

const S: i64 = 65536;

fn matte(r: i64, g: i64, b: i64) -> Material {
    Material::Lambertian(Lambertian::new(Color::from_frac(r, g, b).unwrap()))
}

#[test]
fn vec3_arithmetic() {
    let a = Vec3::new(3 * S, 4 * S, 0);
    let b = Vec3::new(S, -S, 2 * S);
    let sum = a.add(b);
    assert_eq!((sum.x(), sum.y(), sum.z()), (4 * S, 3 * S, 2 * S));
    let diff = a.sub(b);
    assert_eq!((diff.x(), diff.y(), diff.z()), (2 * S, 5 * S, -2 * S));
    let neg = b.neg();
    assert_eq!((neg.x(), neg.y(), neg.z()), (-S, S, -2 * S));
    let scaled = a.scale(S / 2);
    assert_eq!((scaled.x(), scaled.y(), scaled.z()), (3 * S / 2, 2 * S, 0));
    let halved = a.div(2 * S);
    assert_eq!((halved.x(), halved.y(), halved.z()), (3 * S / 2, 2 * S, 0));
    assert_eq!(Vec3::dot(a, b), -S);
    assert_eq!(a.length_squared(), 25 * S);
    assert_eq!(a.length(), 5 * S);
}

#[test]
fn vec3_near_zero() {
    assert!(Vec3::zero().near_zero());
    assert!(!Vec3::new(1, 0, 0).near_zero());
    assert!(!Vec3::new(0, 0, -1).near_zero());
}

#[test]
fn ray_evaluation() {
    let ray = Ray::new(Vec3::new(S, 2 * S, 3 * S), Vec3::new(0, 0, -S));
    let p = ray.at(2 * S);
    assert_eq!((p.x(), p.y(), p.z()), (S, 2 * S, S));
    assert_eq!(ray.origin().x(), S);
    assert_eq!(ray.direction().z(), -S);
    let unit = Ray::new(Vec3::zero(), Vec3::new(0, 0, -4 * S)).unit_vector();
    assert_eq!((unit.x(), unit.y(), unit.z()), (0, 0, -S));
}

/// A successful hit's parameter places the point on the sphere's surface,
/// within fixed-point tolerance.
#[test]
fn hit_point_lies_on_surface() {
    let sphere = Sphere::new(Vec3::new(0, 0, -S), S / 2, matte(S / 2, S / 2, S / 2));
    let ray = Ray::new(Vec3::zero(), Vec3::new(0, 0, -S));
    let mut rec = HitRecord::new();
    assert!(sphere.hit(&ray, T_MIN, T_MAX, &mut rec));
    assert_eq!(rec.t, S / 2);
    let offset = rec.point.sub(Vec3::new(0, 0, -S));
    assert_eq!(offset.length(), S / 2);

    // An oblique ray: the relation holds within a small tolerance.
    let ray = Ray::new(Vec3::zero(), Vec3::new(13107, 6553, -S));
    let mut rec = HitRecord::new();
    assert!(sphere.hit(&ray, T_MIN, T_MAX, &mut rec));
    let dist = rec.point.sub(Vec3::new(0, 0, -S)).length();
    assert!((dist - S / 2).abs() < S / 100, "distance {} is not near the radius", dist);
}

/// An accepted hit's normal has unit length (within tolerance) and points
/// against the incoming ray, outward from the surface.
#[test]
fn hit_normal_unit_and_outward() {
    let sphere = Sphere::new(Vec3::new(0, 0, -S), S / 2, matte(S / 2, S / 2, S / 2));
    for dir in [
        Vec3::new(0, 0, -S),
        Vec3::new(13107, 6553, -S),
        Vec3::new(-9830, -3276, -S),
    ] {
        let ray = Ray::new(Vec3::zero(), dir);
        let mut rec = HitRecord::new();
        assert!(sphere.hit(&ray, T_MIN, T_MAX, &mut rec));
        let len = rec.normal.length();
        assert!((len - S).abs() < S / 100, "normal length {} is not near one", len);
        let outward = rec.point.sub(Vec3::new(0, 0, -S));
        assert!(Vec3::dot(rec.normal, outward) > 0);
    }
}

#[test]
fn hit_prefers_near_root() {
    // The ray starts outside: the near side of the sphere must be hit,
    // not the far side.
    let sphere = Sphere::new(Vec3::new(0, 0, -2 * S), S, matte(S / 2, S / 2, S / 2));
    let ray = Ray::new(Vec3::zero(), Vec3::new(0, 0, -S));
    let mut rec = HitRecord::new();
    assert!(sphere.hit(&ray, T_MIN, T_MAX, &mut rec));
    assert_eq!(rec.t, S);
    // From inside the sphere only the far root lies ahead.
    let ray = Ray::new(Vec3::new(0, 0, -2 * S), Vec3::new(0, 0, -S));
    let mut rec = HitRecord::new();
    assert!(sphere.hit(&ray, T_MIN, T_MAX, &mut rec));
    assert_eq!(rec.t, S);
}

#[test]
fn hit_respects_interval() {
    let sphere = Sphere::new(Vec3::new(0, 0, -S), S / 2, matte(S / 2, S / 2, S / 2));
    let ray = Ray::new(Vec3::zero(), Vec3::new(0, 0, -S));
    let mut rec = HitRecord::new();
    rec.t = 7;
    // Both roots lie beyond the upper bound: the record stays untouched.
    assert!(!sphere.hit(&ray, T_MIN, S / 4, &mut rec));
    assert_eq!(rec.t, 7);
    // A ray pointing away misses.
    let ray = Ray::new(Vec3::zero(), Vec3::new(0, 0, S));
    assert!(!sphere.hit(&ray, T_MIN, T_MAX, &mut rec));
    assert_eq!(rec.t, 7);
}

/// The nearer sphere's hit wins regardless of insertion order.
#[test]
fn nearest_hit_is_order_independent() {
    let near = Sphere::new(Vec3::new(0, 0, -S), S / 2, matte(S, 0, 0));
    let far = Sphere::new(Vec3::new(0, 0, -3 * S), S / 2, matte(0, S, 0));
    let ray = Ray::new(Vec3::zero(), Vec3::new(0, 0, -S));

    let scene_a = vec![near, far];
    let scene_b = vec![far, near];
    let hit_a = closest_hit(&scene_a, &ray, T_MIN, T_MAX).expect("both spheres lie ahead");
    let hit_b = closest_hit(&scene_b, &ray, T_MIN, T_MAX).expect("both spheres lie ahead");
    assert_eq!(hit_a, hit_b);
    assert_eq!(hit_a.0.t, S / 2);
    assert_eq!(hit_a.1, matte(S, 0, 0));
}

#[test]
fn degenerate_ray_hits_nothing() {
    let sphere = Sphere::new(Vec3::new(0, 0, -S), S / 2, matte(S / 2, S / 2, S / 2));
    let ray = Ray::new(Vec3::zero(), Vec3::zero());
    let mut rec = HitRecord::new();
    assert!(!sphere.hit(&ray, T_MIN, T_MAX, &mut rec));
}
