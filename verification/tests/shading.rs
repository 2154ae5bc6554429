use ray_tracing::color::Color;
use ray_tracing::hit_record::HitRecord;
use ray_tracing::material::{Lambertian, Material, Metal};
use ray_tracing::ray::Ray;
use ray_tracing::rng::Rng;
use ray_tracing::vec3::Vec3;
use ray_tracing::{calculate_color, linearly_blend_colors, set_scene_objects};

const S: i64 = 65536;

fn surface_hit() -> HitRecord {
    HitRecord {
        point: Vec3::zero(),
        normal: Vec3::new(0, 0, S),
        t: S / 2,
    }
}

/// A diffuse material never signals absorption, whatever the draw.
#[test]
fn lambertian_never_absorbs() {
    let material = Lambertian::new(Color::from_frac(S / 2, S / 4, S / 4).unwrap());
    let rec = surface_hit();
    let ray_in = Ray::new(Vec3::new(0, 0, S), Vec3::new(0, 0, -S));
    for seed in 0..32u64 {
        let mut rng = Rng::seeded(seed);
        let scattered = material.scatter(&rec, &ray_in, &mut rng);
        assert!(scattered.is_some());
    }
}

#[test]
fn lambertian_scatter_leaves_hit_point() {
    let material = Lambertian::new(Color::from_frac(S / 2, S / 4, S / 4).unwrap());
    let rec = surface_hit();
    let ray_in = Ray::new(Vec3::new(0, 0, S), Vec3::new(0, 0, -S));
    let mut rng = Rng::seeded(11);
    let scattered = material.scatter(&rec, &ray_in, &mut rng).unwrap();
    assert_eq!(
        (scattered.origin().x(), scattered.origin().y(), scattered.origin().z()),
        (0, 0, 0)
    );
    assert_eq!(material.attenuation().r, S / 2);
}

/// A perfect mirror absorbs a ray arriving along the normal's own direction:
/// its reflection points into the surface.
#[test]
fn metal_absorbs_inward_reflection() {
    let material = Metal::shiny(Color::from_frac(S / 2, S / 2, S / 2).unwrap());
    let rec = surface_hit();
    let ray_in = Ray::new(Vec3::new(0, 0, -S), Vec3::new(0, 0, S));
    let mut rng = Rng::seeded(3);
    assert!(material.scatter(&rec, &ray_in, &mut rng).is_none());
}

/// A perfect mirror reflects a ray arriving against the normal.
#[test]
fn metal_reflects_outward() {
    let material = Metal::shiny(Color::from_frac(S / 2, S / 2, S / 2).unwrap());
    let rec = surface_hit();
    let ray_in = Ray::new(Vec3::new(0, 0, S), Vec3::new(0, 0, -S));
    let mut rng = Rng::seeded(3);
    let scattered = material.scatter(&rec, &ray_in, &mut rng).expect("reflection points outward");
    let d = scattered.direction();
    assert_eq!((d.x(), d.y(), d.z()), (0, 0, S));
}

#[test]
fn metal_fuzz_is_clamped() {
    let albedo = Color::from_frac(S / 2, S / 2, S / 2).unwrap();
    let m = Metal::fuzzy(albedo, 3 * S);
    let probe = Material::Metal(m);
    match probe {
        Material::Metal(metal) => assert_eq!(metal.fuzz, S),
        _ => unreachable!(),
    }
    let m = Metal::fuzzy(albedo, S / 4);
    match Material::Metal(m) {
        Material::Metal(metal) => assert_eq!(metal.fuzz, S / 4),
        _ => unreachable!(),
    }
}

/// With an exhausted recursion budget every ray resolves to black.
#[test]
fn depth_zero_is_black() {
    let mut scene = Vec::new();
    set_scene_objects(&mut scene);
    let rays = [
        Ray::new(Vec3::zero(), Vec3::new(0, 0, -S)),
        Ray::new(Vec3::new(S, S, S), Vec3::new(-S, 0, 0)),
        Ray::new(Vec3::zero(), Vec3::new(0, S, 0)),
    ];
    for ray in rays {
        let mut rng = Rng::seeded(17);
        let c = calculate_color(ray, &scene, 0, &mut rng);
        assert_eq!(c, Color::black());
    }
}

/// A ray that hits nothing resolves to the pure background gradient.
#[test]
fn miss_yields_background_gradient() {
    let mut scene = Vec::new();
    set_scene_objects(&mut scene);
    let ray = Ray::new(Vec3::zero(), Vec3::new(0, S, 0));
    let mut rng = Rng::seeded(7);
    let shaded = calculate_color(ray, &scene, 10, &mut rng);
    let background = linearly_blend_colors(ray, Color::white(), Color::blue());
    assert_eq!(shaded, background);
    // Straight up the gradient is the pure end color.
    assert_eq!(background, Color::blue());
}

#[test]
fn background_midpoint_is_half_blend() {
    // A level ray blends the two colors at the midpoint.
    let ray = Ray::new(Vec3::zero(), Vec3::new(S, 0, 0));
    let c = linearly_blend_colors(ray, Color::white(), Color::blue());
    let expected = Color::white().scale(S / 2).add(Color::blue().scale(S / 2));
    assert_eq!(c, expected);
}

/// With no objects at all, every ray resolves to the background.
#[test]
fn empty_scene_is_all_background() {
    let scene: Vec<ray_tracing::objects::Sphere> = Vec::new();
    let ray = Ray::new(Vec3::zero(), Vec3::new(13107, -6553, -S));
    let mut rng = Rng::seeded(21);
    let shaded = calculate_color(ray, &scene, 10, &mut rng);
    assert_eq!(shaded, linearly_blend_colors(ray, Color::white(), Color::blue()));
}

#[test]
fn scene_holds_four_spheres() {
    let mut scene = Vec::new();
    set_scene_objects(&mut scene);
    assert_eq!(scene.len(), 4);
    assert_eq!(
        (scene[0].center.x, scene[0].center.y, scene[0].center.z),
        (0, 0, -S)
    );
    assert_eq!(scene[0].radius, S / 2);
    assert_eq!(scene[3].radius, 100 * S);
    assert!(matches!(scene[1].material, Material::Metal(_)));
    assert!(matches!(scene[0].material, Material::Lambertian(_)));
}
