use ray_tracing::camera::Sensor;
use ray_tracing::color::Color;
use ray_tracing::material::Lambertian;
use ray_tracing::material::Material;
use ray_tracing::objects::Sphere;
use ray_tracing::ray::Ray;
use ray_tracing::rng::Rng;
use ray_tracing::thread_pool::{check_pool_size, PoolCreationError};
use ray_tracing::vec3::Vec3;
use ray_tracing::{
    calculate_color, calculate_image, calculate_image_ordered, closest_hit, get_pixel_color,
    linearly_blend_colors, render_row, set_scene_objects, Image, CAM_FOCAL_LENGTH, CAM_HEIGHT,
    IMAGE_ASPECT_RATIO, MAX_DEPTH, T_MAX, T_MIN,
};

const S: i64 = 65536;

#[test]
fn image_height_follows_aspect_ratio() {
    assert_eq!(Image::new(400, IMAGE_ASPECT_RATIO).height, 225);
    assert_eq!(Image::new(1920, IMAGE_ASPECT_RATIO).height, 1080);
    assert_eq!(Image::new(8, IMAGE_ASPECT_RATIO).height, 5);
    let square = Image::new(64, S);
    assert_eq!((square.width, square.height), (64, 64));
}

#[test]
fn sensor_center_ray_points_down_axis() {
    let cam = Sensor::new(CAM_HEIGHT, IMAGE_ASPECT_RATIO, CAM_FOCAL_LENGTH);
    let ray = cam.calculate_ray(S / 2, S / 2);
    assert_eq!((ray.origin().x(), ray.origin().y(), ray.origin().z()), (0, 0, 0));
    assert_eq!(
        (ray.direction().x(), ray.direction().y(), ray.direction().z()),
        (0, 0, -S)
    );
}

/// The single-sphere scene: a sphere of radius one half at distance one,
/// viewed by a camera of focal length one and viewport height two.
fn single_sphere_scene() -> (Sensor, Image, Vec<Sphere>) {
    let cam = Sensor::new(CAM_HEIGHT, IMAGE_ASPECT_RATIO, CAM_FOCAL_LENGTH);
    let image = Image::new(400, IMAGE_ASPECT_RATIO);
    let matte = Material::Lambertian(Lambertian::new(
        Color::from_frac(S / 2, S / 4, S / 4).unwrap(),
    ));
    let scene = vec![Sphere::new(Vec3::new(0, 0, -S), S / 2, matte)];
    (cam, image, scene)
}

/// The center pixel of the single-sphere scene reports a hit and shades to a
/// non-background color; a pixel aiming above the horizon shades to the pure
/// background gradient.
#[test]
fn center_pixel_hits_sphere() {
    let (cam, image, scene) = single_sphere_scene();
    assert_eq!(image.height, 225);
    let center_ray = cam.calculate_ray(S / 2, S / 2);
    let hit = closest_hit(&scene, &center_ray, T_MIN, T_MAX);
    assert!(hit.is_some());
    assert_eq!(hit.unwrap().0.t, S / 2);

    let mut rng = Rng::seeded(123);
    let shaded = calculate_color(center_ray, &scene, MAX_DEPTH, &mut rng);
    let background = linearly_blend_colors(center_ray, Color::white(), Color::blue());
    assert_ne!(shaded, background);
}

#[test]
fn sky_pixel_equals_background() {
    let (cam, _image, scene) = single_sphere_scene();
    // Near the viewport's top edge the ray aims well above the sphere.
    let sky_ray = cam.calculate_ray(S / 2, 64224);
    assert!(closest_hit(&scene, &sky_ray, T_MIN, T_MAX).is_none());
    let mut rng = Rng::seeded(9);
    let shaded = calculate_color(sky_ray, &scene, MAX_DEPTH, &mut rng);
    assert_eq!(
        shaded,
        linearly_blend_colors(sky_ray, Color::white(), Color::blue())
    );
}

#[test]
fn pixel_color_is_deterministic() {
    let (cam, image, scene) = single_sphere_scene();
    let a = get_pixel_color(&cam, &image, &scene, 112, 200, 42);
    let b = get_pixel_color(&cam, &image, &scene, 112, 200, 42);
    assert_eq!(a, b);
}

/// The same deterministic scene rendered twice gives identical images, and
/// rows rendered out of order reassemble — by their coordinates — into
/// exactly the sequential image, as a worker pool's coordinator does.
#[test]
fn render_is_schedule_independent() {
    let cam = Sensor::new(CAM_HEIGHT, IMAGE_ASPECT_RATIO, CAM_FOCAL_LENGTH);
    let image = Image { width: 8, height: 5 };
    let mut scene = Vec::new();
    set_scene_objects(&mut scene);
    let seed: u64 = 7;

    let sequential = calculate_image(&cam, &image, &scene, seed);
    let again = calculate_image(&cam, &image, &scene, seed);
    assert_eq!(sequential, again);
    assert_eq!(sequential.len(), 8 * 5 * 3);

    // Deliver the rows in reverse order and write each at the offset its
    // coordinate names.
    let mut assembled = vec![0u8; sequential.len()];
    for h in (0..image.height).rev() {
        let row = render_row(&cam, &image, &scene, seed, h);
        assert_eq!(row.len(), 8 * 3);
        let offset = (h as usize) * 8 * 3;
        assembled[offset..offset + 8 * 3].copy_from_slice(&row);
    }
    assert_eq!(assembled, sequential);
}

/// Rendering the rows in a shuffled order — as a pool of many workers may
/// deliver them — produces the very same image as the sequential render.
#[test]
fn shuffled_row_order_matches_sequential() {
    let cam = Sensor::new(CAM_HEIGHT, IMAGE_ASPECT_RATIO, CAM_FOCAL_LENGTH);
    let image = Image { width: 8, height: 5 };
    let mut scene = Vec::new();
    set_scene_objects(&mut scene);
    let seed: u64 = 7;

    let sequential = calculate_image(&cam, &image, &scene, seed);
    for order in [vec![3, 0, 4, 2, 1], vec![4, 3, 2, 1, 0], vec![0, 1, 2, 3, 4]] {
        let shuffled = calculate_image_ordered(&cam, &image, &scene, seed, &order);
        assert_eq!(shuffled, sequential);
    }
}

#[test]
fn pool_size_zero_is_refused() {
    assert_eq!(check_pool_size(0), Err(PoolCreationError));
    assert_eq!(check_pool_size(1), Ok(1));
    assert_eq!(check_pool_size(8), Ok(8));
    assert_eq!(
        PoolCreationError.message(),
        "Cannot create thread pool containing zero threads."
    );
}

#[test]
fn pixel_streams_are_reproducible() {
    let mut a = Rng::for_pixel(99, 3, 4);
    let mut b = Rng::for_pixel(99, 3, 4);
    for _ in 0..8 {
        let x = a.rand01();
        assert_eq!(x, b.rand01());
        assert!((0..S).contains(&x));
    }
    let mut c = Rng::for_pixel(99, 4, 3);
    // Swapped coordinates seed a different stream.
    let mut any_diff = false;
    let mut a = Rng::for_pixel(99, 3, 4);
    for _ in 0..8 {
        if a.rand01() != c.rand01() {
            any_diff = true;
        }
    }
    assert!(any_diff);
}

#[test]
fn random_unit_vector_is_nearly_unit() {
    for seed in 0..16u64 {
        let mut rng = Rng::seeded(seed);
        let v = Vec3::random_unit_vector(&mut rng);
        let len = v.length();
        assert!((len - S).abs() < 2000, "length {} strays from one unit", len);
    }
}

#[test]
fn root_seed_smoke() {
    // Nothing is promised of a fresh seed; it only has to be drawable.
    let a = ray_tracing::rng::random_seed();
    let b = ray_tracing::rng::random_seed();
    let _ = (a, b);
}
