//! A small recursive path tracer over spheres.
//!
//! Every scalar of the geometry is a fixed-point number: an `i64` holding
//! `SCALE` steps per unit (see `fixed`). Each executable function is
//! specified exactly by a spec-level twin, so a rendered image is a
//! mathematical function of the camera, the scene and a root seed: pixels
//! may be computed in any order, on any number of workers, and reassembled
//! by their coordinates into the same image.

pub mod camera;
pub mod color;
pub mod fixed;
pub mod hit_record;
pub mod material;
pub mod objects;
pub mod ray;
pub mod rng;
pub mod thread_pool;
pub mod vec3;

use vstd::prelude::*;
use crate::camera::{calculate_ray_s, Sensor};
use crate::color::{color_add, color_combine_s, color_mul, color_scale, Color};
use crate::fixed::{add_s, div_s, mul_s, sub_s};
use crate::fixed::{fx_add, fx_div, fx_mul, fx_sub};
use crate::hit_record::HitRecord;
use crate::material::{attenuation_s, scatter_s, Material};
use crate::objects::{hit_s, lemma_hit_properties, Sphere};
use crate::ray::{ray_unit_s, Ray};
use crate::rng::{for_pixel_s, next_s, rand01_of, Rng};
use crate::vec3::{length_s, Vec3};

verus! {

/// Hits closer than this parameter are ignored, so a freshly scattered ray
/// does not strike its own origin ("shadow acne"): `0.001` in fixed point,
/// rounded up to the next representable step.
pub const T_MIN: i64 = 66;

/// The upper end of the hit interval: effectively infinity.
pub const T_MAX: i64 = i64::MAX;

/// Supersampling anti-aliasing parameter.
pub const SAMPLES_PER_PIXEL: u16 = 16;

/// Upper limit for ray reflections.
pub const MAX_DEPTH: u16 = 10;

/// Default worker count for a parallel render.
pub const THREAD_COUNT: u8 = 8;

pub const IMAGE_WIDTH: u32 = 1920;

/// `16 / 9` in fixed point.
pub const IMAGE_ASPECT_RATIO: i64 = 116508;

/// `1.0` in fixed point.
pub const CAM_FOCAL_LENGTH: i64 = 65536;

/// `2.0` in fixed point.
pub const CAM_HEIGHT: i64 = 131072;

/// Dimensions of the resulting image.
#[derive(Clone, Copy, Debug, PartialEq, Eq, Structural)]
pub struct Image {
    pub width: u32,
    pub height: u32,
}

/// The height a width and an aspect ratio give: `width / aspect_ratio`,
/// rounded to the nearest integer.
pub open spec fn image_height_s(width: int, aspect_ratio: int) -> int {
    (div_s(width * 65536, aspect_ratio) + 32768) / 65536
}

impl Image {
    pub fn new(width: u32, aspect_ratio: i64) -> (r: Image)
        requires
            aspect_ratio > 0,
            image_height_s(width as int, aspect_ratio as int) <= u32::MAX,
        ensures
            r.width == width,
            r.height as int == image_height_s(width as int, aspect_ratio as int),
    {
        let w_fx: i64 = (width as i64) * 65536;
        let h_fx: i64 = fx_div(w_fx, aspect_ratio);
        proof {
            vstd::arithmetic::div_mod::lemma_div_pos_is_pos(
                (w_fx as int) * 65536,
                aspect_ratio as int,
            );
        }
        let height: u64 = ((h_fx as u64) + 32768) / 65536;
        Image { width, height: height as u32 }
    }
}

/// Every sphere of a scene is well formed.
pub open spec fn scene_wf(shapes: Seq<Sphere>) -> bool {
    forall|i: int| 0 <= i < shapes.len() ==> (#[trigger] shapes[i]).wf()
}

/// The linear scan over the scene from index `i` on, keeping the closest
/// accepted hit: each accepted hit narrows the upper end of the interval to
/// its own parameter, so the scan keeps the hit with the smallest parameter
/// and the order of the objects cannot change the outcome.
pub open spec fn scan_s(
    shapes: Seq<Sphere>,
    ray: Ray,
    t_min: int,
    i: int,
    best_t: int,
    best: Option<(HitRecord, Material)>,
) -> Option<(HitRecord, Material)>
    decreases shapes.len() - i,
{
    if i < 0 || i >= shapes.len() {
        best
    } else {
        match hit_s(shapes[i], ray, t_min, best_t) {
            Some(h) => scan_s(shapes, ray, t_min, i + 1, h.t as int, Some((h, shapes[i].material))),
            None => scan_s(shapes, ray, t_min, i + 1, best_t, best),
        }
    }
}

/// The closest hit of the ray over the whole scene, inside `(t_min, t_max)`.
pub open spec fn closest_hit_s(shapes: Seq<Sphere>, ray: Ray, t_min: int, t_max: int) -> Option<
    (HitRecord, Material),
> {
    scan_s(shapes, ray, t_min, 0, t_max, None)
}

/// Scans the scene and keeps the closest accepted hit, narrowing the upper
/// end of the interval to the best parameter found so far.
pub fn closest_hit(shapes: &Vec<Sphere>, ray: &Ray, t_min: i64, t_max: i64) -> (r: Option<
    (HitRecord, Material),
>)
    requires
        scene_wf(shapes@),
    ensures
        r == closest_hit_s(shapes@, *ray, t_min as int, t_max as int),
        r is Some ==> length_s(ray.direction) > 0,
{
    let mut rec = HitRecord::new();
    let mut best_t: i64 = t_max;
    let mut best: Option<(HitRecord, Material)> = None;
    let mut i: usize = 0;
    while i < shapes.len()
        invariant
            scene_wf(shapes@),
            0 <= i <= shapes@.len(),
            scan_s(shapes@, *ray, t_min as int, i as int, best_t as int, best) == closest_hit_s(
                shapes@,
                *ray,
                t_min as int,
                t_max as int,
            ),
            best is Some ==> length_s(ray.direction) > 0,
        decreases shapes@.len() - i,
    {
        let s = &shapes[i];
        if s.hit(ray, t_min, best_t, &mut rec) {
            proof {
                lemma_hit_properties(*s, *ray, t_min as int, best_t as int);
            }
            best_t = rec.t;
            best = Some((rec, s.material));
        }
        i = i + 1;
    }
    best
}

/// A blend between two colors by the upward component of the ray's unit
/// direction, mapped from `[-1, 1]` to `[0, 1]`. A degenerate direction
/// (length rounding to zero) counts as level, blending at the midpoint.
pub open spec fn blend_s(r: Ray, start_value: Color, end_value: Color) -> Color {
    let unit_y = if length_s(r.direction) == 0 {
        0
    } else {
        ray_unit_s(r).y as int
    };
    let t = mul_s(32768, add_s(unit_y, 65536));
    color_add(color_scale(sub_s(65536, t), start_value), color_scale(t, end_value))
}

/// Returns linearly blended color depending on the ray's direction: the
/// vertical component of the unit direction interpolates from `start_value`
/// to `end_value`.
pub fn linearly_blend_colors(r: Ray, start_value: Color, end_value: Color) -> (c: Color)
    ensures
        c == blend_s(r, start_value, end_value),
{
    let len: i64 = r.direction().length();
    let unit_y: i64 = if len == 0 {
        0
    } else {
        r.direction().div(len).y()
    };
    let t: i64 = fx_mul(32768, fx_add(unit_y, 65536));
    start_value.scale(fx_sub(65536, t)).add(end_value.scale(t))
}

/// The color a ray resolves to with `depth` bounces left and sampling state
/// `s`: black when the budget is exhausted or the closest surface absorbs
/// the ray; the surface's attenuation times the scattered ray's color on a
/// scatter; the background gradient when nothing is hit.
pub open spec fn calculate_color_s(ray: Ray, shapes: Seq<Sphere>, depth: u16, s: u64) -> (
    Color,
    u64,
)
    decreases depth,
{
    if depth == 0 {
        (Color { r: 0, g: 0, b: 0 }, s)
    } else {
        match closest_hit_s(shapes, ray, T_MIN as int, T_MAX as int) {
            Some((rec, mat)) => {
                let (scattered, s2) = scatter_s(mat, rec, ray, s);
                match scattered {
                    Some(new_ray) => {
                        let (c, s3) = calculate_color_s(new_ray, shapes, (depth - 1) as u16, s2);
                        (color_mul(attenuation_s(mat), c), s3)
                    },
                    None => (Color { r: 0, g: 0, b: 0 }, s2),
                }
            },
            None => (
                blend_s(
                    ray,
                    Color { r: 65536, g: 65536, b: 65536 },
                    Color { r: 32768, g: 45875, b: 65536 },
                ),
                s,
            ),
        }
    }
}

/// Resolves a ray's color: black once the recursion budget is exhausted,
/// otherwise the closest hit's material scatters (or absorbs) the ray, and a
/// miss yields the background gradient.
pub fn calculate_color(ray: Ray, shapes: &Vec<Sphere>, depth: u16, rng: &mut Rng) -> (c: Color)
    requires
        scene_wf(shapes@),
    ensures
        (c, final(rng).state) == calculate_color_s(ray, shapes@, depth, old(rng).state),
        depth == 0 ==> c == (Color { r: 0, g: 0, b: 0 }),
    decreases depth,
{
    if depth == 0 {
        return Color::black();
    }

    match closest_hit(shapes, &ray, T_MIN, T_MAX) {
        Some((rec, mat)) => {
            let new_ray = mat.scatter(&rec, &ray, rng);
            match new_ray {
                Some(scattered) => {
                    let traced = calculate_color(scattered, shapes, depth - 1, rng);
                    mat.attenuation().mul(traced)
                },
                None => Color::black(),
            }
        },
        None => linearly_blend_colors(ray, Color::white(), Color::blue()),
    }
}

/// One stochastic sample of the pixel at row `h`, column `w`: the pixel's
/// viewport fractions jittered by two draws, traced at full depth.
pub open spec fn one_sample_s(
    cam: Sensor,
    image: Image,
    shapes: Seq<Sphere>,
    h: u32,
    w: u32,
    s: u64,
) -> (Color, u64) {
    let u = div_s(add_s(w as int * 65536, rand01_of(s)), sub_s(image.width as int * 65536, 65536));
    let s1 = next_s(s);
    let v = div_s(
        add_s((image.height as int - 1 - h as int) * 65536, rand01_of(s1)),
        sub_s(image.height as int * 65536, 65536),
    );
    let s2 = next_s(s1);
    calculate_color_s(calculate_ray_s(cam, u, v), shapes, MAX_DEPTH, s2)
}

/// The sum of the first `n` samples of a pixel, with the state they leave.
pub open spec fn accumulate_s(
    cam: Sensor,
    image: Image,
    shapes: Seq<Sphere>,
    h: u32,
    w: u32,
    n: nat,
    s: u64,
) -> (Color, u64)
    decreases n,
{
    if n == 0 {
        (Color { r: 0, g: 0, b: 0 }, s)
    } else {
        let (prev, s1) = accumulate_s(cam, image, shapes, h, w, (n - 1) as nat, s);
        let (sample, s2) = one_sample_s(cam, image, shapes, h, w, s1);
        (color_add(prev, sample), s2)
    }
}

/// The final color of the pixel at row `h`, column `w`: the combined sum of
/// `SAMPLES_PER_PIXEL` samples drawn from the pixel's own seeded stream.
pub open spec fn pixel_color_s(
    cam: Sensor,
    image: Image,
    shapes: Seq<Sphere>,
    root_seed: u64,
    h: u32,
    w: u32,
) -> Color {
    let s0 = for_pixel_s(root_seed, h, w);
    let (sum, _s_end) = accumulate_s(cam, image, shapes, h, w, SAMPLES_PER_PIXEL as nat, s0);
    color_combine_s(sum, SAMPLES_PER_PIXEL as int)
}

fn one_sample(
    cam: &Sensor,
    image: &Image,
    shapes: &Vec<Sphere>,
    h: u32,
    w: u32,
    rng: &mut Rng,
) -> (c: Color)
    requires
        scene_wf(shapes@),
        image.width >= 2,
        image.height >= 2,
        h < image.height,
        w < image.width,
    ensures
        (c, final(rng).state) == one_sample_s(*cam, *image, shapes@, h, w, old(rng).state),
{
    let u_rand: i64 = rng.rand01();
    let u: i64 = fx_div(
        fx_add((w as i64) * 65536, u_rand),
        fx_sub((image.width as i64) * 65536, 65536),
    );
    let v_rand: i64 = rng.rand01();
    let v: i64 = fx_div(
        fx_add(((image.height - 1 - h) as i64) * 65536, v_rand),
        fx_sub((image.height as i64) * 65536, 65536),
    );

    let ray = cam.calculate_ray(u, v);
    calculate_color(ray, shapes, MAX_DEPTH, rng)
}

/// Computes the color of the pixel at row `h`, column `w` by averaging
/// `SAMPLES_PER_PIXEL` jittered samples (stochastic supersampling), all
/// drawn from a stream seeded by the root seed and the pixel's coordinates.
pub fn get_pixel_color(
    cam: &Sensor,
    image: &Image,
    shapes: &Vec<Sphere>,
    h: u32,
    w: u32,
    root_seed: u64,
) -> (c: Color)
    requires
        scene_wf(shapes@),
        image.width >= 2,
        image.height >= 2,
        h < image.height,
        w < image.width,
    ensures
        c == pixel_color_s(*cam, *image, shapes@, root_seed, h, w),
{
    let mut rng = Rng::for_pixel(root_seed, h, w);
    let ghost s0: u64 = rng.state;
    let mut color = Color::black();
    let mut n: u16 = 0;
    while n < SAMPLES_PER_PIXEL
        invariant
            scene_wf(shapes@),
            image.width >= 2,
            image.height >= 2,
            h < image.height,
            w < image.width,
            n <= SAMPLES_PER_PIXEL,
            (color, rng.state) == accumulate_s(*cam, *image, shapes@, h, w, n as nat, s0),
        decreases SAMPLES_PER_PIXEL - n,
    {
        let sample_color = one_sample(cam, image, shapes, h, w, &mut rng);
        color.add_sample(sample_color);
        n = n + 1;
    }
    color.combine_samples(SAMPLES_PER_PIXEL);
    color
}

/// The three bytes of the pixel at row `h`, column `w`: its color's 8-bit
/// channels in RGB order.
#[verifier::opaque]
pub open spec fn pixel_bytes_s(
    cam: Sensor,
    image: Image,
    shapes: Seq<Sphere>,
    root_seed: u64,
    h: u32,
    w: u32,
) -> Seq<u8> {
    let c = pixel_color_s(cam, image, shapes, root_seed, h, w);
    seq![
        crate::color::channel_u8_s(c.r as int) as u8,
        crate::color::channel_u8_s(c.g as int) as u8,
        crate::color::channel_u8_s(c.b as int) as u8,
    ]
}

/// The bytes of the first `n_w` pixels of row `h`, left to right.
pub open spec fn row_bytes_s(
    cam: Sensor,
    image: Image,
    shapes: Seq<Sphere>,
    root_seed: u64,
    h: u32,
    n_w: nat,
) -> Seq<u8>
    decreases n_w,
{
    if n_w == 0 {
        Seq::empty()
    } else {
        row_bytes_s(cam, image, shapes, root_seed, h, (n_w - 1) as nat) + pixel_bytes_s(
            cam,
            image,
            shapes,
            root_seed,
            h,
            (n_w - 1) as u32,
        )
    }
}

/// The bytes of the first `n_h` rows of the image, top to bottom: the whole
/// image in row-major RGB order when `n_h` is its height.
pub open spec fn image_bytes_s(
    cam: Sensor,
    image: Image,
    shapes: Seq<Sphere>,
    root_seed: u64,
    n_h: nat,
) -> Seq<u8>
    decreases n_h,
{
    if n_h == 0 {
        Seq::empty()
    } else {
        image_bytes_s(cam, image, shapes, root_seed, (n_h - 1) as nat) + row_bytes_s(
            cam,
            image,
            shapes,
            root_seed,
            (n_h - 1) as u32,
            image.width as nat,
        )
    }
}

/// Renders one scanline: the unit of work a render worker takes. The row's
/// bytes depend only on the camera, scene, dimensions, seed and coordinates,
/// so rows may be rendered in any order, or on any worker.
#[verifier::rlimit(30)]
pub fn render_row(
    cam: &Sensor,
    image: &Image,
    shapes: &Vec<Sphere>,
    root_seed: u64,
    h: u32,
) -> (row: Vec<u8>)
    requires
        scene_wf(shapes@),
        image.width >= 2,
        image.height >= 2,
        h < image.height,
    ensures
        row@ == row_bytes_s(*cam, *image, shapes@, root_seed, h, image.width as nat),
{
    let mut row: Vec<u8> = Vec::new();
    let mut w: u32 = 0;
    while w < image.width
        invariant
            scene_wf(shapes@),
            image.width >= 2,
            image.height >= 2,
            h < image.height,
            w <= image.width,
            row@ == row_bytes_s(*cam, *image, shapes@, root_seed, h, w as nat),
        decreases image.width - w,
    {
        let ghost row_before: Seq<u8> = row@;
        let color = get_pixel_color(cam, image, shapes, h, w, root_seed);
        let px: [u8; 3] = color.get_u8();
        row.push(px[0]);
        row.push(px[1]);
        row.push(px[2]);
        proof {
            reveal(pixel_bytes_s);
            assert(px@ == pixel_bytes_s(*cam, *image, shapes@, root_seed, h, w));
            assert(row@ =~= row_before + px@);
            assert(row_bytes_s(*cam, *image, shapes@, root_seed, h, (w + 1) as nat) == row_before
                + pixel_bytes_s(*cam, *image, shapes@, root_seed, h, w));
        }
        w = w + 1;
    }
    row
}

/// Renders the whole image sequentially, row by row: the reference every
/// parallel schedule reproduces. The result is the image's bytes in
/// row-major RGB order, pixel `(0, 0)` at the top left.
pub fn calculate_image(
    cam: &Sensor,
    image: &Image,
    shapes: &Vec<Sphere>,
    root_seed: u64,
) -> (pixels: Vec<u8>)
    requires
        scene_wf(shapes@),
        image.width >= 2,
        image.height >= 2,
    ensures
        pixels@ == image_bytes_s(*cam, *image, shapes@, root_seed, image.height as nat),
{
    let mut pixels: Vec<u8> = Vec::new();
    let mut h: u32 = 0;
    while h < image.height
        invariant
            scene_wf(shapes@),
            image.width >= 2,
            image.height >= 2,
            h <= image.height,
            pixels@ == image_bytes_s(*cam, *image, shapes@, root_seed, h as nat),
        decreases image.height - h,
    {
        let mut row = render_row(cam, image, shapes, root_seed, h);
        pixels.append(&mut row);
        h = h + 1;
    }
    pixels
}

/// The fixed demonstration scene: a matte red sphere in the middle, a fuzzy
/// metal sphere to its left, a shiny metal sphere to its right, and a large
/// matte green sphere below serving as the ground.
pub open spec fn scene_objects_s() -> Seq<Sphere> {
    seq![
        Sphere {
            center: Vec3 { x: 0, y: 0, z: -65536i64 },
            radius: 32768,
            material: Material::Lambertian(
                crate::material::Lambertian { albedo: Color { r: 52428, g: 13107, b: 13107 } },
            ),
        },
        Sphere {
            center: Vec3 { x: -65536i64, y: 0, z: -65536i64 },
            radius: 32768,
            material: Material::Metal(
                crate::material::Metal {
                    albedo: Color { r: 52428, g: 52428, b: 52428 },
                    fuzz: 19660,
                },
            ),
        },
        Sphere {
            center: Vec3 { x: 65536, y: 0, z: -65536i64 },
            radius: 32768,
            material: Material::Metal(
                crate::material::Metal { albedo: Color { r: 32768, g: 39321, b: 39321 }, fuzz: 0 },
            ),
        },
        Sphere {
            center: Vec3 { x: 0, y: -6586368i64, z: -65536i64 },
            radius: 6553600,
            material: Material::Lambertian(
                crate::material::Lambertian { albedo: Color { r: 3276, g: 32768, b: 3276 } },
            ),
        },
    ]
}

/// Every sphere of the demonstration scene is well formed.
pub proof fn lemma_scene_objects_wf()
    ensures
        scene_wf(scene_objects_s()),
{
    assert forall|i: int| 0 <= i < scene_objects_s().len() implies (
    #[trigger] scene_objects_s()[i]).wf() by {
        if i == 0 {
        } else if i == 1 {
        } else if i == 2 {
        } else {
            assert(i == 3);
        }
    }
}

/// Appends the demonstration scene's objects to the list; a well-formed
/// list stays well formed.
pub fn set_scene_objects(objects: &mut Vec<Sphere>)
    ensures
        final(objects)@ == old(objects)@ + scene_objects_s(),
        scene_wf(old(objects)@) ==> scene_wf(final(objects)@),
{
    let diffused = crate::material::Lambertian::new(Color::from_frac(52428, 13107, 13107).unwrap());
    let sphere = Sphere::new(Vec3::new(0, 0, -65536), 32768, Material::Lambertian(diffused));
    objects.push(sphere);
    let metal = crate::material::Metal::fuzzy(Color::from_frac(52428, 52428, 52428).unwrap(), 19660);
    let sphere = Sphere::new(Vec3::new(-65536, 0, -65536), 32768, Material::Metal(metal));
    objects.push(sphere);
    let metal = crate::material::Metal::shiny(Color::from_frac(32768, 39321, 39321).unwrap());
    let sphere = Sphere::new(Vec3::new(65536, 0, -65536), 32768, Material::Metal(metal));
    objects.push(sphere);
    let diffused = crate::material::Lambertian::new(Color::from_frac(3276, 32768, 3276).unwrap());
    let sphere = Sphere::new(Vec3::new(0, -6586368, -65536), 6553600, Material::Lambertian(diffused));
    objects.push(sphere);
    proof {
        assert(objects@ =~= old(objects)@ + scene_objects_s());
        lemma_scene_objects_wf();
        if scene_wf(old(objects)@) {
            assert forall|i: int| 0 <= i < objects@.len() implies (
            #[trigger] objects@[i]).wf() by {
                if i < old(objects)@.len() {
                    assert(objects@[i] == old(objects)@[i]);
                } else {
                    assert(objects@[i] == scene_objects_s()[i - old(objects)@.len()]);
                }
            }
        }
    }
}

/// The nearer of two spheres wins, whatever the scene order: when a ray hits
/// both spheres inside `(t_min, t_max)` and the hit on `a` has the smaller
/// parameter, the scan over `[a, b]` and the scan over `[b, a]` both return
/// the hit on `a`.
#[verifier::rlimit(30)]
pub proof fn lemma_nearest_hit_order_independent(
    a: Sphere,
    b: Sphere,
    ray: Ray,
    t_min: int,
    t_max: int,
)
    requires
        hit_s(a, ray, t_min, t_max) is Some,
        hit_s(b, ray, t_min, t_max) is Some,
        hit_s(a, ray, t_min, t_max)->Some_0.t < hit_s(b, ray, t_min, t_max)->Some_0.t,
    ensures
        closest_hit_s(seq![a, b], ray, t_min, t_max) == Some(
            (hit_s(a, ray, t_min, t_max)->Some_0, a.material),
        ),
        closest_hit_s(seq![b, a], ray, t_min, t_max) == Some(
            (hit_s(a, ray, t_min, t_max)->Some_0, a.material),
        ),
{
    let ha = hit_s(a, ray, t_min, t_max)->Some_0;
    let hb = hit_s(b, ray, t_min, t_max)->Some_0;
    crate::objects::lemma_hit_properties(a, ray, t_min, t_max);
    crate::objects::lemma_hit_properties(b, ray, t_min, t_max);

    let sab = seq![a, b];
    assert(sab.len() == 2 && sab[0] == a && sab[1] == b);
    crate::objects::lemma_hit_narrow_above(b, ray, t_min, t_max, ha.t as int);
    assert(scan_s(sab, ray, t_min, 2, ha.t as int, Some((ha, a.material))) == Some(
        (ha, a.material),
    ));
    assert(scan_s(sab, ray, t_min, 1, ha.t as int, Some((ha, a.material))) == Some(
        (ha, a.material),
    ));
    assert(closest_hit_s(sab, ray, t_min, t_max) == Some((ha, a.material)));

    let sba = seq![b, a];
    assert(sba.len() == 2 && sba[0] == b && sba[1] == a);
    crate::objects::lemma_hit_narrow_keep(a, ray, t_min, t_max, hb.t as int);
    assert(hit_s(a, ray, t_min, hb.t as int) == Some(ha));
    assert(scan_s(sba, ray, t_min, 2, ha.t as int, Some((ha, a.material))) == Some(
        (ha, a.material),
    ));
    assert(scan_s(sba, ray, t_min, 1, hb.t as int, Some((hb, b.material))) == Some(
        (ha, a.material),
    ));
    assert(closest_hit_s(sba, ray, t_min, t_max) == Some((ha, a.material)));
}

/// A row holds three bytes per pixel.
pub proof fn lemma_row_bytes_len(
    cam: Sensor,
    image: Image,
    shapes: Seq<Sphere>,
    root_seed: u64,
    h: u32,
    n_w: nat,
)
    ensures
        row_bytes_s(cam, image, shapes, root_seed, h, n_w).len() == 3 * n_w,
    decreases n_w,
{
    reveal(pixel_bytes_s);
    if n_w > 0 {
        lemma_row_bytes_len(cam, image, shapes, root_seed, h, (n_w - 1) as nat);
    }
}

/// The first `n_h` rows hold `3 * width` bytes each.
pub proof fn lemma_image_bytes_len(
    cam: Sensor,
    image: Image,
    shapes: Seq<Sphere>,
    root_seed: u64,
    n_h: nat,
)
    ensures
        image_bytes_s(cam, image, shapes, root_seed, n_h).len() == n_h * (3 * image.width as int),
    decreases n_h,
{
    if n_h == 0 {
        assert(n_h * (3 * image.width as int) == 0) by (nonlinear_arith)
            requires
                n_h == 0,
        ;
    } else {
        lemma_image_bytes_len(cam, image, shapes, root_seed, (n_h - 1) as nat);
        lemma_row_bytes_len(
            cam,
            image,
            shapes,
            root_seed,
            (n_h - 1) as u32,
            image.width as nat,
        );
        let k: int = 3 * image.width as int;
        let prefix = image_bytes_s(cam, image, shapes, root_seed, (n_h - 1) as nat);
        let last = row_bytes_s(
            cam,
            image,
            shapes,
            root_seed,
            (n_h - 1) as u32,
            image.width as nat,
        );
        assert(image_bytes_s(cam, image, shapes, root_seed, n_h) == prefix + last);
        assert(prefix.len() == (n_h - 1) * k);
        assert(last.len() == k);
        assert((n_h - 1) * k + k == n_h * k) by (nonlinear_arith);
    }
}

/// Where row `h` lies in the rendered image: the bytes from offset
/// `h * 3 * width` on are exactly the row's own bytes, so a coordinator that
/// writes each delivered row at the offset its coordinate names — in
/// whatever order the rows arrive, from however many workers — reassembles
/// the sequential image.
pub proof fn lemma_image_row_slice(
    cam: Sensor,
    image: Image,
    shapes: Seq<Sphere>,
    root_seed: u64,
    h: u32,
    n_h: nat,
)
    requires
        (h as nat) < n_h,
    ensures
        image_bytes_s(cam, image, shapes, root_seed, n_h).subrange(
            h as int * (3 * image.width as int),
            h as int * (3 * image.width as int) + 3 * image.width as int,
        ) == row_bytes_s(cam, image, shapes, root_seed, h, image.width as nat),
    decreases n_h,
{
    let width3: int = 3 * image.width as int;
    let lo: int = h as int * width3;
    assert(lo >= 0) by (nonlinear_arith)
        requires
            lo == h as int * width3,
            h as int >= 0,
            width3 >= 0,
    ;
    let prefix = image_bytes_s(cam, image, shapes, root_seed, (n_h - 1) as nat);
    let last = row_bytes_s(cam, image, shapes, root_seed, (n_h - 1) as u32, image.width as nat);
    let whole = image_bytes_s(cam, image, shapes, root_seed, n_h);
    assert(whole == prefix + last);
    lemma_image_bytes_len(cam, image, shapes, root_seed, (n_h - 1) as nat);
    lemma_row_bytes_len(cam, image, shapes, root_seed, (n_h - 1) as u32, image.width as nat);
    let row = row_bytes_s(cam, image, shapes, root_seed, h, image.width as nat);
    lemma_row_bytes_len(cam, image, shapes, root_seed, h, image.width as nat);
    if h as nat == n_h - 1 {
        assert(lo == prefix.len()) by (nonlinear_arith)
            requires
                prefix.len() == (n_h - 1) * width3,
                lo == h as int * width3,
                h as int == n_h - 1,
        ;
        assert(whole.subrange(lo, lo + width3) =~= last);
    } else {
        lemma_image_row_slice(cam, image, shapes, root_seed, h, (n_h - 1) as nat);
        assert(lo + width3 <= prefix.len()) by (nonlinear_arith)
            requires
                prefix.len() == (n_h - 1) * width3,
                lo == h as int * width3,
                h as int + 1 <= n_h - 1,
                width3 >= 0,
        ;
        assert(whole.subrange(lo, lo + width3) =~= prefix.subrange(lo, lo + width3));
    }
}

/// Any duplicate-free, in-range list of `height` row indices names every row:
/// it is a permutation of the rows.
proof fn lemma_order_covers_rows(order: Seq<u32>, height: u32)
    requires
        order.len() == height as int,
        forall|i: int| 0 <= i < order.len() ==> (#[trigger] order[i]) < height,
        forall|i: int, j: int|
            0 <= i < order.len() && 0 <= j < order.len() && i != j ==> order[i] != order[j],
    ensures
        forall|h: u32| h < height ==> #[trigger] order.contains(h),
{
    let ord = order.map_values(|v: u32| v as int);
    assert forall|i: int, j: int|
        0 <= i < ord.len() && 0 <= j < ord.len() && i != j implies ord[i] != ord[j] by {
        assert(order[i] != order[j]);
    }
    ord.unique_seq_to_set();
    let range = vstd::set_lib::set_int_range(0, height as int);
    vstd::set_lib::lemma_int_range(0, height as int);
    assert forall|x: int| ord.to_set().contains(x) implies range.contains(x) by {
        let i: int = choose|i: int| 0 <= i < ord.len() && ord[i] == x;
        assert(order[i] < height);
    }
    assert(ord.to_set().subset_of(range));
    vstd::set_lib::lemma_len_subset(ord.to_set(), range);
    vstd::set_lib::lemma_subset_equality(ord.to_set(), range);
    assert forall|h: u32| h < height implies #[trigger] order.contains(h) by {
        assert(range.contains(h as int));
        assert(ord.to_set().contains(h as int));
        assert(ord.contains(h as int));
        let m: int = choose|m: int| 0 <= m < ord.len() && ord[m] == h as int;
        assert(order[m] == h);
    }
}

/// Renders the scanlines in the given order — any permutation of the image's
/// rows, as a worker pool may deliver them — and writes each row's bytes at
/// the offset its coordinate names. Whatever the order, the result is
/// exactly the sequential image.
#[verifier::rlimit(60)]
pub fn calculate_image_ordered(
    cam: &Sensor,
    image: &Image,
    shapes: &Vec<Sphere>,
    root_seed: u64,
    order: &Vec<u32>,
) -> (pixels: Vec<u8>)
    requires
        scene_wf(shapes@),
        image.width >= 2,
        image.height >= 2,
        3 * image.width as int * image.height as int <= usize::MAX,
        order@.len() == image.height as int,
        forall|i: int| 0 <= i < order@.len() ==> (#[trigger] order@[i]) < image.height,
        forall|i: int, j: int|
            0 <= i < order@.len() && 0 <= j < order@.len() && i != j ==> order@[i] != order@[j],
    ensures
        pixels@ == image_bytes_s(*cam, *image, shapes@, root_seed, image.height as nat),
{
    proof {
        assert(3 * image.width as int <= 3 * image.width as int * image.height as int)
            by (nonlinear_arith)
            requires
                image.width as int >= 0,
                image.height as int >= 1,
        ;
    }
    let row_len: usize = 3 * (image.width as usize);
    proof {
        assert(row_len as int * image.height as int == 3 * image.width as int
            * image.height as int) by (nonlinear_arith)
            requires
                row_len as int == 3 * image.width as int,
        ;
    }
    let total: usize = row_len * (image.height as usize);

    let mut pixels: Vec<u8> = Vec::new();
    while pixels.len() < total
        invariant
            pixels@.len() <= total,
        decreases total - pixels@.len(),
    {
        pixels.push(0);
    }

    let mut k: usize = 0;
    while k < order.len()
        invariant
            scene_wf(shapes@),
            image.width >= 2,
            image.height >= 2,
            row_len as int == 3 * image.width as int,
            total as int == row_len as int * image.height as int,
            order@.len() == image.height as int,
            forall|i: int| 0 <= i < order@.len() ==> (#[trigger] order@[i]) < image.height,
            forall|i: int, j: int|
                0 <= i < order@.len() && 0 <= j < order@.len() && i != j ==> order@[i]
                    != order@[j],
            k <= order@.len(),
            pixels@.len() == total as int,
            forall|m: int|
                0 <= m < k ==> #[trigger] pixels@.subrange(
                    order@[m] as int * row_len as int,
                    order@[m] as int * row_len as int + row_len as int,
                ) == row_bytes_s(*cam, *image, shapes@, root_seed, order@[m], image.width as nat),
        decreases order@.len() - k,
    {
        let h: u32 = order[k];
        let row = render_row(cam, image, shapes, root_seed, h);
        proof {
            lemma_row_bytes_len(*cam, *image, shapes@, root_seed, h, image.width as nat);
            assert(h as int * row_len as int + row_len as int <= total as int)
                by (nonlinear_arith)
                requires
                    h as int + 1 <= image.height as int,
                    row_len as int >= 0,
                    total as int == row_len as int * image.height as int,
            ;
            assert(h as int * row_len as int >= 0) by (nonlinear_arith)
                requires
                    h as int >= 0,
                    row_len as int >= 0,
            ;
        }
        let offset: usize = (h as usize) * row_len;
        let ghost before: Seq<u8> = pixels@;
        let mut j: usize = 0;
        while j < row_len
            invariant
                j <= row_len,
                row@.len() == row_len as int,
                offset as int + row_len as int <= pixels@.len(),
                pixels@.len() <= usize::MAX,
                pixels@.len() == before.len(),
                forall|i: int|
                    0 <= i < pixels@.len() && !(offset as int <= i < offset as int + j as int)
                        ==> pixels@[i] == before[i],
                forall|i: int|
                    offset as int <= i < offset as int + j as int ==> pixels@[i] == row@[i
                        - offset as int],
            decreases row_len - j,
        {
            let byte: u8 = row[j];
            pixels[offset + j] = byte;
            j = j + 1;
        }
        proof {
            assert(pixels@.subrange(offset as int, offset as int + row_len as int) =~= row@);
            assert forall|m: int| 0 <= m < k + 1 implies #[trigger] pixels@.subrange(
                order@[m] as int * row_len as int,
                order@[m] as int * row_len as int + row_len as int,
            ) == row_bytes_s(
                *cam,
                *image,
                shapes@,
                root_seed,
                order@[m],
                image.width as nat,
            ) by {
                let lo: int = order@[m] as int * row_len as int;
                if m < k {
                    assert(order@[m] != h);
                    if order@[m] < h {
                        assert(lo + row_len as int <= offset as int) by (nonlinear_arith)
                            requires
                                lo == order@[m] as int * row_len as int,
                                offset as int == h as int * row_len as int,
                                order@[m] as int + 1 <= h as int,
                                row_len as int >= 0,
                        ;
                    } else {
                        assert(offset as int + row_len as int <= lo) by (nonlinear_arith)
                            requires
                                lo == order@[m] as int * row_len as int,
                                offset as int == h as int * row_len as int,
                                h as int + 1 <= order@[m] as int,
                                row_len as int >= 0,
                        ;
                    }
                    assert(lo >= 0) by (nonlinear_arith)
                        requires
                            lo == order@[m] as int * row_len as int,
                            order@[m] as int >= 0,
                            row_len as int >= 0,
                    ;
                    assert(lo + row_len as int <= pixels@.len()) by (nonlinear_arith)
                        requires
                            lo == order@[m] as int * row_len as int,
                            order@[m] as int + 1 <= image.height as int,
                            row_len as int >= 0,
                            pixels@.len() == row_len as int * image.height as int,
                    ;
                    assert(pixels@.subrange(lo, lo + row_len as int) =~= before.subrange(
                        lo,
                        lo + row_len as int,
                    ));
                } else {
                    assert(order@[m] == h);
                }
            }
        }
        k = k + 1;
    }

    proof {
        lemma_order_covers_rows(order@, image.height);
        lemma_image_bytes_len(*cam, *image, shapes@, root_seed, image.height as nat);
        let img = image_bytes_s(*cam, *image, shapes@, root_seed, image.height as nat);
        let rl: int = row_len as int;
        assert(img.len() == image.height as int * (3 * image.width as int));
        assert(img.len() == total as int) by (nonlinear_arith)
            requires
                img.len() == image.height as int * rl,
                total as int == rl * image.height as int,
        ;
        assert forall|i: int| 0 <= i < total as int implies pixels@[i] == img[i] by {
            vstd::arithmetic::div_mod::lemma_fundamental_div_mod(i, rl);
            vstd::arithmetic::div_mod::lemma_mod_bound(i, rl);
            let hh: int = i / rl;
            vstd::arithmetic::div_mod::lemma_div_pos_is_pos(i, rl);
            assert(i < rl * image.height as int);
            vstd::arithmetic::div_mod::lemma_multiply_divide_lt(i, rl, image.height as int);
            let hu: u32 = hh as u32;
            assert(hh * rl == rl * hh) by (nonlinear_arith);
            assert(0 <= hh * rl && hh * rl + rl <= total as int) by (nonlinear_arith)
                requires
                    0 <= hh,
                    hh + 1 <= image.height as int,
                    rl >= 0,
                    total as int == rl * image.height as int,
            ;
            assert(order@.contains(hu));
            let m: int = choose|m: int| 0 <= m < order@.len() && order@[m] == hu;
            assert(pixels@.subrange(hh * rl, hh * rl + rl) == row_bytes_s(
                *cam,
                *image,
                shapes@,
                root_seed,
                hu,
                image.width as nat,
            ));
            lemma_image_row_slice(*cam, *image, shapes@, root_seed, hu, image.height as nat);
            assert(pixels@[i] == pixels@.subrange(hh * rl, hh * rl + rl)[i - hh * rl]);
            assert(img[i] == img.subrange(hh * rl, hh * rl + rl)[i - hh * rl]);
        }
        assert(pixels@ =~= img);
    }
    pixels
}

} // verus!
