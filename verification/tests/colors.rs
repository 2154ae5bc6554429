use ray_tracing::color::{clamp, Color};

const S: i64 = 65536;

#[test]
fn from_u8_scales_to_fractions() {
    let c = Color::from_u8(255, 0, 128);
    assert_eq!((c.r, c.g, c.b), (S, 0, 32896));
}

#[test]
fn from_frac_checks_range() {
    assert!(Color::from_frac(0, S / 2, S).is_some());
    assert!(Color::from_frac(S + 1, 0, 0).is_none());
    assert!(Color::from_frac(0, -1, 0).is_none());
    let c = Color::from_frac(S / 4, S / 2, S).unwrap();
    assert_eq!((c.r, c.g, c.b), (S / 4, S / 2, S));
}

#[test]
fn named_colors() {
    assert_eq!(Color::black(), Color::from_frac(0, 0, 0).unwrap());
    assert_eq!(Color::white(), Color::from_frac(S, S, S).unwrap());
    let blue = Color::blue();
    assert_eq!((blue.r, blue.g, blue.b), (S / 2, 45875, S));
    assert_eq!(blue.copy(), blue);
}

#[test]
fn color_arithmetic() {
    let a = Color::from_frac(S / 2, S / 4, S).unwrap();
    let b = Color::from_frac(S / 2, S / 2, 0).unwrap();
    let sum = a.add(b);
    assert_eq!((sum.r, sum.g, sum.b), (S, 3 * S / 4, S));
    let product = a.mul(b);
    assert_eq!((product.r, product.g, product.b), (S / 4, S / 8, 0));
    let scaled = a.scale(S / 2);
    assert_eq!((scaled.r, scaled.g, scaled.b), (S / 4, S / 8, S / 2));
}

#[test]
fn add_sample_accumulates_without_clamping() {
    let mut acc = Color::black();
    acc.add_sample(Color::white());
    acc.add_sample(Color::white());
    // Sums above one unit are kept until combination.
    assert_eq!((acc.r, acc.g, acc.b), (2 * S, 2 * S, 2 * S));
}

/// Combining a single sample applies, per channel, the square root, the
/// clamp to `[0, 0.999]` and the scale by 256.
#[test]
fn single_sample_combination() {
    let mut acc = Color::black();
    acc.add_sample(Color { r: S / 4, g: S, b: 3000 });
    acc.combine_samples(1);
    assert_eq!((acc.r, acc.g, acc.b), (8388608, 16760320, 3589376));
    assert_eq!(acc.get_u8(), [128, 255, 54]);
}

#[test]
fn combine_averages_samples() {
    // Four equal samples of one quarter average back to one quarter, whose
    // square root is one half: 128 of 256.
    let mut acc = Color::black();
    for _ in 0..4 {
        acc.add_sample(Color { r: S / 4, g: 0, b: S / 4 });
    }
    acc.combine_samples(4);
    assert_eq!(acc.get_u8(), [128, 0, 128]);
}

#[test]
fn get_u8_saturates() {
    let c = Color { r: -5 * S, g: 300 * S, b: 65535 };
    assert_eq!(c.get_u8(), [0, 255, 0]);
    let c = Color { r: 255 * S, g: 255 * S + 65535, b: 128 * S };
    assert_eq!(c.get_u8(), [255, 255, 128]);
}

#[test]
fn clamp_bounds_values() {
    assert_eq!(clamp(5, 0, 10), 5);
    assert_eq!(clamp(-3, 0, 10), 0);
    assert_eq!(clamp(42, 0, 10), 10);
    assert_eq!(clamp(10, 0, 10), 10);
}
