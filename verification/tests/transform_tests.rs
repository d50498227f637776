use barnsley::fixed::{SCALE, lerp, fix_sqrt, fix_mul, fix_div};
use barnsley::rng::rng_from_seed;
use barnsley::transform::{
    AffineTransform, InverseJuliaTransform, LinearTransform, MoebiusTransform, Transform,
    final_transform, fix_cos, fix_sin, kinds_match, transform_from_str,
};
use barnsley::util::{Color, Complex, Error, Point};

fn gray() -> Color {
    Color { r: 500000, g: 250000, b: 750000 }
}

fn sample_affine() -> AffineTransform {
    AffineTransform::new(900000, -100000, 200000, 800000, 300000, -400000, gray(), SCALE)
        .unwrap()
}

fn other_affine() -> AffineTransform {
    AffineTransform::new(-500000, 250000, 125000, -750000, 100000, 600000,
        Color { r: 100000, g: 200000, b: 300000 }, 2 * SCALE).unwrap()
}

#[test]
fn test_morph_identity() {
    let t = Transform::AffineTransform(sample_affine());
    for pct in [0, 1, 250000, 337123, 999999, SCALE] {
        assert_eq!(t.morph(t, pct).unwrap(), t);
    }
}

#[test]
fn test_morph_endpoints() {
    let t = Transform::AffineTransform(sample_affine());
    let o = Transform::AffineTransform(other_affine());
    assert_eq!(t.morph(o, 0).unwrap(), t);
    assert_eq!(t.morph(o, SCALE).unwrap(), o);
}

#[test]
fn test_morph_midpoint_values() {
    let t = Transform::AffineTransform(sample_affine());
    let o = Transform::AffineTransform(other_affine());
    let m = t.morph(o, 500000).unwrap();
    match m {
        Transform::AffineTransform(a) => {
            // Halfway between 0.9 and -0.5 is 0.2.
            assert_eq!(a.a, 200000);
            // Halfway between 1.0 and 2.0 is 1.5.
            assert_eq!(a.weight, 1500000);
        },
        _ => panic!("morph changed the transform kind"),
    }
}

#[test]
fn test_morph_type_mismatch() {
    let mut rng = rng_from_seed(5);
    let lin = Transform::LinearTransform(LinearTransform::random(&mut rng));
    let aff = Transform::AffineTransform(sample_affine());
    assert_eq!(lin.morph(aff, 250000), Err(Error::InvalidShape));
    assert_eq!(aff.morph(lin, 0), Err(Error::InvalidShape));
}

#[test]
fn test_construction_rejects_bad_weight() {
    let r = LinearTransform::new(0, 0, 0, 0, gray(), 0);
    assert_eq!(r, Err(Error::ConstructionError));
    let r = AffineTransform::new(0, 0, 0, 0, 0, 0, gray(), -5);
    assert_eq!(r, Err(Error::ConstructionError));
}

#[test]
fn test_construction_rejects_out_of_range_param() {
    // 129 exceeds the parameter domain of 128.
    let r = LinearTransform::new(129000000, 0, 0, 0, gray(), SCALE);
    assert_eq!(r, Err(Error::ConstructionError));
}

#[test]
fn test_linear_point_exact() {
    let t = LinearTransform::new(500000, 0, 0, 2000000, gray(), SCALE).unwrap();
    // (0.5 * 0.8, 2 * -0.25) = (0.4, -0.5)
    let p = t.transform_point(Point { x: 800000, y: -250000 }).unwrap();
    assert_eq!(p, Point { x: 400000, y: -500000 });
}

#[test]
fn test_affine_point_exact() {
    let t = sample_affine();
    // x' = 0.9*1 + -0.1*1 + 0.3 = 1.1 ; y' = 0.2*1 + 0.8*1 + -0.4 = 0.6
    let p = t.transform_point(Point { x: SCALE, y: SCALE }).unwrap();
    assert_eq!(p, Point { x: 1100000, y: 600000 });
}

#[test]
fn test_moebius_identity_map() {
    // (1*z + 0) / (0*z + 1) leaves the point unchanged.
    let one = Complex { re: SCALE, im: 0 };
    let zero = Complex { re: 0, im: 0 };
    let t = MoebiusTransform::new(one, zero, zero, one, gray(), SCALE).unwrap();
    let p = t.transform_point(Point { x: 123456, y: -654321 }).unwrap();
    assert_eq!(p, Point { x: 123456, y: -654321 });
}

#[test]
fn test_moebius_degenerate_denominator() {
    // (z + 0) / (0*z + 0): the denominator is exactly zero everywhere.
    let one = Complex { re: SCALE, im: 0 };
    let zero = Complex { re: 0, im: 0 };
    let t = MoebiusTransform::new(one, zero, zero, zero, gray(), SCALE).unwrap();
    assert_eq!(t.transform_point(Point { x: 250000, y: 250000 }), None);
}

#[test]
fn test_inverse_julia_branches() {
    let mut rng = rng_from_seed(17);
    // c = 1 * (cos 0, sin 0) = (1, 0); from z = (1, -1), c - z = (0, 1).
    let t = InverseJuliaTransform::new(SCALE, 0, gray(), SCALE).unwrap();
    assert_eq!(t.c, Complex { re: SCALE, im: 0 });
    // sqrt((0,1)) = (sqrt(1/2), sqrt(1/2)) ~ (0.707106, 0.707106).
    let mut seen_positive = false;
    let mut seen_negative = false;
    for _ in 0..100 {
        let p = t.transform_point(Point { x: SCALE, y: -SCALE }, &mut rng);
        assert_eq!(p.x.abs(), 707106);
        assert_eq!(p.y.abs(), 707106);
        assert_eq!(p.x > 0, p.y > 0);
        if p.x > 0 {
            seen_positive = true;
        } else {
            seen_negative = true;
        }
    }
    assert!(seen_positive && seen_negative);
}

#[test]
fn test_transform_color_mixes_to_average() {
    let t = Transform::AffineTransform(sample_affine());
    let mixed = t.transform_color(Color { r: 0, g: 0, b: 0 });
    assert_eq!(mixed, Color { r: 250000, g: 125000, b: 375000 });
    let again = t.transform_color(mixed);
    assert_eq!(again, Color { r: 375000, g: 187500, b: 562500 });
}

#[test]
fn test_final_transform_halves() {
    let (fx, fy) = final_transform(800000, -600000);
    assert_eq!(fx, 400000);
    assert_eq!(fy, -300000);
}

#[test]
fn test_transform_from_str_kinds() {
    let mut rng = rng_from_seed(3);
    let lin = transform_from_str(&"LinearTransform".to_owned(), &mut rng).unwrap();
    assert!(matches!(lin, Transform::LinearTransform(_)));
    let aff = transform_from_str(&"AffineTransform".to_owned(), &mut rng).unwrap();
    assert!(matches!(aff, Transform::AffineTransform(_)));
    let moe = transform_from_str(&"MoebiusTransform".to_owned(), &mut rng).unwrap();
    assert!(matches!(moe, Transform::MoebiusTransform(_)));
    let jul = transform_from_str(&"InverseJuliaTransform".to_owned(), &mut rng).unwrap();
    assert!(matches!(jul, Transform::InverseJuliaTransform(_)));
    assert_eq!(lin.get_name(), "LinearTransform");
    assert_eq!(jul.get_name(), "InverseJuliaTransform");
    assert!(kinds_match(&lin, &lin));
    assert!(!kinds_match(&lin, &aff));
}

#[test]
fn test_transform_from_str_unknown() {
    let mut rng = rng_from_seed(3);
    let r = transform_from_str(&"SpiralTransform".to_owned(), &mut rng);
    assert_eq!(r, Err(Error::ConstructionError));
}

#[test]
fn test_trig_anchors() {
    assert_eq!(fix_cos(0), SCALE);
    assert_eq!(fix_sin(0), 0);
    // cos(pi/2) ~ 0, sin(pi/2) ~ 1 within the polynomial's tolerance.
    assert!(fix_cos(1570796).abs() < 2000);
    assert!((fix_sin(1570796) - SCALE).abs() < 2000);
    // cos(pi) ~ -1.
    assert!((fix_cos(3141593) + SCALE).abs() < 2000);
    // The reduction brings full turns back around.
    assert!((fix_cos(6283185) - SCALE).abs() < 2000);
}

#[test]
fn test_fixed_arithmetic_exact() {
    assert_eq!(lerp(0, SCALE, 250000), 250000);
    assert_eq!(lerp(-SCALE, SCALE, 500000), 0);
    assert_eq!(fix_mul(1500000, 2000000), Some(3000000));
    assert_eq!(fix_div(3000000, 2000000), Some(1500000));
    assert_eq!(fix_div(SCALE, 0), None);
    // sqrt(2.25) = 1.5
    assert_eq!(fix_sqrt(2250000), 1500000);
    assert_eq!(fix_sqrt(0), 0);
}

#[test]
fn test_random_transforms_stay_in_documented_ranges() {
    let mut rng = rng_from_seed(8);
    for _ in 0..50 {
        let t = LinearTransform::random(&mut rng);
        assert!(t.weight >= 100000 && t.weight < 1900000);
        for v in [t.a, t.b, t.c, t.d] {
            assert!(v >= -SCALE && v < SCALE);
        }
        assert!(t.base_color.r >= 0 && t.base_color.r < SCALE);
        let a = AffineTransform::random(&mut rng);
        assert!(a.weight >= 100000 && a.weight < 1900000);
        for v in [a.a, a.b, a.c, a.d] {
            assert!(v >= -SCALE && v < SCALE);
        }
        assert!(a.xshift >= -2 * SCALE && a.xshift < 2 * SCALE);
        assert!(a.yshift >= -2 * SCALE && a.yshift < 2 * SCALE);
        let j = InverseJuliaTransform::random(&mut rng);
        assert!(j.r >= 800000 && j.r < 1200000);
        assert!(j.theta >= 0 && j.theta < 6283185);
        assert!(j.weight >= 100000 && j.weight < 1900000);
        let m = MoebiusTransform::random(&mut rng);
        for z in [m.a, m.b, m.c, m.d] {
            assert!(z.re >= -SCALE && z.re < SCALE);
            assert!(z.im >= -SCALE && z.im < SCALE);
        }
        assert!(m.weight >= 100000 && m.weight < 1900000);
    }
}

#[test]
fn test_seeded_rng_is_deterministic() {
    let mut rng1 = rng_from_seed(1234);
    let mut rng2 = rng_from_seed(1234);
    for _ in 0..10 {
        assert_eq!(Color::random(&mut rng1), Color::random(&mut rng2));
    }
}
