use barnsley::config::{Config, EvaluationSettings, ImageSettings};
use barnsley::fixed::SCALE;
use barnsley::rng::rng_from_seed;
use barnsley::template::Template;
use barnsley::transform::{AffineTransform, Transform};
use barnsley::util::{Color, Error};

fn settings(width: u32, height: u32) -> (ImageSettings, EvaluationSettings) {
    (
        ImageSettings { width, height, path: "out.ppm".to_owned() },
        EvaluationSettings { num_iterations: 10, num_points: 10 },
    )
}

#[test]
fn test_config_run_produces_pixel_buffer() {
    let (image_settings, evaluation_settings) = settings(16, 12);
    let transform = Transform::AffineTransform(
        AffineTransform::new(
            500000,
            0,
            0,
            500000,
            100000,
            100000,
            Color { r: SCALE, g: 500000, b: 250000 },
            SCALE,
        )
        .unwrap(),
    );
    let config = Config { image_settings, evaluation_settings, transforms: vec![transform] };
    let mut rng = rng_from_seed(5);
    let pixels = config.run(&mut rng);
    assert_eq!(pixels.len(), 16 * 12 * 3);
}

#[test]
fn test_template_generate() {
    let (image_settings, evaluation_settings) = settings(8, 8);
    let template = Template {
        image_settings,
        evaluation_settings,
        random_transforms: vec![
            "LinearTransform".to_owned(),
            "AffineTransform".to_owned(),
            "MoebiusTransform".to_owned(),
            "InverseJuliaTransform".to_owned(),
        ],
    };
    let mut rng = rng_from_seed(6);
    let config = template.generate(&mut rng).unwrap();
    assert_eq!(config.transforms.len(), 4);
    assert!(matches!(config.transforms[0], Transform::LinearTransform(_)));
    assert!(matches!(config.transforms[1], Transform::AffineTransform(_)));
    assert!(matches!(config.transforms[2], Transform::MoebiusTransform(_)));
    assert!(matches!(config.transforms[3], Transform::InverseJuliaTransform(_)));
    assert_eq!(config.image_settings.width, 8);
    assert_eq!(config.image_settings.path, "out.ppm");
    assert_eq!(config.evaluation_settings.num_points, 10);
}

#[test]
fn test_template_generate_unknown_name() {
    let (image_settings, evaluation_settings) = settings(8, 8);
    let template = Template {
        image_settings,
        evaluation_settings,
        random_transforms: vec!["LinearTransform".to_owned(), "Spiral".to_owned()],
    };
    let mut rng = rng_from_seed(6);
    assert!(matches!(template.generate(&mut rng), Err(Error::ConstructionError)));
}

#[test]
fn test_generated_config_runs() {
    let (image_settings, evaluation_settings) = settings(8, 8);
    let template = Template {
        image_settings,
        evaluation_settings,
        random_transforms: vec!["AffineTransform".to_owned(), "LinearTransform".to_owned()],
    };
    let mut rng = rng_from_seed(7);
    let config = template.generate(&mut rng).unwrap();
    let pixels = config.run(&mut rng);
    assert_eq!(pixels.len(), 8 * 8 * 3);
}

#[test]
fn test_color_random_in_range() {
    let mut rng = rng_from_seed(9);
    for _ in 0..100 {
        let c = Color::random(&mut rng);
        assert!(c.r >= 0 && c.r < SCALE);
        assert!(c.g >= 0 && c.g < SCALE);
        assert!(c.b >= 0 && c.b < SCALE);
    }
}

#[test]
fn test_color_add_clamps_and_mul_scales() {
    let a = Color { r: 800000, g: 100000, b: 0 };
    let b = Color { r: 700000, g: 200000, b: SCALE };
    let sum = a.add(b);
    assert_eq!(sum, Color { r: SCALE, g: 300000, b: SCALE });
    let prod = a.mul(b);
    assert_eq!(prod, Color { r: 560000, g: 20000, b: 0 });
}
