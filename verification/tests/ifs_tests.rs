use barnsley::fixed::SCALE;
use barnsley::ifs::{IFS, project};
use barnsley::image::Image;
use barnsley::rng::rng_from_seed;
use barnsley::transform::{AffineTransform, LinearTransform, Transform};
use barnsley::util::{Color, Error};

fn white() -> Color {
    Color { r: SCALE, g: SCALE, b: SCALE }
}

fn identity_affine(base_color: Color, weight: i64) -> Transform {
    Transform::AffineTransform(
        AffineTransform::new(SCALE, 0, 0, SCALE, 0, 0, base_color, weight).unwrap(),
    )
}

#[test]
fn test_add_and_delete() {
    let mut ifs = IFS::new();
    assert!(ifs.is_empty());
    ifs.add_transform(identity_affine(white(), SCALE));
    ifs.add_transform(identity_affine(white(), 2 * SCALE));
    assert_eq!(ifs.len(), 2);
    assert_eq!(ifs.total_weight, 3 * SCALE);
    ifs.delete_transform(0).unwrap();
    assert_eq!(ifs.len(), 1);
    assert_eq!(ifs.total_weight, 2 * SCALE);
}

#[test]
fn test_delete_out_of_range() {
    let mut ifs = IFS::new();
    ifs.add_transform(identity_affine(white(), SCALE));
    assert_eq!(ifs.delete_transform(1), Err(Error::IndexOutOfRange));
    assert_eq!(ifs.len(), 1);
}

#[test]
fn test_get_transform() {
    let mut ifs = IFS::new();
    let t = identity_affine(white(), SCALE);
    ifs.add_transform(t);
    assert_eq!(ifs.get_transform(0).unwrap(), t);
    assert_eq!(ifs.get_transform(1), Err(Error::IndexOutOfRange));
}

#[test]
fn test_check_transforms_match() {
    let mut rng = rng_from_seed(40);
    let mut a = IFS::new();
    a.add_transform(identity_affine(white(), SCALE));
    let mut b = IFS::new();
    b.add_transform(Transform::AffineTransform(AffineTransform::random(&mut rng)));
    assert!(a.check_transforms_match(&b));
    let mut c = IFS::new();
    c.add_transform(Transform::LinearTransform(LinearTransform::random(&mut rng)));
    assert!(!a.check_transforms_match(&c));
    let mut d = IFS::new();
    d.add_transform(identity_affine(white(), SCALE));
    d.add_transform(identity_affine(white(), SCALE));
    assert!(!a.check_transforms_match(&d));
}

#[test]
fn test_ifs_morph_mismatch() {
    let mut rng = rng_from_seed(41);
    let mut a = IFS::new();
    a.add_transform(identity_affine(white(), SCALE));
    let mut b = IFS::new();
    b.add_transform(Transform::LinearTransform(LinearTransform::random(&mut rng)));
    assert!(matches!(a.morph(&b, 500000), Err(Error::InvalidShape)));
}

#[test]
fn test_ifs_morph_identity() {
    let mut a = IFS::new();
    a.add_transform(identity_affine(white(), SCALE));
    a.add_transform(identity_affine(Color { r: 0, g: SCALE, b: 0 }, 2 * SCALE));
    let m = a.morph(&a, 777777).unwrap();
    assert_eq!(m.len(), 2);
    assert_eq!(m.get_transform(0).unwrap(), a.get_transform(0).unwrap());
    assert_eq!(m.get_transform(1).unwrap(), a.get_transform(1).unwrap());
}

#[test]
fn test_weighted_sampling() {
    // Weights 1 and 99: the second transform should be drawn about 99% of
    // the time over one hundred thousand samples.
    let mut rng = rng_from_seed(2024);
    let rare = identity_affine(Color { r: 0, g: 0, b: 0 }, SCALE);
    let common = identity_affine(white(), 99 * SCALE);
    let mut ifs = IFS::new();
    ifs.add_transform(rare);
    ifs.add_transform(common);
    let mut count_common: u64 = 0;
    for _ in 0..100000 {
        let t = ifs.choose_transform(&mut rng);
        if *t == common {
            count_common += 1;
        }
    }
    assert!(count_common > 98500, "second transform drawn {count_common} times");
    assert!(count_common < 99500, "second transform drawn {count_common} times");
}

#[test]
fn test_randomize_keeps_kinds() {
    let mut rng = rng_from_seed(50);
    let mut ifs = IFS::new();
    ifs.add_transform(identity_affine(white(), SCALE));
    ifs.add_transform(Transform::LinearTransform(LinearTransform::random(&mut rng)));
    ifs.randomize(&mut rng);
    assert_eq!(ifs.len(), 2);
    assert!(matches!(ifs.get_transform(0).unwrap(), Transform::AffineTransform(_)));
    assert!(matches!(ifs.get_transform(1).unwrap(), Transform::LinearTransform(_)));
}

#[test]
fn test_projection_formula() {
    // f = 0 maps to the middle of the grid: floor((0 + 1) * 100 / 2) = 50.
    assert_eq!(project(0, 0, 100, 100), Some((50, 50)));
    // f = -1 maps to pixel zero.
    assert_eq!(project(-SCALE, -SCALE, 100, 100), Some((0, 0)));
    // f just under +1 maps to the last pixel.
    assert_eq!(project(999999, 999999, 100, 100), Some((99, 99)));
    // f = +1 falls off the high edge.
    assert_eq!(project(SCALE, 0, 100, 100), None);
    // f below -1 falls off the low edge.
    assert_eq!(project(-1000001, 0, 100, 100), None);
}

#[test]
fn test_bounds_dropping() {
    // An out-of-range deposit changes nothing and raises no error.
    let mut image = Image::new(10, 10);
    image.add_radiance(20, 5, white());
    image.add_radiance(5, 10, white());
    assert!(image.data.iter().all(|&v| v == 0));
    // An in-range deposit changes exactly the three channels of its cell.
    image.add_radiance(5, 5, white());
    assert_eq!(image.data.iter().filter(|&&v| v != 0).count(), 3);
}

#[test]
fn test_evaluate_identity_projection() {
    // One identity affine map: each trajectory's seed never moves, so all
    // five deposits of a trajectory land in the seed's single pixel.
    let mut rng = rng_from_seed(88);
    let mut ifs = IFS::new();
    ifs.add_transform(identity_affine(white(), SCALE));
    let mut image = Image::new(100, 100);
    ifs.evaluate(&mut image, 10, 5, &mut rng);

    // Running color after each mix with white: 0.5, 0.75, 0.875, 0.9375,
    // 0.96875; their sum in fixed point.
    let per_trajectory: u64 = 500000 + 750000 + 875000 + 937500 + 968750;
    let total_red: u64 = (0..100 * 100).map(|p| image.data[3 * p]).sum();
    assert_eq!(total_red, 10 * per_trajectory);
    let mut pixels_hit = 0;
    for p in 0..100 * 100 {
        let r = image.data[3 * p];
        let g = image.data[3 * p + 1];
        let b = image.data[3 * p + 2];
        assert_eq!(r, g);
        assert_eq!(g, b);
        if r != 0 {
            pixels_hit += 1;
            assert_eq!(r % per_trajectory, 0, "a trajectory split across pixels");
        }
    }
    assert!(pixels_hit <= 10);
    assert!(pixels_hit >= 1);
}

#[test]
fn test_evaluate_only_accumulates() {
    let mut rng = rng_from_seed(60);
    let mut ifs = IFS::new();
    ifs.add_transform(identity_affine(white(), SCALE));
    let mut image = Image::new(20, 20);
    ifs.evaluate(&mut image, 5, 5, &mut rng);
    let snapshot: Vec<u64> = image.data.clone();
    ifs.evaluate(&mut image, 5, 5, &mut rng);
    for (before, after) in snapshot.iter().zip(image.data.iter()) {
        assert!(before <= after);
    }
}
