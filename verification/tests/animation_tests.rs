use barnsley::animation::AnimationSequence;
use barnsley::fixed::SCALE;
use barnsley::ifs::IFS;
use barnsley::rng::rng_from_seed;
use barnsley::transform::{AffineTransform, Transform};
use barnsley::util::Error;

fn one_affine_ifs(seed: u64) -> IFS {
    let mut rng = rng_from_seed(seed);
    let mut ifs = IFS::new();
    ifs.add_transform(Transform::AffineTransform(AffineTransform::random(&mut rng)));
    ifs
}

fn four_system_sequence() -> AnimationSequence {
    AnimationSequence {
        ifs_vec: vec![
            one_affine_ifs(1),
            one_affine_ifs(2),
            one_affine_ifs(3),
            one_affine_ifs(4),
        ],
        step_counts: vec![100, 200, 300],
    }
}

#[test]
fn test_determine_current_pair_index() {
    let seq = four_system_sequence();

    assert_eq!(seq.determine_current_pair_index(30).unwrap(), 0);
    assert_eq!(seq.determine_current_pair_index(100).unwrap(), 0);
    assert_eq!(seq.determine_current_pair_index(101).unwrap(), 1);
    assert_eq!(seq.determine_current_pair_index(101).unwrap(), 1);
    assert_eq!(seq.determine_current_pair_index(305).unwrap(), 2);
}

#[test]
fn test_determine_current_pct() {
    let seq = four_system_sequence();

    assert!((seq.determine_current_pct(30, 0) - 300000).abs() < 10000);
    assert!((seq.determine_current_pct(101, 1) - SCALE / 200).abs() < 10000);
    assert!((seq.determine_current_pct(201, 1) - 505000).abs() < 10000);
}

#[test]
fn test_determine_current_pct_exact() {
    let seq = four_system_sequence();

    assert_eq!(seq.determine_current_pct(30, 0), 300000);
    assert_eq!(seq.determine_current_pct(100, 0), SCALE);
    assert_eq!(seq.determine_current_pct(101, 1), 5000);
    assert_eq!(seq.determine_current_pct(201, 1), 505000);
    assert_eq!(seq.determine_current_pct(305, 2), 16666);
}

#[test]
fn test_step_overflow() {
    let seq = four_system_sequence();
    assert_eq!(seq.determine_current_pair_index(601), Err(Error::StepOverflow));
    assert_eq!(seq.determine_current_pair_index(600).unwrap(), 2);
}

#[test]
fn test_animate_single_step() {
    let seq = AnimationSequence {
        ifs_vec: vec![one_affine_ifs(10), one_affine_ifs(11)],
        step_counts: vec![10],
    };
    let mut rng = rng_from_seed(99);
    let image = seq.animate_single_step(20, 20, 50, 5, 3, &mut rng).unwrap();
    assert_eq!(image.width, 20);
    assert_eq!(image.height, 20);
    assert_eq!(image.data.len(), 20 * 20 * 3);
}

#[test]
fn test_animate_single_step_overflow() {
    let seq = AnimationSequence {
        ifs_vec: vec![one_affine_ifs(10), one_affine_ifs(11)],
        step_counts: vec![10],
    };
    let mut rng = rng_from_seed(99);
    let r = seq.animate_single_step(20, 20, 50, 5, 11, &mut rng);
    assert!(matches!(r, Err(Error::StepOverflow)));
}

#[test]
fn test_animate_all_frames() {
    let seq = AnimationSequence {
        ifs_vec: vec![one_affine_ifs(20), one_affine_ifs(21), one_affine_ifs(22)],
        step_counts: vec![2, 3],
    };
    let mut rng = rng_from_seed(7);
    let movie = seq.animate(16, 16, 20, 4, &mut rng).unwrap();
    assert_eq!(movie.len(), 5);
    for frame in movie.iter() {
        assert_eq!(frame.width, 16);
        assert_eq!(frame.height, 16);
        assert_eq!(frame.data.len(), 16 * 16 * 3);
    }
}

#[test]
fn test_animate_shape_mismatch() {
    let mut rng = rng_from_seed(30);
    let mut other = IFS::new();
    other.add_transform(Transform::LinearTransform(
        barnsley::transform::LinearTransform::random(&mut rng),
    ));
    let seq = AnimationSequence {
        ifs_vec: vec![one_affine_ifs(31), other],
        step_counts: vec![5],
    };
    let r = seq.animate(8, 8, 10, 2, &mut rng);
    assert!(matches!(r, Err(Error::InvalidShape)));
    let single = seq.animate_single_step(8, 8, 10, 2, 3, &mut rng);
    assert!(matches!(single, Err(Error::InvalidShape)));
}
