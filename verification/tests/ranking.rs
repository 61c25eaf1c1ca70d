use mod_raycast::primitives::{Intersection, Ray3d, Vec3};
use mod_raycast::ranking::{sort_by_distance, Pick};
use mod_raycast::scalar::Scalar;

fn s(x: f32) -> Scalar {
    Scalar::from_bits(x.to_bits())
}

fn pick(entity: u64, distance: f32) -> Pick {
    let at = Vec3::new(s(distance), s(0.0), s(0.0));
    let normal = Vec3::new(s(-1.0), s(0.0), s(0.0));
    (entity, Intersection::new(Ray3d::new(at, normal), s(distance), None))
}

fn entities(picks: &[Pick]) -> Vec<u64> {
    picks.iter().map(|p| p.0).collect()
}

fn distances(picks: &[Pick]) -> Vec<u32> {
    picks.iter().map(|p| p.1.distance().to_bits()).collect()
}

#[test]
fn nearer_target_comes_first() {
    let ranked = sort_by_distance(vec![pick(1, 5.0), pick(2, 3.0)]);
    assert_eq!(ranked, vec![pick(2, 3.0), pick(1, 5.0)]);
}

#[test]
fn sorted_input_is_left_alone() {
    let input = vec![pick(1, 0.5), pick(2, 3.0), pick(3, 5.0)];
    assert_eq!(sort_by_distance(input.clone()), input);
}

#[test]
fn empty_and_single_lists() {
    assert_eq!(sort_by_distance(Vec::new()), Vec::<Pick>::new());
    assert_eq!(sort_by_distance(vec![pick(9, 2.0)]), vec![pick(9, 2.0)]);
}

#[test]
fn distances_never_decrease() {
    let ranked = sort_by_distance(vec![
        pick(1, 7.0),
        pick(2, 0.25),
        pick(3, 1.0e9),
        pick(4, 3.0),
        pick(5, 0.0),
        pick(6, 3.5),
        pick(7, -2.0),
    ]);
    assert_eq!(entities(&ranked), vec![7, 5, 2, 4, 6, 1, 3]);
    for pair in ranked.windows(2) {
        let a = f32::from_bits(pair[0].1.distance().to_bits());
        let b = f32::from_bits(pair[1].1.distance().to_bits());
        assert!(a <= b);
    }
}

#[test]
fn equal_distances_keep_their_order() {
    let ranked = sort_by_distance(vec![
        pick(1, 3.0),
        pick(2, 1.0),
        pick(3, 3.0),
        pick(4, 1.0),
        pick(5, 3.0),
    ]);
    assert_eq!(entities(&ranked), vec![2, 4, 1, 3, 5]);
}

#[test]
fn both_zeros_count_as_equal() {
    let ranked = sort_by_distance(vec![pick(1, 0.0), pick(2, -0.0), pick(3, 0.0)]);
    assert_eq!(entities(&ranked), vec![1, 2, 3]);
}

#[test]
fn nan_distances_stay_where_they_are() {
    let ranked = sort_by_distance(vec![pick(1, 2.0), pick(2, f32::NAN), pick(3, 1.0)]);
    assert_eq!(entities(&ranked), vec![1, 2, 3]);
    let ranked = sort_by_distance(vec![pick(1, 2.0), pick(2, 1.0), pick(3, f32::NAN)]);
    assert_eq!(entities(&ranked), vec![2, 1, 3]);
    let ranked = sort_by_distance(vec![pick(1, f32::NAN), pick(2, 2.0), pick(3, 1.0)]);
    assert_eq!(entities(&ranked), vec![1, 3, 2]);
}

#[test]
fn input_order_does_not_change_the_distances() {
    let a = vec![pick(1, 5.0), pick(2, 3.0), pick(3, 4.0), pick(4, 3.0)];
    let b = vec![pick(4, 3.0), pick(3, 4.0), pick(2, 3.0), pick(1, 5.0)];
    let ranked_a = sort_by_distance(a);
    let ranked_b = sort_by_distance(b);
    assert_eq!(distances(&ranked_a), distances(&ranked_b));
    assert_eq!(entities(&ranked_a), vec![2, 4, 3, 1]);
    assert_eq!(entities(&ranked_b), vec![4, 2, 3, 1]);
    let mut members_a = entities(&ranked_a);
    let mut members_b = entities(&ranked_b);
    members_a.sort();
    members_b.sort();
    assert_eq!(members_a, members_b);
}

#[test]
fn ranking_keeps_every_pick() {
    let input = vec![pick(1, 9.0), pick(1, 9.0), pick(2, 1.0), pick(3, 4.0)];
    let ranked = sort_by_distance(input.clone());
    assert_eq!(ranked.len(), input.len());
    for p in &input {
        let before = input.iter().filter(|q| *q == p).count();
        let after = ranked.iter().filter(|q| *q == p).count();
        assert_eq!(before, after);
    }
}
