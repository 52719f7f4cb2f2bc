use evosim::reproduction::{child_generation, pair_parents};

fn distances(points: &[(i64, i64)]) -> Vec<Vec<u32>> {
    points
        .iter()
        .map(|a| points.iter().map(|b| ((a.0 - b.0).pow(2) + (a.1 - b.1).pow(2)) as u32).collect())
        .collect()
}

#[test]
fn pairs_each_with_nearest_free_partner() {
    let points = [(0, 0), (10, 0), (1, 0), (11, 0)];
    let eligible = vec![true; 4];
    assert_eq!(pair_parents(&eligible, &distances(&points)), vec![(0, 2), (1, 3)]);
}

#[test]
fn skips_creatures_without_energy() {
    let points = [(0, 0), (1, 0), (5, 0), (6, 0)];
    let eligible = vec![true, false, true, false];
    assert_eq!(pair_parents(&eligible, &distances(&points)), vec![(0, 2)]);
}

#[test]
fn odd_creature_out_does_not_reproduce() {
    let points = [(0, 0), (3, 0), (1, 0)];
    let eligible = vec![true, true, true];
    assert_eq!(pair_parents(&eligible, &distances(&points)), vec![(0, 2)]);
}

#[test]
fn equally_near_partners_go_by_world_order() {
    let points = [(5, 0), (0, 0), (10, 0)];
    let eligible = vec![true, true, true];
    assert_eq!(pair_parents(&eligible, &distances(&points)), vec![(0, 1)]);
}

#[test]
fn no_pairs_without_two_candidates() {
    assert_eq!(pair_parents(&vec![], &vec![]), vec![]);
    assert_eq!(pair_parents(&vec![true], &vec![vec![0]]), vec![]);
    assert_eq!(pair_parents(&vec![false, false], &vec![vec![0, 1], vec![1, 0]]), vec![]);
}

#[test]
fn already_paired_creatures_are_not_taken_again() {
    // 1 is nearest to both 0 and 2, but 0 takes it first.
    let points = [(0, 0), (1, 0), (2, 0), (9, 0)];
    let eligible = vec![true; 4];
    assert_eq!(pair_parents(&eligible, &distances(&points)), vec![(0, 1), (2, 3)]);
}

#[test]
fn child_generation_is_one_past_the_later_parent() {
    assert_eq!(child_generation(0, 0), 1);
    assert_eq!(child_generation(3, 7), 8);
    assert_eq!(child_generation(7, 3), 8);
}
