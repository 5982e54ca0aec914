use linfa_k_means::assignment::{
    closest_centroid, compute_cluster_memberships, update_cluster_memberships,
};
use linfa_k_means::convergence::{has_converged, FitLoop};
use linfa_k_means::error::KMeansError;
use linfa_k_means::init::initial_centroid_indices;
use linfa_k_means::update::fold_plan;
use ndarray_rand::rand::rngs::StdRng;
use ndarray_rand::rand::SeedableRng;

fn key(d: f64) -> u64 {
    d.to_bits()
}

#[test]
fn closest_centroid_picks_the_minimum() {
    assert_eq!(closest_centroid(&vec![key(4.0), key(1.5), key(9.0)]), 1);
    assert_eq!(closest_centroid(&vec![key(0.25)]), 0);
    assert_eq!(closest_centroid(&vec![key(3.0), key(2.0), key(0.5)]), 2);
}

#[test]
fn closest_centroid_keeps_the_lower_index_on_ties() {
    assert_eq!(closest_centroid(&vec![key(2.0), key(1.0), key(1.0)]), 1);
    assert_eq!(closest_centroid(&vec![key(0.0), key(0.0)]), 0);
}

#[test]
fn order_keys_follow_the_order_of_distances() {
    let values = [0.0, 1e-300, 0.5, 1.0, 2.0, 1e300, f64::INFINITY];
    for w in values.windows(2) {
        assert!(key(w[0]) < key(w[1]));
    }
}

#[test]
fn memberships_are_nearest_centroids() {
    let rows = vec![
        vec![key(1.0), key(0.5)],
        vec![key(0.1), key(0.5)],
        vec![key(2.0), key(2.0)],
    ];
    assert_eq!(compute_cluster_memberships(2, &rows), Ok(vec![1, 0, 0]));
}

#[test]
fn memberships_stay_within_the_cluster_range() {
    let rows: Vec<Vec<u64>> = (0..20u64)
        .map(|i| (0..3u64).map(|j| key(((i * 7 + j * 5) % 11) as f64)).collect())
        .collect();
    let m = compute_cluster_memberships(3, &rows).unwrap();
    assert_eq!(m.len(), 20);
    assert!(m.iter().all(|&c| c < 3));
}

#[test]
fn memberships_without_centroids_fail() {
    let rows: Vec<Vec<u64>> = vec![vec![], vec![]];
    assert_eq!(
        compute_cluster_memberships(0, &rows),
        Err(KMeansError::EmptyCentroidSet)
    );
}

#[test]
fn memberships_with_a_short_row_fail() {
    let rows = vec![vec![key(1.0), key(2.0)], vec![key(1.0)]];
    assert_eq!(
        compute_cluster_memberships(2, &rows),
        Err(KMeansError::ShapeMismatch)
    );
}

#[test]
fn memberships_of_no_observation_are_empty() {
    assert_eq!(compute_cluster_memberships(3, &vec![]), Ok(vec![]));
}

#[test]
fn fold_plan_groups_observations_by_cluster() {
    let plan = fold_plan(3, &vec![2, 0, 2, 2, 0]);
    assert_eq!(plan, vec![vec![1, 4], vec![], vec![0, 2, 3]]);
}

#[test]
fn fold_plan_leaves_an_empty_cluster_without_members() {
    let plan = fold_plan(2, &vec![0, 0, 0]);
    assert_eq!(plan, vec![vec![0, 1, 2], vec![]]);
}

#[test]
fn fold_plan_with_one_cluster_folds_everything_in_order() {
    let plan = fold_plan(1, &vec![0; 6]);
    assert_eq!(plan, vec![vec![0, 1, 2, 3, 4, 5]]);
}

#[test]
fn too_many_clusters_is_an_invalid_configuration() {
    let mut rng = StdRng::seed_from_u64(42);
    assert_eq!(
        initial_centroid_indices(5, 4, &mut rng),
        Err(KMeansError::InvalidConfiguration)
    );
}

#[test]
fn zero_clusters_is_an_invalid_configuration() {
    let mut rng = StdRng::seed_from_u64(42);
    assert_eq!(
        initial_centroid_indices(0, 4, &mut rng),
        Err(KMeansError::InvalidConfiguration)
    );
}

#[test]
fn initial_indices_are_distinct_rows() {
    let mut rng = StdRng::seed_from_u64(7);
    let v = initial_centroid_indices(10, 1000, &mut rng).unwrap();
    assert_eq!(v.len(), 10);
    assert!(v.iter().all(|&i| i < 1000));
    let mut s = v.clone();
    s.sort();
    s.dedup();
    assert_eq!(s.len(), 10);
}

#[test]
fn as_many_clusters_as_rows_draws_every_row() {
    let mut rng = StdRng::seed_from_u64(3);
    let mut v = initial_centroid_indices(6, 6, &mut rng).unwrap();
    v.sort();
    assert_eq!(v, vec![0, 1, 2, 3, 4, 5]);
}

#[test]
fn same_seed_draws_the_same_rows() {
    let mut a = StdRng::seed_from_u64(42);
    let mut b = StdRng::seed_from_u64(42);
    assert_eq!(
        initial_centroid_indices(4, 50, &mut a),
        initial_centroid_indices(4, 50, &mut b)
    );
}

#[test]
fn stop_rule_values() {
    assert!(has_converged(key(0.001), key(0.01), 1, 300));
    assert!(!has_converged(key(0.01), key(0.01), 1, 300));
    assert!(has_converged(key(5.0), key(0.01), 301, 300));
    assert!(!has_converged(key(5.0), key(0.01), 300, 300));
}

#[test]
fn zero_budget_runs_exactly_one_pass() {
    let mut l = FitLoop::new(key(1e-4), 0);
    assert!(!l.is_finished());
    assert!(l.record_pass(key(50.0)));
    assert_eq!(l.n_iterations(), 1);
    assert!(l.is_finished());
}

#[test]
fn loop_stops_below_tolerance() {
    let mut l = FitLoop::new(key(1e-2), 300);
    assert!(!l.record_pass(key(4.0)));
    assert!(!l.record_pass(key(0.5)));
    assert!(l.record_pass(key(1e-3)));
    assert_eq!(l.n_iterations(), 3);
    assert!(l.last_distance < l.tolerance);
}

#[test]
fn loop_stops_one_pass_past_its_budget() {
    let mut l = FitLoop::new(key(0.0), 2);
    assert!(!l.record_pass(key(1.0)));
    assert!(!l.record_pass(key(1.0)));
    assert!(l.record_pass(key(1.0)));
    assert_eq!(l.n_iterations(), 3);
}

#[test]
fn memberships_are_overwritten_in_place() {
    let rows = vec![
        vec![key(3.0), key(1.0), key(2.0)],
        vec![key(0.0), key(1.0), key(0.0)],
    ];
    let mut m = vec![0, 2];
    update_cluster_memberships(3, &rows, &mut m);
    assert_eq!(m, vec![1, 0]);
}
