//! The assignment step: each observation goes to its nearest centroid.
use vstd::prelude::*;

use crate::error::KMeansError;

verus! {

/// `i` is the first index at which `d` takes its least value: no entry is
/// smaller than `d[i]`, and every entry before `i` is strictly larger.
pub open spec fn is_first_minimum(d: Seq<u64>, i: int) -> bool {
    &&& 0 <= i < d.len()
    &&& forall|j: int| 0 <= j < d.len() ==> d[i] <= #[trigger] d[j]
    &&& forall|j: int| 0 <= j < i ==> d[i] < #[trigger] d[j]
}

/// Index of the nearest centroid, given the order keys of the squared
/// distances from one observation to each centroid. A single linear scan
/// from centroid 0; a later centroid replaces the best one only when it is
/// strictly closer, so ties go to the lower index.
pub fn closest_centroid(distances: &Vec<u64>) -> (r: usize)
    requires
        distances@.len() > 0,
    ensures
        is_first_minimum(distances@, r as int),
{
    let mut closest_index: usize = 0;
    let mut minimum_distance: u64 = distances[0];
    let mut centroid_index: usize = 1;
    while centroid_index < distances.len()
        invariant
            1 <= centroid_index <= distances@.len(),
            closest_index < centroid_index,
            minimum_distance == distances@[closest_index as int],
            forall|j: int| 0 <= j < centroid_index ==> minimum_distance <= #[trigger] distances@[j],
            forall|j: int| 0 <= j < closest_index ==> minimum_distance < #[trigger] distances@[j],
        decreases distances@.len() - centroid_index,
    {
        let distance = distances[centroid_index];
        if distance < minimum_distance {
            closest_index = centroid_index;
            minimum_distance = distance;
        }
        centroid_index = centroid_index + 1;
    }
    closest_index
}

/// An observation has one nearest centroid: the first minimum is unique, so
/// the assignment step is a function of the distances.
pub proof fn lemma_first_minimum_unique(d: Seq<u64>, a: int, b: int)
    requires
        is_first_minimum(d, a),
        is_first_minimum(d, b),
    ensures
        a == b,
{
    if a < b {
        assert(d[b] < d[a]);
    } else if b < a {
        assert(d[a] < d[b]);
    }
}

/// Every row has one entry per centroid.
pub open spec fn rows_have_len(distances: Seq<Vec<u64>>, n_clusters: nat) -> bool {
    forall|i: int| 0 <= i < distances.len() ==> (#[trigger] distances[i])@.len() == n_clusters
}

/// The membership vector of an assignment step: entry `i` is the nearest
/// centroid of observation `i`.
pub open spec fn is_membership(distances: Seq<Vec<u64>>, m: Seq<usize>) -> bool {
    &&& m.len() == distances.len()
    &&& forall|i: int| 0 <= i < m.len() ==> is_first_minimum(distances[i]@, #[trigger] m[i] as int)
}

/// The assignment step, and prediction: row `i` of `distances` holds the
/// order keys of the squared distances from observation `i` to each of the
/// `n_clusters` centroids. Fails when there is no centroid, or when a row
/// does not have one entry per centroid.
pub fn compute_cluster_memberships(n_clusters: usize, distances: &Vec<Vec<u64>>) -> (r: Result<
    Vec<usize>,
    KMeansError,
>)
    ensures
        n_clusters == 0 ==> r == Err::<Vec<usize>, KMeansError>(KMeansError::EmptyCentroidSet),
        n_clusters > 0 && !rows_have_len(distances@, n_clusters as nat) ==> r == Err::<
            Vec<usize>,
            KMeansError,
        >(KMeansError::ShapeMismatch),
        n_clusters > 0 && rows_have_len(distances@, n_clusters as nat) ==> r is Ok,
        r matches Ok(m) ==> is_membership(distances@, m@),
        r matches Ok(m) ==> forall|i: int| 0 <= i < m@.len() ==> #[trigger] m@[i] < n_clusters,
{
    if n_clusters == 0 {
        return Err(KMeansError::EmptyCentroidSet);
    }
    let mut i: usize = 0;
    while i < distances.len()
        invariant
            i <= distances@.len(),
            n_clusters > 0,
            forall|j: int| 0 <= j < i ==> (#[trigger] distances@[j])@.len() == n_clusters,
        decreases distances@.len() - i,
    {
        if distances[i].len() != n_clusters {
            return Err(KMeansError::ShapeMismatch);
        }
        i = i + 1;
    }
    let mut memberships: Vec<usize> = Vec::new();
    let mut i: usize = 0;
    while i < distances.len()
        invariant
            i <= distances@.len(),
            n_clusters > 0,
            rows_have_len(distances@, n_clusters as nat),
            memberships@.len() == i,
            forall|j: int|
                0 <= j < i ==> is_first_minimum(distances@[j]@, #[trigger] memberships@[j] as int),
        decreases distances@.len() - i,
    {
        let c = closest_centroid(&distances[i]);
        memberships.push(c);
        i = i + 1;
    }
    proof {
        assert forall|j: int| 0 <= j < memberships@.len() implies #[trigger] memberships@[j]
            < n_clusters by {
            assert(is_first_minimum(distances@[j]@, memberships@[j] as int));
        }
    }
    Ok(memberships)
}

/// The assignment step of the fit loop, in place: overwrites `memberships`
/// with the nearest centroid of each observation, given rows of order keys
/// with one entry per centroid.
pub fn update_cluster_memberships(
    n_clusters: usize,
    distances: &Vec<Vec<u64>>,
    memberships: &mut Vec<usize>,
)
    requires
        n_clusters > 0,
        rows_have_len(distances@, n_clusters as nat),
        old(memberships)@.len() == distances@.len(),
    ensures
        is_membership(distances@, final(memberships)@),
        forall|i: int|
            0 <= i < final(memberships)@.len() ==> #[trigger] final(memberships)@[i] < n_clusters,
{
    let mut i: usize = 0;
    while i < distances.len()
        invariant
            i <= distances@.len(),
            n_clusters > 0,
            rows_have_len(distances@, n_clusters as nat),
            memberships@.len() == distances@.len(),
            forall|j: int|
                0 <= j < i ==> is_first_minimum(distances@[j]@, #[trigger] memberships@[j] as int),
        decreases distances@.len() - i,
    {
        let c = closest_centroid(&distances[i]);
        memberships.set(i, c);
        i = i + 1;
    }
    proof {
        assert forall|j: int| 0 <= j < memberships@.len() implies #[trigger] memberships@[j]
            < n_clusters by {
            assert(is_first_minimum(distances@[j]@, memberships@[j] as int));
        }
    }
}

} // verus!
