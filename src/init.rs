//! Initialisation: the rows of the observation matrix that seed the centroids.
use vstd::prelude::*;
use vstd::set_lib::{lemma_int_range, lemma_subset_equality, set_int_range};

use crate::error::KMeansError;
use ndarray_rand::rand::rngs::StdRng;

verus! {

#[verifier::external_type_specification]
#[verifier::external_body]
pub struct ExStdRng(StdRng);

/// Relies on rand::seq::index::sample (with IndexVec::into_vec): exactly
/// `amount` distinct indices from `0..length`, in random order. It panics
/// only when `amount > length`.
#[verifier::external_body]
fn sample_indices(rng: &mut StdRng, length: usize, amount: usize) -> (r: Vec<usize>)
    requires
        amount <= length,
    ensures
        r@.len() == amount,
        r@.no_duplicates(),
        forall|i: int| 0 <= i < r@.len() ==> #[trigger] r@[i] < length,
{
    ndarray_rand::rand::seq::index::sample(rng, length, amount).into_vec()
}

/// A configuration can be fitted on `n_observations` rows when it asks for at
/// least one cluster and for no more clusters than there are rows.
pub open spec fn valid_configuration(n_clusters: usize, n_observations: usize) -> bool {
    1 <= n_clusters <= n_observations
}

/// Draws, uniformly and without replacement, the `n_clusters` rows of an
/// observation matrix with `n_observations` rows whose values become the
/// initial centroids. Fails, before drawing anything, when the configuration
/// cannot be fitted.
pub fn initial_centroid_indices(n_clusters: usize, n_observations: usize, rng: &mut StdRng) -> (r:
    Result<Vec<usize>, KMeansError>)
    ensures
        !valid_configuration(n_clusters, n_observations) ==> r == Err::<Vec<usize>, KMeansError>(
            KMeansError::InvalidConfiguration,
        ),
        valid_configuration(n_clusters, n_observations) ==> r is Ok,
        r matches Ok(v) ==> {
            &&& v@.len() == n_clusters
            &&& v@.no_duplicates()
            &&& forall|i: int| 0 <= i < v@.len() ==> #[trigger] v@[i] < n_observations
        },
{
    if n_clusters == 0 || n_clusters > n_observations {
        return Err(KMeansError::InvalidConfiguration);
    }
    Ok(sample_indices(rng, n_observations, n_clusters))
}

/// Drawing as many rows as there are draws every row: each observation then
/// seeds one centroid of its own.
pub proof fn lemma_all_rows_drawn(v: Seq<usize>, n_observations: usize)
    requires
        v.len() == n_observations,
        v.no_duplicates(),
        forall|i: int| 0 <= i < v.len() ==> #[trigger] v[i] < n_observations,
    ensures
        forall|row: usize| row < n_observations ==> v.contains(row),
{
    broadcast use vstd::seq_lib::seq_to_set_is_finite;

    let f = |x: usize| x as int;
    let w = v.map_values(f);
    v.lemma_no_duplicates_injective(f);
    w.unique_seq_to_set();
    let ws = w.to_set();
    let full = set_int_range(0, n_observations as int);
    lemma_int_range(0, n_observations as int);
    assert(ws.subset_of(full)) by {
        assert forall|x: int| ws.contains(x) implies full.contains(x) by {
            let k = choose|k: int| 0 <= k < w.len() && w[k] == x;
            assert(v[k] < n_observations);
        }
    }
    lemma_subset_equality(ws, full);
    assert forall|row: usize| row < n_observations implies v.contains(row) by {
        assert(full.contains(row as int));
        assert(ws.contains(row as int));
        let k = choose|k: int| 0 <= k < w.len() && w[k] == row as int;
        assert(v[k] == row);
    }
}

} // verus!
