//! The update step's plan: which observations are folded, in which order,
//! into the running mean of each cluster.
//!
//! Each cluster keeps a running mean and a count. The first observation of a
//! cluster seeds its mean with count 1; each later one raises the count by
//! one and moves the mean toward it by `(observation - mean) / count`. A
//! cluster that no observation is assigned to gets no running mean, and its
//! row of the new centroid matrix keeps the fill value, the origin.
use vstd::prelude::*;

use crate::assignment::{is_first_minimum, is_membership, lemma_first_minimum_unique};

verus! {

/// The indices `i` with `m[i] == c`, in increasing order: the observations
/// folded into the running mean of cluster `c`, in fold order.
pub open spec fn members_of(m: Seq<usize>, c: usize) -> Seq<usize>
    decreases m.len(),
{
    if m.len() == 0 {
        Seq::empty()
    } else {
        let rest = members_of(m.drop_last(), c);
        if m.last() == c {
            rest.push((m.len() - 1) as usize)
        } else {
            rest
        }
    }
}

/// `plan` has one row per cluster, and row `c` lists the members of `c`.
pub open spec fn is_fold_plan(m: Seq<usize>, n_clusters: nat, plan: Seq<Vec<usize>>) -> bool {
    &&& plan.len() == n_clusters
    &&& forall|c: int| 0 <= c < n_clusters ==> (#[trigger] plan[c])@ == members_of(m, c as usize)
}

proof fn lemma_members_of_extend(m: Seq<usize>, i: int, c: usize)
    requires
        0 <= i < m.len(),
    ensures
        members_of(m.subrange(0, i + 1), c) == if m[i] == c {
            members_of(m.subrange(0, i), c).push(i as usize)
        } else {
            members_of(m.subrange(0, i), c)
        },
{
    assert(m.subrange(0, i + 1).drop_last() =~= m.subrange(0, i));
}

/// Lists, for each of the `n_clusters` clusters, the observations assigned to
/// it by `memberships`, in increasing order. The row of a cluster with no
/// observation is empty.
pub fn fold_plan(n_clusters: usize, memberships: &Vec<usize>) -> (plan: Vec<Vec<usize>>)
    ensures
        is_fold_plan(memberships@, n_clusters as nat, plan@),
{
    let mut plan: Vec<Vec<usize>> = Vec::new();
    let mut c: usize = 0;
    while c < n_clusters
        invariant
            c <= n_clusters,
            plan@.len() == c,
            forall|k: int| 0 <= k < c ==> (#[trigger] plan@[k])@ == members_of(memberships@, k as usize),
        decreases n_clusters - c,
    {
        let mut row: Vec<usize> = Vec::new();
        let mut i: usize = 0;
        while i < memberships.len()
            invariant
                i <= memberships@.len(),
                row@ == members_of(memberships@.subrange(0, i as int), c),
            decreases memberships@.len() - i,
        {
            proof {
                lemma_members_of_extend(memberships@, i as int, c);
            }
            if memberships[i] == c {
                row.push(i);
            }
            i = i + 1;
        }
        assert(memberships@.subrange(0, memberships@.len() as int) =~= memberships@);
        plan.push(row);
        c = c + 1;
    }
    plan
}

/// Every observation is folded into the running mean of the cluster it is
/// assigned to, and of no other cluster.
pub proof fn lemma_members_of_contains(m: Seq<usize>, c: usize, i: int)
    requires
        0 <= i < m.len(),
        m.len() <= usize::MAX,
    ensures
        members_of(m, c).contains(i as usize) <==> m[i] == c,
    decreases m.len(),
{
    lemma_members_of_below(m, c);
    let rest = members_of(m.drop_last(), c);
    if i < m.len() - 1 {
        lemma_members_of_contains(m.drop_last(), c, i);
        if m.last() == c {
            assert(members_of(m, c) == rest.push((m.len() - 1) as usize));
            if rest.contains(i as usize) {
                let k = choose|k: int| 0 <= k < rest.len() && rest[k] == i as usize;
                assert(members_of(m, c)[k] == i as usize);
            }
            if members_of(m, c).contains(i as usize) {
                let k = choose|k: int|
                    0 <= k < members_of(m, c).len() && members_of(m, c)[k] == i as usize;
                if k == rest.len() {
                    assert(i as usize == (m.len() - 1) as usize);
                } else {
                    assert(rest[k] == i as usize);
                }
            }
        }
    } else {
        lemma_members_of_below(m.drop_last(), c);
        if m.last() == c {
            assert(members_of(m, c)[rest.len() as int] == i as usize);
        } else {
            if rest.contains(i as usize) {
                let k = choose|k: int| 0 <= k < rest.len() && rest[k] == i as usize;
                assert(rest[k] < m.len() - 1);
            }
        }
    }
}

/// After an assignment step, an observation is folded into the running mean
/// of a cluster exactly when that cluster holds its nearest centroid.
pub proof fn lemma_folded_into_nearest(distances: Seq<Vec<u64>>, m: Seq<usize>, c: usize, i: int)
    requires
        is_membership(distances, m),
        m.len() <= usize::MAX,
        0 <= i < m.len(),
    ensures
        members_of(m, c).contains(i as usize) <==> is_first_minimum(distances[i]@, c as int),
{
    lemma_members_of_contains(m, c, i);
    assert(is_first_minimum(distances[i]@, m[i] as int));
    if is_first_minimum(distances[i]@, c as int) {
        lemma_first_minimum_unique(distances[i]@, c as int, m[i] as int);
    }
}

/// Every index listed for a cluster is an index of an observation.
proof fn lemma_members_of_below(m: Seq<usize>, c: usize)
    requires
        m.len() <= usize::MAX,
    ensures
        forall|k: int|
            0 <= k < members_of(m, c).len() ==> (#[trigger] members_of(m, c)[k] as int) < m.len(),
        members_of(m, c).len() <= m.len(),
    decreases m.len(),
{
    if m.len() > 0 {
        lemma_members_of_below(m.drop_last(), c);
    }
}

/// With a single cluster, every observation is folded into its running mean,
/// in order: the new centroid is the mean of all observations.
pub proof fn lemma_single_cluster_folds_all(m: Seq<usize>)
    requires
        m.len() <= usize::MAX,
        forall|i: int| 0 <= i < m.len() ==> #[trigger] m[i] < 1,
    ensures
        members_of(m, 0) == Seq::new(m.len(), |i: int| i as usize),
    decreases m.len(),
{
    if m.len() > 0 {
        let p = m.drop_last();
        assert forall|i: int| 0 <= i < p.len() implies #[trigger] p[i] < 1 by {
            assert(p[i] == m[i]);
        }
        lemma_single_cluster_folds_all(p);
        assert(m.last() == 0);
        assert(members_of(m, 0) =~= Seq::new(m.len(), |i: int| i as usize));
    }
}

} // verus!
