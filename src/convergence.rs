//! The fit loop's stop rule.
//!
//! Each pass of the fit loop runs one assignment step and one update step,
//! then compares the centroid matrix before and after the pass. The loop
//! stops as soon as that squared distance is below the tolerance, or the
//! number of completed passes exceeds the iteration budget. A budget of 0
//! therefore still allows exactly one pass.
use vstd::prelude::*;

verus! {

/// The stop decision after a pass: `distance` and `tolerance` are order keys
/// of non-negative doubles, `completed` counts the passes run so far, this
/// one included.
pub fn has_converged(distance: u64, tolerance: u64, completed: u128, max_n_iterations: u64) -> (r:
    bool)
    ensures
        r == (distance < tolerance || completed > max_n_iterations),
{
    distance < tolerance || completed > max_n_iterations as u128
}

/// The state of a running fit loop.
pub struct FitLoop {
    /// Order key of the tolerance on the squared distance between passes.
    pub tolerance: u64,
    /// The iteration budget.
    pub max_n_iterations: u64,
    /// The passes completed so far.
    pub n_iterations: u128,
    /// Order key of the squared distance measured after the latest pass.
    pub last_distance: u64,
    /// Whether the loop has stopped.
    pub finished: bool,
}

impl FitLoop {
    /// A running loop has stayed within its budget; a stopped one has run at
    /// least one pass, at most one past its budget, and stopped for one of
    /// the two reasons of the stop rule.
    pub open spec fn wf(self) -> bool {
        &&& !self.finished ==> self.n_iterations <= self.max_n_iterations
        &&& self.finished ==> {
            &&& 1 <= self.n_iterations <= self.max_n_iterations + 1
            &&& (self.last_distance < self.tolerance || self.n_iterations
                > self.max_n_iterations)
        }
    }

    /// The loop before its first pass.
    pub open spec fn fresh(tolerance: u64, max_n_iterations: u64) -> FitLoop {
        FitLoop {
            tolerance,
            max_n_iterations,
            n_iterations: 0,
            last_distance: 0,
            finished: false,
        }
    }

    /// The loop after one more pass, whose squared distance was `distance`.
    pub open spec fn after_pass(self, distance: u64) -> FitLoop {
        let n = (self.n_iterations + 1) as u128;
        FitLoop {
            tolerance: self.tolerance,
            max_n_iterations: self.max_n_iterations,
            n_iterations: n,
            last_distance: distance,
            finished: distance < self.tolerance || n > self.max_n_iterations,
        }
    }

    /// Starts a fit loop with the given tolerance (an order key) and
    /// iteration budget.
    pub fn new(tolerance: u64, max_n_iterations: u64) -> (r: FitLoop)
        ensures
            r == FitLoop::fresh(tolerance, max_n_iterations),
            r.wf(),
    {
        FitLoop { tolerance, max_n_iterations, n_iterations: 0, last_distance: 0, finished: false }
    }

    /// Records a completed pass whose centroids moved by `distance` (an order
    /// key) and returns whether the loop stops there.
    pub fn record_pass(&mut self, distance: u64) -> (stop: bool)
        requires
            old(self).wf(),
            !old(self).finished,
        ensures
            *final(self) == old(self).after_pass(distance),
            final(self).wf(),
            stop == final(self).finished,
    {
        let n = self.n_iterations + 1;
        let stop = has_converged(distance, self.tolerance, n, self.max_n_iterations);
        self.n_iterations = n;
        self.last_distance = distance;
        self.finished = stop;
        stop
    }

    /// The number of passes completed so far.
    pub fn n_iterations(&self) -> (r: u128)
        ensures
            r == self.n_iterations,
    {
        self.n_iterations
    }

    /// Whether the loop has stopped.
    pub fn is_finished(&self) -> (r: bool)
        ensures
            r == self.finished,
    {
        self.finished
    }
}

/// Once the loop has stopped, the latest pass moved the centroids by less
/// than the tolerance, or the loop ran more passes than its budget.
pub proof fn lemma_stopped_loop_converged_or_exhausted(s: FitLoop)
    requires
        s.wf(),
        s.finished,
    ensures
        s.last_distance < s.tolerance || s.n_iterations > s.max_n_iterations,
{
}

/// With an iteration budget of 0, the loop stops after exactly one pass,
/// whatever that pass measured.
pub proof fn lemma_zero_budget_runs_one_pass(tolerance: u64, distance: u64)
    ensures
        FitLoop::fresh(tolerance, 0).after_pass(distance).finished,
        FitLoop::fresh(tolerance, 0).after_pass(distance).n_iterations == 1,
{
}

/// A loop never runs more than one pass past its budget: a loop still
/// running after a pass has completed at most `max_n_iterations` passes.
pub proof fn lemma_passes_bounded_by_budget(s: FitLoop, distance: u64)
    requires
        s.wf(),
        !s.finished,
    ensures
        s.after_pass(distance).wf(),
        s.after_pass(distance).n_iterations <= s.max_n_iterations + 1,
        !s.after_pass(distance).finished ==> s.after_pass(distance).n_iterations
            <= s.max_n_iterations,
{
}

} // verus!
