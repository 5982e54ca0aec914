use vstd::prelude::*;

verus! {

/// The ways in which fitting or predicting can fail.
#[derive(Clone, Copy, Debug, PartialEq, Eq, Structural)]
pub enum KMeansError {
    /// The number of clusters is zero, or exceeds the number of observations.
    InvalidConfiguration,
    /// A row of distances does not have one entry per centroid.
    ShapeMismatch,
    /// There is no centroid to assign observations to.
    EmptyCentroidSet,
}

} // verus!
