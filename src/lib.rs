//! Lloyd's algorithm (standard K-means), verified core.
//!
//! The floating-point work of K-means (squared distances, running means)
//! happens outside this library. What the core decides is kept here, over
//! plain integers:
//! - squared distances reach the core as order keys: the bit patterns of
//!   non-negative IEEE-754 doubles order exactly as the values do, so a
//!   distance is handed over as `d.to_bits()`;
//! - the assignment step is a first-minimum search over those keys;
//! - the update step is driven by a fold plan that lists, for each cluster,
//!   the observations folded into its running mean, in fold order;
//! - initialisation checks the configuration and draws distinct row indices;
//! - the fit loop's stop rule is a small state machine.
pub mod assignment;
pub mod convergence;
pub mod error;
pub mod init;
pub mod update;
