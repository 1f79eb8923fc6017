//! A swarmalator ensemble: agents carrying a planar position and a scalar
//! phase, advanced one explicit-Euler step at a time under pairwise spatial
//! and phase coupling. Scalars are IEEE-754 doubles carried as `u64` bit
//! patterns; the step's combination rules are verified exactly over named
//! scalar operations.

pub mod bits;
pub mod engine;
pub mod laws;
pub mod scalar;

pub use engine::Field;
pub use engine::SwarmError;
pub use engine::Swarmalator;
