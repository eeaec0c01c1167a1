//! An online blind-source-separation engine.
//!
//! The engine demixes a fixed number of superimposed audio channels with a
//! square demixing matrix that is adapted per block by a natural-gradient
//! update rule, trained over a bounded history window of recent sample
//! vectors.  All numerical state is kept in signed 64-bit fixed-point
//! (`fixed::SCALE` units per 1.0), so every arithmetic step is exact and
//! deterministic and the whole update rule can be verified.

pub mod engine;
pub mod fixed;
pub mod linalg;
pub mod score;
pub mod window;

pub use engine::{EngineError, Separator, GAIN, MAX_CHANNELS, MIN_CHANNELS};
pub use fixed::SCALE;
pub use score::Density;
