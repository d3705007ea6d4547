//! Verified core of a parametric-HRTF binaural spatialiser.
//!
//! The signal path itself (filters, gains, delays) computes in floating point
//! and lives outside this crate's verified part; what stands here is the exact,
//! integer and text logic around it: the deterministic noise source, the delay
//! line's ring indexing, the notch-trajectory selector, the plugin's parameter
//! table and the bundle manifest rewrite.

pub mod delay;
pub mod manifest;
pub mod noise;
pub mod params;
pub mod phrtf;

pub use noise::XorShift32;
pub use params::{param, params, ParamSpec};
pub use phrtf::NotchTrajectoryMode;
