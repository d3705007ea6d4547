//! Selector for the notch-frequency trajectory of the parametric HRTF model.

use vstd::prelude::*;

verus! {

/// How to handle the N1/N2 notch-frequency trajectory.
#[derive(Clone, Copy, Debug)]
pub enum NotchTrajectoryMode {
    /// Median-plane trajectory calibrated against dummy-head SOFA references:
    /// P1 stays fixed while N1 rises quickly from the front toward the upper
    /// hemisphere and relaxes again toward the rear.
    SofaCalibratedMedianPlane,
    /// Fourth-order polynomial in beta with Hz-scale coefficients, giving
    /// kHz-scale notch movement over beta = 0..180 degrees.
    IidaLikePolynomialHzScale,
    /// The same polynomial with coefficients a hundred times smaller (kept for
    /// comparison; it moves the notches too little to be the default).
    UserPastedSmallScalePolynomial,
}

} // verus!
