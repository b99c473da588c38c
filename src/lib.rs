//! Discrete core of a Monte Carlo localizer: the per-tick history records,
//! the paired-draw buffer of the Gaussian sampler, the one-tick control delay
//! of the estimator, the index walk of systematic resampling, and the
//! stuck/escape state machine of the motion model.

pub mod history;
pub mod paired;
pub mod resample;
pub mod stuck;
