//! Near-real-time pitch tracking for a monaural stream of 16-bit samples.
//!
//! The library keeps a fixed-capacity sliding window over the incoming
//! samples, decides on a fixed cadence when to re-run the estimator, and
//! estimates the fundamental frequency of the window with a McLeod-style
//! normalized autocorrelation. All arithmetic is exact: NSDF values are
//! rationals over the integer samples, and the sub-sample refinement works
//! on a fixed-point projection of those rationals, so every step is
//! verified free of overflow and division by zero.

pub mod cadence;
pub mod capability;
pub mod config;
pub mod estimator;
pub mod nsdf;
pub mod tracker;
pub mod window;
