//! Ground-track sampling for satellites described by two-line elements.
//!
//! The crate holds the decisions of an update-to-samples pipeline: which
//! cadence an orbit is sampled at, how one update is driven through
//! propagation, how samples are handed to an ordered store, and how many
//! sessions may run at once. Angles are held in microdegrees, altitudes in
//! metres and instants in whole seconds plus nanoseconds, so that every rule
//! is stated over integers.

pub mod tle;
pub mod elements;
pub mod policy;
pub mod orbit;
pub mod clock;
pub mod propagation;
pub mod sink;
pub mod dispatch;
