//! Bounded, isolated, auditable model correction: the model registry and
//! its lifecycle rules, and the gates a correction must pass. Model outputs
//! themselves (deltas and confidences) are computed outside this crate.

pub mod registry;
