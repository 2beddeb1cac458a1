//! Verified core of the Aeon air-object information layer.
//!
//! The crate holds the decision logic of the information layer: the
//! versioned contract types, the prohibited-concept scanner, runtime
//! configuration and lifecycle rules, the relay gateway with its signing and
//! anti-replay cache, the chained event log, the model registry, the
//! normalization rules, the bookkeeping of the track engine, the sensor
//! adapters' state machines and conformance verdicts, and the canonical
//! replay trace digest. Floating-point geometry and every kind of I/O live
//! outside it.

pub mod adapters;
pub mod contracts;
pub mod correction;
pub mod digest;
pub mod keyed;
pub mod normalization;
pub mod ordering;
pub mod text;
pub mod tracking;
pub mod persistence;
pub mod relay;
pub mod runtime;
pub mod simulation;
