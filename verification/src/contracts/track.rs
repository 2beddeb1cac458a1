//! Track state enumerations.

use vstd::prelude::*;

verus! {

#[derive(Debug, Clone, Copy, PartialEq, Eq, Structural)]
pub enum TrackStatus {
    Tentative,
    Active,
    Coasting,
    Stale,
    Retired,
}

#[derive(Debug, Clone, Copy, PartialEq, Eq, Structural)]
pub enum ConflictState {
    /// No conflict.
    NoConflict,
    ClassificationConflict,
    PositionConflict,
    MultipleConflicts,
}

#[derive(Debug, Clone, Copy, PartialEq, Eq, Structural)]
pub enum FreshnessState {
    Fresh,
    Aging,
    Stale,
}

#[derive(Debug, Clone, Copy, PartialEq, Eq, Structural)]
pub enum CorrelationRationale {
    NewTrack,
    AssociatedByGate,
    AssociatedByClassification,
    ManualOperatorAssociation,
    NoAssociation,
}

} // verus!
