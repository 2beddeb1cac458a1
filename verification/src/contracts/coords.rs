//! Coordinate frames and coordinate quality.

use vstd::prelude::*;

verus! {

/// The frame a raw observation was reported in (the ENU origin itself is
/// carried with the measurement).
#[derive(Debug, Clone, Copy, PartialEq, Eq, Structural)]
pub enum FrameKind {
    /// WGS84 geodetic (lat, lon, height above ellipsoid).
    Wgs84Geodetic,
    /// Earth-Centred, Earth-Fixed.
    Ecef,
    /// Local East-North-Up relative to a declared origin.
    Enu,
    /// Sensor-local range-bearing-elevation.
    RangeBearingElevation,
    /// Unknown frame; normalization rejects it.
    Unknown,
}

/// Coordinate-quality state qualifying normalization output.
#[derive(Debug, Clone, Copy, PartialEq, Eq, Structural)]
pub enum CoordinateQuality {
    Good,
    Degraded,
    OutOfDeclaredDomain,
    UnknownFrame,
}

} // verus!
