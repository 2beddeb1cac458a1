//! Schema-version tags carried in every serialised contract.
//!
//! When a schema evolves in a compatible way, bump the minor version.
//! When it evolves in an incompatible way, bump the major version and add a
//! compatibility test.

use vstd::prelude::*;

verus! {

/// Name and version of a serialised contract.
#[derive(Debug, Clone, PartialEq, Eq)]
pub struct SchemaVersion {
    pub name: String,
    pub major: u16,
    pub minor: u16,
}

impl SchemaVersion {
    pub fn new(name: &str, major: u16, minor: u16) -> (r: SchemaVersion)
        ensures
            r.name@ == name@,
            r.major == major,
            r.minor == minor,
    {
        SchemaVersion { name: name.to_owned(), major, minor }
    }
}

/// Whether `v` is version 1.0 of the contract called `name`.
pub open spec fn is_v1_0(v: SchemaVersion, name: Seq<char>) -> bool {
    v.name@ == name && v.major == 1 && v.minor == 0
}

/// Raw observation contract, version 1.0.
pub fn observation_schema() -> (r: SchemaVersion)
    ensures is_v1_0(r, "observation"@),
{
    SchemaVersion::new("observation", 1, 0)
}

/// Normalized observation contract, version 1.0.
pub fn normalized_schema() -> (r: SchemaVersion)
    ensures is_v1_0(r, "normalized"@),
{
    SchemaVersion::new("normalized", 1, 0)
}

/// Track contract, version 1.0.
pub fn track_schema() -> (r: SchemaVersion)
    ensures is_v1_0(r, "track"@),
{
    SchemaVersion::new("track", 1, 0)
}

/// Track update contract, version 1.0.
pub fn track_update_schema() -> (r: SchemaVersion)
    ensures is_v1_0(r, "track_update"@),
{
    SchemaVersion::new("track_update", 1, 0)
}

/// System health contract, version 1.0.
pub fn health_schema() -> (r: SchemaVersion)
    ensures is_v1_0(r, "health"@),
{
    SchemaVersion::new("health", 1, 0)
}

/// Operator alert contract, version 1.0.
pub fn alert_schema() -> (r: SchemaVersion)
    ensures is_v1_0(r, "alert"@),
{
    SchemaVersion::new("alert", 1, 0)
}

/// Relay envelope contract, version 1.0.
pub fn relay_schema() -> (r: SchemaVersion)
    ensures is_v1_0(r, "relay_envelope"@),
{
    SchemaVersion::new("relay_envelope", 1, 0)
}

/// Audit event contract, version 1.0.
pub fn audit_schema() -> (r: SchemaVersion)
    ensures is_v1_0(r, "audit"@),
{
    SchemaVersion::new("audit", 1, 0)
}

} // verus!
