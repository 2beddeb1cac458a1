//! Newtyped identifiers. UUID-based identifiers hold the UUID as its 128-bit
//! big-endian value; source, sensor, adapter, destination and actor
//! identifiers are opaque strings.

use vstd::prelude::*;
use crate::digest::{be_bytes, hex_encode, hex_lower};
use crate::text::{chars_of, string_from_chars};

verus! {

/// Whether a 128-bit value is a version-4 UUID of the RFC 4122 variant:
/// its version nibble (bits 79..76) is 4 and its variant bits (63..62) are
/// `10`.
pub open spec fn is_uuid_v4(x: u128) -> bool {
    x & 0xF000C000000000000000u128 == 0x40008000000000000000u128
}

/// A fresh random (version 4) UUID, as its 128-bit value.
///
/// Trusted: calls `uuid::Uuid::new_v4` and `Uuid::as_u128`. `new_v4` masks
/// a random value with `0xFFFFFFFFFFFF4FFFBFFFFFFFFFFFFFFF` and sets
/// `0x40008000000000000000`, and `as_u128` reads the bytes back big-endian,
/// so the result carries the version and variant bits; the other 122 bits
/// are random and nothing is stated of them.
#[verifier::external_body]
fn fresh_uuid() -> (r: u128)
    ensures
        is_uuid_v4(r),
{
    uuid::Uuid::new_v4().as_u128()
}

/// Hyphenated lower-case rendering of a UUID value (8-4-4-4-12 hex digits),
/// the form `uuid::Uuid` displays.
pub open spec fn uuid_text(x: u128) -> Seq<char> {
    let h = hex_lower(be_bytes(x as nat, 16));
    h.subrange(0, 8) + seq!['-'] + h.subrange(8, 12) + seq!['-'] + h.subrange(12, 16) + seq!['-']
        + h.subrange(16, 20) + seq!['-'] + h.subrange(20, 32)
}

proof fn lemma_hex_lower_len(b: Seq<u8>)
    ensures
        hex_lower(b).len() == 2 * b.len(),
    decreases b.len(),
{
    if b.len() > 0 {
        lemma_hex_lower_len(b.drop_first());
    }
}

proof fn lemma_be_bytes_len(n: nat, k: nat)
    ensures
        be_bytes(n, k).len() == k,
    decreases k,
{
    if k > 0 {
        lemma_be_bytes_len(n / 256, (k - 1) as nat);
    }
}

/// `prefix:uuid`, the display form of a UUID-based identifier.
pub open spec fn id_text(prefix: Seq<char>, x: u128) -> Seq<char> {
    prefix + seq![':'] + uuid_text(x)
}

fn render_id(prefix: &str, x: u128) -> (r: String)
    ensures
        r@ == id_text(prefix@, x),
{
    let bytes = crate::digest::u128_be(x);
    let h = hex_encode(bytes.as_slice());
    let hc = chars_of(h.as_str());
    proof {
        lemma_be_bytes_len(x as nat, 16);
        lemma_hex_lower_len(be_bytes(x as nat, 16));
    }
    let mut out = chars_of(prefix);
    out.push(':');
    let mut i: usize = 0;
    while i < 32
        invariant
            hc@ == hex_lower(be_bytes(x as nat, 16)),
            hc@.len() == 32,
            i <= 32,
            out@ == prefix@ + seq![':'] + hyphenated_prefix(hc@, i as int),
        decreases 32 - i,
    {
        if i == 8 || i == 12 || i == 16 || i == 20 {
            out.push('-');
        }
        out.push(hc[i]);
        i = i + 1;
        proof {
            reveal_with_fuel(hyphenated_prefix, 2);
        }
        assert(out@ =~= prefix@ + seq![':'] + hyphenated_prefix(hc@, i as int));
    }
    assert(hyphenated_prefix(hc@, 32) =~= uuid_text(x)) by {
        reveal_with_fuel(hyphenated_prefix, 33);
    }
    string_from_chars(out.as_slice())
}

/// The first `i` hex digits of `h` with the UUID hyphens placed among them.
spec fn hyphenated_prefix(h: Seq<char>, i: int) -> Seq<char>
    decreases i,
{
    if i <= 0 {
        seq![]
    } else {
        let sep = if i - 1 == 8 || i - 1 == 12 || i - 1 == 16 || i - 1 == 20 { seq!['-'] } else { seq![] };
        hyphenated_prefix(h, i - 1) + sep + seq![h[i - 1]]
    }
}

} // verus!

verus! {

/// Identifier of an observation: a UUID, held as its 128-bit value.
#[derive(Debug, Clone, Copy, PartialEq, Eq, Structural, Hash, PartialOrd, Ord)]
pub struct ObservationId(pub u128);

impl ObservationId {
    /// A fresh random identifier: a version-4 UUID.
    pub fn new() -> (r: Self)
        ensures
            is_uuid_v4(r.0),
    {
        ObservationId(fresh_uuid())
    }

    /// The UUID value.
    pub fn as_uuid(&self) -> (r: u128)
        ensures
            r == self.0,
    {
        self.0
    }

    /// Display form `obs:<hyphenated uuid>`.
    pub fn display(&self) -> (r: String)
        ensures
            r@ == id_text("obs"@, self.0),
    {
        render_id("obs", self.0)
    }
}

/// Identifier of a track: a UUID, held as its 128-bit value.
#[derive(Debug, Clone, Copy, PartialEq, Eq, Structural, Hash, PartialOrd, Ord)]
pub struct TrackId(pub u128);

impl TrackId {
    /// A fresh random identifier: a version-4 UUID.
    pub fn new() -> (r: Self)
        ensures
            is_uuid_v4(r.0),
    {
        TrackId(fresh_uuid())
    }

    /// The UUID value.
    pub fn as_uuid(&self) -> (r: u128)
        ensures
            r == self.0,
    {
        self.0
    }

    /// Display form `trk:<hyphenated uuid>`.
    pub fn display(&self) -> (r: String)
        ensures
            r@ == id_text("trk"@, self.0),
    {
        render_id("trk", self.0)
    }
}

/// Identifier of an operator alert: a UUID, held as its 128-bit value.
#[derive(Debug, Clone, Copy, PartialEq, Eq, Structural, Hash, PartialOrd, Ord)]
pub struct AlertId(pub u128);

impl AlertId {
    /// A fresh random identifier: a version-4 UUID.
    pub fn new() -> (r: Self)
        ensures
            is_uuid_v4(r.0),
    {
        AlertId(fresh_uuid())
    }

    /// The UUID value.
    pub fn as_uuid(&self) -> (r: u128)
        ensures
            r == self.0,
    {
        self.0
    }

    /// Display form `alt:<hyphenated uuid>`.
    pub fn display(&self) -> (r: String)
        ensures
            r@ == id_text("alt"@, self.0),
    {
        render_id("alt", self.0)
    }
}

/// Identifier of an outbound relay message: a UUID, held as its 128-bit value.
#[derive(Debug, Clone, Copy, PartialEq, Eq, Structural, Hash, PartialOrd, Ord)]
pub struct RelayMessageId(pub u128);

impl RelayMessageId {
    /// A fresh random identifier: a version-4 UUID.
    pub fn new() -> (r: Self)
        ensures
            is_uuid_v4(r.0),
    {
        RelayMessageId(fresh_uuid())
    }

    /// The UUID value.
    pub fn as_uuid(&self) -> (r: u128)
        ensures
            r == self.0,
    {
        self.0
    }

    /// Display form `rly:<hyphenated uuid>`.
    pub fn display(&self) -> (r: String)
        ensures
            r@ == id_text("rly"@, self.0),
    {
        render_id("rly", self.0)
    }
}

/// Identifier of an audit event: a UUID, held as its 128-bit value.
#[derive(Debug, Clone, Copy, PartialEq, Eq, Structural, Hash, PartialOrd, Ord)]
pub struct AuditEventId(pub u128);

impl AuditEventId {
    /// A fresh random identifier: a version-4 UUID.
    pub fn new() -> (r: Self)
        ensures
            is_uuid_v4(r.0),
    {
        AuditEventId(fresh_uuid())
    }

    /// The UUID value.
    pub fn as_uuid(&self) -> (r: u128)
        ensures
            r == self.0,
    {
        self.0
    }

    /// Display form `aud:<hyphenated uuid>`.
    pub fn display(&self) -> (r: String)
        ensures
            r@ == id_text("aud"@, self.0),
    {
        render_id("aud", self.0)
    }
}

/// Identifier of a configuration version: a UUID, held as its 128-bit value.
#[derive(Debug, Clone, Copy, PartialEq, Eq, Structural, Hash, PartialOrd, Ord)]
pub struct ConfigurationVersionId(pub u128);

impl ConfigurationVersionId {
    /// A fresh random identifier: a version-4 UUID.
    pub fn new() -> (r: Self)
        ensures
            is_uuid_v4(r.0),
    {
        ConfigurationVersionId(fresh_uuid())
    }

    /// The UUID value.
    pub fn as_uuid(&self) -> (r: u128)
        ensures
            r == self.0,
    {
        self.0
    }

    /// Display form `cfg:<hyphenated uuid>`.
    pub fn display(&self) -> (r: String)
        ensures
            r@ == id_text("cfg"@, self.0),
    {
        render_id("cfg", self.0)
    }
}

/// Identifier of a model version: a UUID, held as its 128-bit value.
#[derive(Debug, Clone, Copy, PartialEq, Eq, Structural, Hash, PartialOrd, Ord)]
pub struct ModelVersionId(pub u128);

impl ModelVersionId {
    /// A fresh random identifier: a version-4 UUID.
    pub fn new() -> (r: Self)
        ensures
            is_uuid_v4(r.0),
    {
        ModelVersionId(fresh_uuid())
    }

    /// The UUID value.
    pub fn as_uuid(&self) -> (r: u128)
        ensures
            r == self.0,
    {
        self.0
    }

    /// Display form `mdl:<hyphenated uuid>`.
    pub fn display(&self) -> (r: String)
        ensures
            r@ == id_text("mdl"@, self.0),
    {
        render_id("mdl", self.0)
    }
}

/// Identifier of a source system.
#[derive(Debug, Clone, PartialEq, Eq, Hash)]
pub struct SourceSystemId(pub String);

impl SourceSystemId {
    pub fn new(s: &str) -> (r: Self)
        ensures
            r.0@ == s@,
    {
        SourceSystemId(s.to_owned())
    }

    pub fn as_str(&self) -> (r: &str)
        ensures
            r@ == self.0@,
    {
        self.0.as_str()
    }
}

/// Identifier of a sensor.
#[derive(Debug, Clone, PartialEq, Eq, Hash)]
pub struct SensorId(pub String);

impl SensorId {
    pub fn new(s: &str) -> (r: Self)
        ensures
            r.0@ == s@,
    {
        SensorId(s.to_owned())
    }

    pub fn as_str(&self) -> (r: &str)
        ensures
            r@ == self.0@,
    {
        self.0.as_str()
    }
}

/// Identifier of a sensor adapter.
#[derive(Debug, Clone, PartialEq, Eq, Hash)]
pub struct AdapterId(pub String);

impl AdapterId {
    pub fn new(s: &str) -> (r: Self)
        ensures
            r.0@ == s@,
    {
        AdapterId(s.to_owned())
    }

    pub fn as_str(&self) -> (r: &str)
        ensures
            r@ == self.0@,
    {
        self.0.as_str()
    }
}

/// Identifier of a relay destination.
#[derive(Debug, Clone, PartialEq, Eq, Hash)]
pub struct DestinationId(pub String);

impl DestinationId {
    pub fn new(s: &str) -> (r: Self)
        ensures
            r.0@ == s@,
    {
        DestinationId(s.to_owned())
    }

    pub fn as_str(&self) -> (r: &str)
        ensures
            r@ == self.0@,
    {
        self.0.as_str()
    }
}

/// Identifier of an actor (operator or service).
#[derive(Debug, Clone, PartialEq, Eq, Hash)]
pub struct ActorId(pub String);

impl ActorId {
    pub fn new(s: &str) -> (r: Self)
        ensures
            r.0@ == s@,
    {
        ActorId(s.to_owned())
    }

    pub fn as_str(&self) -> (r: &str)
        ensures
            r@ == self.0@,
    {
        self.0.as_str()
    }
}

} // verus!
