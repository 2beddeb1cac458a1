//! Outbound-message-kind allowlist: the complete permitted informational
//! surface for outbound relay. Adding a kind requires an explicit boundary
//! review.

use vstd::prelude::*;
use crate::contracts::relay::RelayMessageKind;

verus! {

/// The message kinds the gateway will consider for outbound transmission.
pub const ALLOWED_KINDS: [RelayMessageKind; 4] = [
    RelayMessageKind::TrackState,
    RelayMessageKind::ObservationSummary,
    RelayMessageKind::SystemHealth,
    RelayMessageKind::Alert,
];

/// Whether `kind` is on the allowlist.
pub open spec fn kind_allowed(kind: RelayMessageKind) -> bool {
    exists|i: int| 0 <= i < 4 && #[trigger] ALLOWED_KINDS@[i] == kind
}

/// Whether `kind` is on the allowlist. Every kind of the relay contract is.
pub fn is_allowed(kind: RelayMessageKind) -> (r: bool)
    ensures
        r == kind_allowed(kind),
        r,
{
    let mut i: usize = 0;
    while i < 4
        invariant
            i <= 4,
            forall|k: int| 0 <= k < i ==> ALLOWED_KINDS@[k] != kind,
        decreases 4 - i,
    {
        if ALLOWED_KINDS[i] == kind {
            return true;
        }
        i = i + 1;
    }
    assert(false) by {
        match kind {
            RelayMessageKind::TrackState => assert(ALLOWED_KINDS@[0] == kind),
            RelayMessageKind::ObservationSummary => assert(ALLOWED_KINDS@[1] == kind),
            RelayMessageKind::SystemHealth => assert(ALLOWED_KINDS@[2] == kind),
            RelayMessageKind::Alert => assert(ALLOWED_KINDS@[3] == kind),
        }
    }
    false
}

} // verus!
