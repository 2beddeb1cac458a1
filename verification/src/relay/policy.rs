//! Destination and release policy.

use vstd::prelude::*;
use crate::contracts::ids::DestinationId;
use crate::contracts::relay::RelayMessageKind;
use crate::keyed::{find_key, lookup, set_entry};

verus! {

/// What one destination is authorised to receive.
#[derive(Debug, Clone)]
pub struct DestinationPolicy {
    pub destination: DestinationId,
    /// Kinds this destination is authorised to receive.
    pub allowed_kinds: Vec<RelayMessageKind>,
    /// Allowed classification labels (compared as text).
    pub allowed_classification_labels: Vec<String>,
    /// Communities this destination belongs to; an envelope is authorised
    /// only when its releasability names at least one of them.
    pub communities: Vec<String>,
    /// Largest payload this destination accepts, in bytes.
    pub max_payload_bytes: usize,
    /// The key signatures are checked against, carried opaquely.
    pub public_key_hex: String,
}

/// Gateway-wide policy. Destinations are keyed by name.
#[derive(Debug, Clone)]
pub struct RelayPolicy {
    pub destinations: Vec<(String, DestinationPolicy)>,
    /// One-way export: no acknowledgment is expected from destinations.
    pub one_way_export: bool,
    /// Retention (seconds) of the anti-replay nonce cache.
    pub anti_replay_ttl_seconds: u32,
    /// Rate limit (messages per minute per destination).
    pub max_messages_per_minute_per_destination: u32,
    /// Queue depth beyond which envelopes are dead-lettered.
    pub max_queue_depth_per_destination: u32,
}

impl RelayPolicy {
    /// The policy registered under `key`.
    pub open spec fn policy_for(self, key: Seq<char>) -> Option<DestinationPolicy> {
        lookup(self.destinations@, key)
    }

    /// Registers (or replaces) the policy for destination `key`.
    pub fn insert_destination(&mut self, key: &str, policy: DestinationPolicy)
        ensures
            final(self).policy_for(key@) == Some(policy),
            forall|k: Seq<char>| k != key@ ==> #[trigger] final(self).policy_for(k) == old(self).policy_for(k),
            final(self).one_way_export == old(self).one_way_export,
            final(self).anti_replay_ttl_seconds == old(self).anti_replay_ttl_seconds,
            final(self).max_messages_per_minute_per_destination
                == old(self).max_messages_per_minute_per_destination,
            final(self).max_queue_depth_per_destination == old(self).max_queue_depth_per_destination,
    {
        set_entry(&mut self.destinations, key, policy);
    }

    /// The policy for destination `id`.
    pub fn destination(&self, id: &DestinationId) -> (r: Option<&DestinationPolicy>)
        ensures
            match r {
                Some(p) => self.policy_for(id.0@) == Some(*p),
                None => self.policy_for(id.0@) is None,
            },
    {
        match find_key(&self.destinations, id.as_str()) {
            Some(i) => Some(&self.destinations[i].1),
            None => None,
        }
    }
}

} // verus!
