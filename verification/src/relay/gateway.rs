//! Secure relay gateway: the single boundary through which information is
//! transmitted to external systems.
//!
//! An envelope is accepted only if, in this order: its kind is on the
//! allowlist; its payload carries no prohibited content; its destination is
//! known and authorised for the kind; its classification is present and
//! permitted; its releasability is present and shares a community with the
//! destination; its payload fits the destination's size bound; it has not
//! expired; its signature verifies; its nonce is not a replay; the
//! destination's per-minute rate is not exhausted; and the destination's
//! queue has room. Every rejected envelope is kept with its reason.

use vstd::prelude::*;
use vstd::string::*;
use vstd::utf8::encode_utf8;
use crate::contracts::prohibited::{rejection_view, scan_json, scan_value, ScopeRejection};
use crate::contracts::relay::{AckState, DeliveryState, RelayEnvelope, RelayMessageKind};
use crate::keyed::{find_key, lemma_update_value, lookup, replace_at, set_entry};
use crate::relay::allowlist::{is_allowed, kind_allowed};
use crate::relay::policy::{DestinationPolicy, RelayPolicy};
use crate::relay::signing::{elapsed_exceeds, evicted, holds_nonce, signature_of, verify, whole_seconds, AntiReplayCache};
use crate::text::str_eq;

verus! {

/// Why the gateway refused an envelope.
#[derive(Debug, PartialEq, Eq)]
pub enum RelayRejectReason {
    ProhibitedKind,
    ProhibitedContent(ScopeRejection),
    UnknownDestination,
    KindNotAuthorizedForDestination,
    ClassificationNotPermitted,
    ReleasabilityMismatch,
    MissingClassification,
    MissingReleasability,
    InvalidSignature,
    ReplayDetected,
    Expired,
    OversizedPayload { got: usize, limit: usize },
    RateLimited,
    DeadLettered,
}

impl Clone for RelayRejectReason {
    fn clone(&self) -> (r: Self)
        ensures
            r == *self,
    {
        match self {
            RelayRejectReason::ProhibitedKind => RelayRejectReason::ProhibitedKind,
            RelayRejectReason::ProhibitedContent(s) => RelayRejectReason::ProhibitedContent(s.clone()),
            RelayRejectReason::UnknownDestination => RelayRejectReason::UnknownDestination,
            RelayRejectReason::KindNotAuthorizedForDestination => RelayRejectReason::KindNotAuthorizedForDestination,
            RelayRejectReason::ClassificationNotPermitted => RelayRejectReason::ClassificationNotPermitted,
            RelayRejectReason::ReleasabilityMismatch => RelayRejectReason::ReleasabilityMismatch,
            RelayRejectReason::MissingClassification => RelayRejectReason::MissingClassification,
            RelayRejectReason::MissingReleasability => RelayRejectReason::MissingReleasability,
            RelayRejectReason::InvalidSignature => RelayRejectReason::InvalidSignature,
            RelayRejectReason::ReplayDetected => RelayRejectReason::ReplayDetected,
            RelayRejectReason::Expired => RelayRejectReason::Expired,
            RelayRejectReason::OversizedPayload { got, limit } => RelayRejectReason::OversizedPayload { got: *got, limit: *limit },
            RelayRejectReason::RateLimited => RelayRejectReason::RateLimited,
            RelayRejectReason::DeadLettered => RelayRejectReason::DeadLettered,
        }
    }
}

/// A rejection reason as the contracts speak of it.
pub enum RejectCause {
    ProhibitedKind,
    ProhibitedContent(Seq<char>, Seq<char>),
    UnknownDestination,
    KindNotAuthorizedForDestination,
    ClassificationNotPermitted,
    ReleasabilityMismatch,
    MissingClassification,
    MissingReleasability,
    InvalidSignature,
    ReplayDetected,
    Expired,
    OversizedPayload(int, int),
    RateLimited,
    DeadLettered,
}

pub open spec fn cause_of(r: RelayRejectReason) -> RejectCause {
    match r {
        RelayRejectReason::ProhibitedKind => RejectCause::ProhibitedKind,
        RelayRejectReason::ProhibitedContent(s) => match rejection_view(Some(s)) {
            Some(v) => RejectCause::ProhibitedContent(v.0, v.1),
            None => RejectCause::ProhibitedKind,
        },
        RelayRejectReason::UnknownDestination => RejectCause::UnknownDestination,
        RelayRejectReason::KindNotAuthorizedForDestination => RejectCause::KindNotAuthorizedForDestination,
        RelayRejectReason::ClassificationNotPermitted => RejectCause::ClassificationNotPermitted,
        RelayRejectReason::ReleasabilityMismatch => RejectCause::ReleasabilityMismatch,
        RelayRejectReason::MissingClassification => RejectCause::MissingClassification,
        RelayRejectReason::MissingReleasability => RejectCause::MissingReleasability,
        RelayRejectReason::InvalidSignature => RejectCause::InvalidSignature,
        RelayRejectReason::ReplayDetected => RejectCause::ReplayDetected,
        RelayRejectReason::Expired => RejectCause::Expired,
        RelayRejectReason::OversizedPayload { got, limit } => RejectCause::OversizedPayload(got as int, limit as int),
        RelayRejectReason::RateLimited => RejectCause::RateLimited,
        RelayRejectReason::DeadLettered => RejectCause::DeadLettered,
    }
}

/// Whether `t` is one of the texts.
pub open spec fn has_text(s: Seq<String>, t: Seq<char>) -> bool {
    exists|i: int| 0 <= i < s.len() && #[trigger] s[i]@ == t
}

/// Whether the two lists of texts share an element.
pub open spec fn shares_text(a: Seq<String>, b: Seq<String>) -> bool {
    exists|i: int| 0 <= i < a.len() && has_text(b, #[trigger] a[i]@)
}

/// Size of the envelope's payload on the wire, in bytes.
pub open spec fn payload_size(e: RelayEnvelope) -> int {
    encode_utf8(e.payload_text@).len() as int
}

/// The checks that depend only on the policy, the key, the envelope and the
/// clock, in the order the gateway applies them.
pub open spec fn screen(policy: RelayPolicy, key: Seq<u8>, e: RelayEnvelope, now: int) -> Option<RejectCause> {
    if !kind_allowed(e.kind) {
        Some(RejectCause::ProhibitedKind)
    } else if let Some(hit) = scan_value(e.payload_json, Seq::empty()) {
        Some(RejectCause::ProhibitedContent(hit.0, hit.1))
    } else {
        match policy.policy_for(e.destination.0@) {
            None => Some(RejectCause::UnknownDestination),
            Some(d) => if !d.allowed_kinds@.contains(e.kind) {
                Some(RejectCause::KindNotAuthorizedForDestination)
            } else if e.classification.label@.len() == 0 {
                Some(RejectCause::MissingClassification)
            } else if !has_text(d.allowed_classification_labels@, e.classification.label@) {
                Some(RejectCause::ClassificationNotPermitted)
            } else if e.releasability.allowed_communities@.len() == 0 {
                Some(RejectCause::MissingReleasability)
            } else if !shares_text(e.releasability.allowed_communities@, d.communities@) {
                Some(RejectCause::ReleasabilityMismatch)
            } else if payload_size(e) > d.max_payload_bytes {
                Some(RejectCause::OversizedPayload(payload_size(e), d.max_payload_bytes as int))
            } else if e.expires_at <= now {
                Some(RejectCause::Expired)
            } else if signature_of(key, e.payload_digest_hex@) != e.signature_hex@ {
                Some(RejectCause::InvalidSignature)
            } else {
                None
            },
        }
    }
}

/// The destination checks are list membership, at any position: an
/// envelope is refused for its kind, its classification label or its
/// releasability only when the kind is on no position of the destination's
/// kinds, the label on no position of its allowed labels, or none of the
/// envelope's communities on any position of the destination's
/// communities; and whenever the kind, the label, or one community is
/// found there, that refusal does not come.
pub proof fn law_destination_checks_are_membership(policy: RelayPolicy, key: Seq<u8>, e: RelayEnvelope, now: int)
    ensures
        screen(policy, key, e, now) == Some(RejectCause::KindNotAuthorizedForDestination) ==> (
            policy.policy_for(e.destination.0@) matches Some(d)
                && forall|i: int| 0 <= i < d.allowed_kinds@.len() ==> d.allowed_kinds@[i] != e.kind),
        (policy.policy_for(e.destination.0@) matches Some(d)
            && exists|i: int| 0 <= i < d.allowed_kinds@.len() && d.allowed_kinds@[i] == e.kind)
            ==> screen(policy, key, e, now) != Some(RejectCause::KindNotAuthorizedForDestination),
        screen(policy, key, e, now) == Some(RejectCause::ClassificationNotPermitted) ==> (
            policy.policy_for(e.destination.0@) matches Some(d)
                && forall|i: int| 0 <= i < d.allowed_classification_labels@.len()
                    ==> d.allowed_classification_labels@[i]@ != e.classification.label@),
        (policy.policy_for(e.destination.0@) matches Some(d)
            && exists|i: int| 0 <= i < d.allowed_classification_labels@.len()
                && d.allowed_classification_labels@[i]@ == e.classification.label@)
            ==> screen(policy, key, e, now) != Some(RejectCause::ClassificationNotPermitted),
        screen(policy, key, e, now) == Some(RejectCause::ReleasabilityMismatch) ==> (
            policy.policy_for(e.destination.0@) matches Some(d)
                && forall|i: int, j: int| 0 <= i < e.releasability.allowed_communities@.len() && 0 <= j < d.communities@.len()
                    ==> e.releasability.allowed_communities@[i]@ != d.communities@[j]@),
        (policy.policy_for(e.destination.0@) matches Some(d)
            && exists|i: int, j: int| 0 <= i < e.releasability.allowed_communities@.len() && 0 <= j < d.communities@.len()
                && e.releasability.allowed_communities@[i]@ == d.communities@[j]@)
            ==> screen(policy, key, e, now) != Some(RejectCause::ReleasabilityMismatch),
{
    if let Some(d) = policy.policy_for(e.destination.0@) {
        let labels = d.allowed_classification_labels@;
        let comms = d.communities@;
        let mine = e.releasability.allowed_communities@;
        if exists|i: int| 0 <= i < labels.len() && labels[i]@ == e.classification.label@ {
            let i = choose|i: int| 0 <= i < labels.len() && labels[i]@ == e.classification.label@;
            assert(has_text(labels, e.classification.label@));
        }
        if exists|i: int, j: int| 0 <= i < mine.len() && 0 <= j < comms.len() && mine[i]@ == comms[j]@ {
            let (i, j) = choose|i: int, j: int| 0 <= i < mine.len() && 0 <= j < comms.len() && mine[i]@ == comms[j]@;
            assert(has_text(comms, mine[i]@));
            assert(shares_text(mine, comms));
        }
        if exists|i: int| 0 <= i < d.allowed_kinds@.len() && d.allowed_kinds@[i] == e.kind {
            let i = choose|i: int| 0 <= i < d.allowed_kinds@.len() && d.allowed_kinds@[i] == e.kind;
            assert(d.allowed_kinds@.contains(e.kind));
        }
        if screen(policy, key, e, now) == Some(RejectCause::ReleasabilityMismatch) {
            assert(!shares_text(mine, comms));
            assert forall|i: int, j: int| 0 <= i < mine.len() && 0 <= j < comms.len() implies mine[i]@ != comms[j]@ by {
                if mine[i]@ == comms[j]@ {
                    assert(has_text(comms, mine[i]@));
                }
            }
        }
    }
}

/// The per-destination rate window (start, count) after the clock reading
/// `now`: a missing window starts at `now`, and a window older than 60 whole
/// seconds restarts at `now` with a count of zero.
pub open spec fn window_after(w: Option<(int, int)>, now: int) -> (int, int) {
    let start = match w { Some(p) => p.0, None => now };
    let count = match w { Some(p) => p.1, None => 0 };
    if whole_seconds(now - start) > 60 { (now, 0) } else { (start, count) }
}

/// An accepted envelope as it sits in the queue.
pub open spec fn queued_form(e: RelayEnvelope, one_way_export: bool) -> RelayEnvelope {
    RelayEnvelope {
        delivery_state: DeliveryState::Queued,
        ack_state: if one_way_export { AckState::NoAck } else { AckState::Pending },
        ..e
    }
}

/// The relay gateway with its queues, dead letters and anti-replay cache.
pub struct RelayGateway {
    pub policy: RelayPolicy,
    private_key_material: Vec<u8>,
    queues: Vec<(String, Vec<RelayEnvelope>)>,
    dead_letters: Vec<(RelayEnvelope, RelayRejectReason)>,
    anti_replay: AntiReplayCache,
    delivered_count_per_min: Vec<(String, (i128, u32))>,
    /// Envelopes accepted into a queue.
    pub delivered: u64,
    /// Envelopes refused.
    pub rejected: u64,
}

impl RelayGateway {
    /// The policy in force.
    pub closed spec fn current_policy(&self) -> RelayPolicy {
        self.policy
    }

    /// Number of envelopes accepted into a queue.
    pub closed spec fn delivered_count(&self) -> int {
        self.delivered as int
    }

    /// Number of envelopes refused.
    pub closed spec fn rejected_count(&self) -> int {
        self.rejected as int
    }

    /// The public field `policy`, as the contracts name it (`current_policy`).
    pub fn policy_in_force(&self) -> (r: &RelayPolicy)
        ensures
            *r == self.current_policy(),
    {
        &self.policy
    }

    /// The public field `delivered`, as the contracts name it (`delivered_count`).
    pub fn delivered_total(&self) -> (r: u64)
        ensures
            r as int == self.delivered_count(),
    {
        self.delivered
    }

    /// The public field `rejected`, as the contracts name it (`rejected_count`).
    pub fn rejected_total(&self) -> (r: u64)
        ensures
            r as int == self.rejected_count(),
    {
        self.rejected
    }

    pub closed spec fn key(&self) -> Seq<u8> {
        self.private_key_material@
    }

    /// Envelopes waiting for `dest`, oldest first.
    pub closed spec fn queue(&self, dest: Seq<char>) -> Seq<RelayEnvelope> {
        match lookup(self.queues@, dest) {
            Some(q) => q@,
            None => Seq::empty(),
        }
    }

    /// The rate window (start instant, count) of `dest`, if one was opened.
    pub closed spec fn window(&self, dest: Seq<char>) -> Option<(int, int)> {
        match lookup(self.delivered_count_per_min@, dest) {
            Some(w) => Some((w.0 as int, w.1 as int)),
            None => None,
        }
    }

    /// Every refused envelope with its reason, in order of refusal.
    pub closed spec fn dead_letter_log(&self) -> Seq<(RelayEnvelope, RelayRejectReason)> {
        self.dead_letters@
    }

    /// The anti-replay cache.
    pub closed spec fn replay_cache(&self) -> AntiReplayCache {
        self.anti_replay
    }

    /// `f` is `o` after refusing `env` for `cause`: the refusal is counted and
    /// logged, queues are untouched.
    pub open spec fn refused(o: RelayGateway, f: RelayGateway, env: RelayEnvelope, r: Result<DeliveryState, RelayRejectReason>, cause: RejectCause) -> bool {
        &&& r matches Err(reason)
        &&& cause_of(reason) == cause
        &&& f.rejected_count() == o.rejected_count() + 1
        &&& f.delivered_count() == o.delivered_count()
        &&& f.dead_letter_log() == o.dead_letter_log().push((env, reason))
        &&& forall|k: Seq<char>| #[trigger] f.queue(k) == o.queue(k)
    }

    pub fn new(policy: RelayPolicy, private_key_material: Vec<u8>) -> (r: RelayGateway)
        ensures
            r.current_policy() == policy,
            r.key() == private_key_material@,
            r.replay_cache().ttl() == policy.anti_replay_ttl_seconds,
            r.replay_cache().entries() == Seq::<(Seq<char>, int)>::empty(),
            forall|k: Seq<char>| #[trigger] r.queue(k) == Seq::<RelayEnvelope>::empty(),
            forall|k: Seq<char>| #[trigger] r.window(k) is None,
            r.dead_letter_log() == Seq::<(RelayEnvelope, RelayRejectReason)>::empty(),
            r.delivered_count() == 0,
            r.rejected_count() == 0,
    {
        let ttl = policy.anti_replay_ttl_seconds;
        let r = RelayGateway {
            policy,
            private_key_material,
            queues: Vec::new(),
            dead_letters: Vec::new(),
            anti_replay: AntiReplayCache::new(ttl),
            delivered_count_per_min: Vec::new(),
            delivered: 0,
            rejected: 0,
        };
        assert(r.dead_letter_log() =~= Seq::<(RelayEnvelope, RelayRejectReason)>::empty());
        r
    }

    /// Every refused envelope with its reason.
    pub fn dead_letters(&self) -> (r: &[(RelayEnvelope, RelayRejectReason)])
        ensures
            r@ == self.dead_letter_log(),
    {
        self.dead_letters.as_slice()
    }

    /// Number of envelopes waiting for `destination`.
    pub fn queued_depth(&self, destination: &str) -> (r: usize)
        ensures
            r == self.queue(destination@).len(),
    {
        match find_key(&self.queues, destination) {
            Some(i) => self.queues[i].1.len(),
            None => 0,
        }
    }

    fn text_in(list: &Vec<String>, t: &str) -> (r: bool)
        ensures
            r == has_text(list@, t@),
    {
        let mut i: usize = 0;
        while i < list.len()
            invariant
                i <= list@.len(),
                forall|k: int| 0 <= k < i ==> list@[k]@ != t@,
            decreases list@.len() - i,
        {
            if str_eq(list[i].as_str(), t) {
                return true;
            }
            i = i + 1;
        }
        false
    }

    fn kind_in(list: &Vec<RelayMessageKind>, k: RelayMessageKind) -> (r: bool)
        ensures
            r == list@.contains(k),
    {
        let mut i: usize = 0;
        while i < list.len()
            invariant
                i <= list@.len(),
                forall|j: int| 0 <= j < i ==> list@[j] != k,
            decreases list@.len() - i,
        {
            if list[i] == k {
                return true;
            }
            i = i + 1;
        }
        false
    }

    fn any_shared(a: &Vec<String>, b: &Vec<String>) -> (r: bool)
        ensures
            r == shares_text(a@, b@),
    {
        let mut i: usize = 0;
        while i < a.len()
            invariant
                i <= a@.len(),
                forall|k: int| 0 <= k < i ==> !has_text(b@, #[trigger] a@[k]@),
            decreases a@.len() - i,
        {
            if Self::text_in(b, a[i].as_str()) {
                return true;
            }
            i = i + 1;
        }
        false
    }

    /// The stateless checks, in order.
    fn screen_envelope(&self, e: &RelayEnvelope, now: i128) -> (r: Option<RelayRejectReason>)
        ensures
            match r {
                Some(reason) => screen(self.policy, self.key(), *e, now as int) == Some(cause_of(reason)),
                None => screen(self.policy, self.key(), *e, now as int) is None,
            },
    {
        if !is_allowed(e.kind) {
            return Some(RelayRejectReason::ProhibitedKind);
        }
        if let Some(sr) = scan_json(&e.payload_json) {
            return Some(RelayRejectReason::ProhibitedContent(sr));
        }
        let i = match find_key(&self.policy.destinations, e.destination.as_str()) {
            Some(i) => i,
            None => return Some(RelayRejectReason::UnknownDestination),
        };
        let d: &DestinationPolicy = &self.policy.destinations[i].1;
        if !Self::kind_in(&d.allowed_kinds, e.kind) {
            return Some(RelayRejectReason::KindNotAuthorizedForDestination);
        }
        if e.classification.label.as_str().unicode_len() == 0 {
            return Some(RelayRejectReason::MissingClassification);
        }
        if !Self::text_in(&d.allowed_classification_labels, e.classification.label.as_str()) {
            return Some(RelayRejectReason::ClassificationNotPermitted);
        }
        if e.releasability.allowed_communities.len() == 0 {
            return Some(RelayRejectReason::MissingReleasability);
        }
        if !Self::any_shared(&e.releasability.allowed_communities, &d.communities) {
            return Some(RelayRejectReason::ReleasabilityMismatch);
        }
        let size = e.payload_text.as_str().as_bytes().len();
        if size > d.max_payload_bytes {
            return Some(RelayRejectReason::OversizedPayload { got: size, limit: d.max_payload_bytes });
        }
        if e.expires_at <= now {
            return Some(RelayRejectReason::Expired);
        }
        if !verify(self.private_key_material.as_slice(), e.payload_digest_hex.as_str(), e.signature_hex.as_str()) {
            return Some(RelayRejectReason::InvalidSignature);
        }
        None
    }

    fn reject(&mut self, envelope: RelayEnvelope, reason: RelayRejectReason) -> (r: Result<DeliveryState, RelayRejectReason>)
        requires
            old(self).rejected < u64::MAX,
        ensures
            RelayGateway::refused(*old(self), *final(self), envelope, r, cause_of(reason)),
            r == Err::<DeliveryState, RelayRejectReason>(reason),
            final(self).policy == old(self).policy,
            final(self).private_key_material == old(self).private_key_material,
            final(self).anti_replay == old(self).anti_replay,
            final(self).delivered_count_per_min == old(self).delivered_count_per_min,
            final(self).queues == old(self).queues,
    {
        self.rejected = self.rejected + 1;
        let copy = reason.clone();
        self.dead_letters.push((envelope, reason));
        Err(copy)
    }

    fn set_window(&mut self, key: &str, start: i128, count: u32)
        ensures
            final(self).window(key@) == Some((start as int, count as int)),
            forall|k: Seq<char>| k != key@ ==> #[trigger] final(self).window(k) == old(self).window(k),
            final(self).policy == old(self).policy,
            final(self).private_key_material == old(self).private_key_material,
            final(self).anti_replay == old(self).anti_replay,
            final(self).queues == old(self).queues,
            final(self).dead_letters == old(self).dead_letters,
            final(self).delivered == old(self).delivered,
            final(self).rejected == old(self).rejected,
    {
        set_entry(&mut self.delivered_count_per_min, key, (start, count));
    }

    fn enqueue(&mut self, key: &str, e: RelayEnvelope)
        ensures
            final(self).queue(key@) == old(self).queue(key@).push(e),
            forall|k: Seq<char>| k != key@ ==> #[trigger] final(self).queue(k) == old(self).queue(k),
            final(self).policy == old(self).policy,
            final(self).private_key_material == old(self).private_key_material,
            final(self).anti_replay == old(self).anti_replay,
            final(self).delivered_count_per_min == old(self).delivered_count_per_min,
            final(self).dead_letters == old(self).dead_letters,
            final(self).delivered == old(self).delivered,
            final(self).rejected == old(self).rejected,
    {
        let ghost before = self.queues@;
        match find_key(&self.queues, key) {
            Some(i) => {
                let empty: Vec<RelayEnvelope> = Vec::new();
                let ghost ge = empty;
                let mut q = replace_at(&mut self.queues, i, empty);
                q.push(e);
                let ghost mid = self.queues@;
                let ghost gq = q;
                let _ = replace_at(&mut self.queues, i, q);
                proof {
                    lemma_update_value(before, i as int, ge);
                    lemma_update_value(mid, i as int, gq);
                    assert(mid[i as int].0 == before[i as int].0);
                }
            },
            None => {
                let mut q: Vec<RelayEnvelope> = Vec::new();
                q.push(e);
                assert(q@ =~= Seq::<RelayEnvelope>::empty().push(e));
                set_entry(&mut self.queues, key, q);
            },
        }
    }

    /// Accepts an envelope for outbound relay or refuses it with the reason.
    /// An accepted envelope is queued for its destination, marked `Queued`,
    /// and waits for an acknowledgment unless the policy is one-way export.
    pub fn submit(&mut self, envelope: RelayEnvelope, now: i128) -> (r: Result<DeliveryState, RelayRejectReason>)
        requires
            old(self).rejected_count() < u64::MAX,
            old(self).delivered_count() < u64::MAX,
        ensures
            final(self).current_policy() == old(self).current_policy(),
            final(self).key() == old(self).key(),
            final(self).replay_cache().ttl() == old(self).replay_cache().ttl(),
            ({
                let o = *old(self);
                let f = *final(self);
                let p = o.current_policy();
                let d = envelope.destination.0@;
                let kept = evicted(o.replay_cache().entries(), now as int, o.replay_cache().ttl());
                let w = window_after(o.window(d), now as int);
                match screen(p, o.key(), envelope, now as int) {
                    Some(cause) => {
                        &&& RelayGateway::refused(o, f, envelope, r, cause)
                        &&& f.replay_cache().entries() == o.replay_cache().entries()
                        &&& forall|k: Seq<char>| #[trigger] f.window(k) == o.window(k)
                    },
                    None => if holds_nonce(kept, envelope.anti_replay_nonce_hex@) {
                        &&& RelayGateway::refused(o, f, envelope, r, RejectCause::ReplayDetected)
                        &&& f.replay_cache().entries() == kept
                        &&& forall|k: Seq<char>| #[trigger] f.window(k) == o.window(k)
                    } else {
                        &&& f.replay_cache().entries() == kept.push((envelope.anti_replay_nonce_hex@, now as int))
                        &&& forall|k: Seq<char>| k != d ==> #[trigger] f.window(k) == o.window(k)
                        &&& if w.1 >= p.max_messages_per_minute_per_destination {
                            &&& RelayGateway::refused(o, f, envelope, r, RejectCause::RateLimited)
                            &&& f.window(d) == Some(w)
                        } else {
                            &&& f.window(d) == Some((w.0, w.1 + 1))
                            &&& if o.queue(d).len() >= p.max_queue_depth_per_destination {
                                RelayGateway::refused(o, f, envelope, r, RejectCause::DeadLettered)
                            } else {
                                &&& r == Ok::<DeliveryState, RelayRejectReason>(DeliveryState::Queued)
                                &&& f.queue(d) == o.queue(d).push(queued_form(envelope, p.one_way_export))
                                &&& forall|k: Seq<char>| k != d ==> #[trigger] f.queue(k) == o.queue(k)
                                &&& f.delivered_count() == o.delivered_count() + 1
                                &&& f.rejected_count() == o.rejected_count()
                                &&& f.dead_letter_log() == o.dead_letter_log()
                            }
                        }
                    },
                }
            }),
    {
        let ghost o = *self;
        if let Some(reason) = self.screen_envelope(&envelope, now) {
            return self.reject(envelope, reason);
        }
        if !self.anti_replay.observe(envelope.anti_replay_nonce_hex.as_str(), now) {
            return self.reject(envelope, RelayRejectReason::ReplayDetected);
        }
        let dest: String = envelope.destination.0.clone();
        let (mut start, mut count): (i128, u32) = match find_key(&self.delivered_count_per_min, dest.as_str()) {
            Some(i) => self.delivered_count_per_min[i].1,
            None => (now, 0),
        };
        if elapsed_exceeds(now, start, 60) {
            start = now;
            count = 0;
        }
        assert((start as int, count as int) == window_after(o.window(dest@), now as int));
        let ghost a = *self;
        assert(forall|k: Seq<char>| #[trigger] a.window(k) == o.window(k));
        if count >= self.policy.max_messages_per_minute_per_destination {
            self.set_window(dest.as_str(), start, count);
            let ghost m = *self;
            assert(forall|k: Seq<char>| k != dest@ ==> #[trigger] m.window(k) == a.window(k));
            let r = self.reject(envelope, RelayRejectReason::RateLimited);
            assert(RelayGateway::refused(m, *self, envelope, r, RejectCause::RateLimited));
            assert(m.rejected == o.rejected);
            assert(m.dead_letters == o.dead_letters);
            assert(forall|k: Seq<char>| #[trigger] m.queue(k) == o.queue(k));
            assert(RelayGateway::refused(o, *self, envelope, r, RejectCause::RateLimited));
            assert(self.window(dest@) == Some(window_after(o.window(dest@), now as int)));
            assert forall|k: Seq<char>| k != dest@ implies #[trigger] self.window(k) == o.window(k) by {
                assert(m.window(k) == a.window(k));
            }
            assert(screen(o.current_policy(), o.key(), envelope, now as int) is None);
            assert(self.replay_cache().entries() == evicted(o.replay_cache().entries(), now as int, o.replay_cache().ttl()).push((envelope.anti_replay_nonce_hex@, now as int)));
            assert(!holds_nonce(evicted(o.replay_cache().entries(), now as int, o.replay_cache().ttl()), envelope.anti_replay_nonce_hex@));
            return r;
        }
        self.set_window(dest.as_str(), start, count + 1);
        let ghost m = *self;
        assert forall|k: Seq<char>| k != dest@ implies #[trigger] m.window(k) == o.window(k) by {
            assert(m.window(k) == a.window(k));
        }
        let depth = self.queued_depth(dest.as_str());
        if depth as u64 >= self.policy.max_queue_depth_per_destination as u64 {
            let r = self.reject(envelope, RelayRejectReason::DeadLettered);
            assert forall|k: Seq<char>| #[trigger] self.window(k) == m.window(k) by {}
            assert(RelayGateway::refused(m, *self, envelope, r, RejectCause::DeadLettered));
            assert(RelayGateway::refused(o, *self, envelope, r, RejectCause::DeadLettered));
            return r;
        }
        let mut e = envelope;
        e.delivery_state = DeliveryState::Queued;
        e.ack_state = if self.policy.one_way_export { AckState::NoAck } else { AckState::Pending };
        assert(e == queued_form(envelope, o.policy.one_way_export));
        self.enqueue(dest.as_str(), e);
        let ghost s1 = *self;
        self.delivered = self.delivered + 1;
        assert forall|k: Seq<char>| k != dest@ implies #[trigger] self.queue(k) == o.queue(k) by {
            assert(self.queue(k) == s1.queue(k));
            assert(s1.queue(k) == m.queue(k));
        }
        assert forall|k: Seq<char>| k != dest@ implies #[trigger] self.window(k) == o.window(k) by {
            assert(self.window(k) == m.window(k));
            assert(m.window(k) == o.window(k));
        }
        Ok(DeliveryState::Queued)
    }

    /// Takes the oldest envelope waiting for `destination`, marked `Delivered`.
    pub fn drain_one(&mut self, destination: &str) -> (r: Option<RelayEnvelope>)
        ensures
            final(self).current_policy() == old(self).current_policy(),
            final(self).dead_letter_log() == old(self).dead_letter_log(),
            forall|k: Seq<char>| k != destination@ ==> #[trigger] final(self).queue(k) == old(self).queue(k),
            match r {
                None => old(self).queue(destination@).len() == 0
                    && final(self).queue(destination@) == old(self).queue(destination@),
                Some(e) => old(self).queue(destination@).len() > 0
                    && e == (RelayEnvelope { delivery_state: DeliveryState::Delivered, ..old(self).queue(destination@)[0] })
                    && final(self).queue(destination@) == old(self).queue(destination@).drop_first(),
            },
    {
        let ghost before = self.queues@;
        let i = match find_key(&self.queues, destination) {
            Some(i) => i,
            None => return None,
        };
        let empty: Vec<RelayEnvelope> = Vec::new();
        let ghost ge = empty;
        let mut q = replace_at(&mut self.queues, i, empty);
        if q.len() == 0 {
            let ghost mid = self.queues@;
            let ghost gq = q;
            let _ = replace_at(&mut self.queues, i, q);
            proof {
                lemma_update_value(before, i as int, ge);
                lemma_update_value(mid, i as int, gq);
            }
            return None;
        }
        let mut item = q.remove(0);
        item.delivery_state = DeliveryState::Delivered;
        let ghost mid = self.queues@;
        let ghost gq = q;
        let _ = replace_at(&mut self.queues, i, q);
        proof {
            lemma_update_value(before, i as int, ge);
            lemma_update_value(mid, i as int, gq);
        }
        Some(item)
    }
}

} // verus!
