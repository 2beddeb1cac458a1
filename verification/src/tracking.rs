//! Bookkeeping of the deterministic track engine.
//!
//! The engine's decisions that do not depend on geometry live here: which
//! observations were already integrated (ingest is idempotent), the
//! per-track deterministic sequence, which track an observation associates
//! with once the caller has measured its distance to every track, how
//! classification claims and source contributions merge into a track, the
//! integrity of a fused track, and how a track ages.

use vstd::prelude::*;
use crate::contracts::provenance::{rank, Integrity};
use crate::contracts::track::{ConflictState, FreshnessState, TrackStatus};
use crate::text::str_eq;
use std::collections::{HashMap, HashSet};
use crate::contracts::ids::{is_uuid_v4, TrackId};
use crate::digest::{append_bytes, append_str, be_bytes, sha256, sha256_spec, u64_be};

verus! {

pub const ALGORITHM_VERSION: &'static str = "aeon-track/1.0";

/// Integrity of a fused value: derived from the weaker of the two inputs
/// (the first one when both are equally strong).
pub open spec fn fused_integrity(a: Integrity, b: Integrity) -> Integrity {
    Integrity::Derived { min_upstream: Box::new(if rank(a) <= rank(b) { a } else { b }) }
}

/// The integrity of a track after fusing an observation into it.
pub fn min_integrity(a: &Integrity, b: &Integrity) -> (r: Integrity)
    ensures
        r == fused_integrity(*a, *b),
        rank(r) == if rank(*a) <= rank(*b) { rank(*a) } else { rank(*b) },
{
    let weaker = if crate::contracts::provenance::integrity_rank(a) <= crate::contracts::provenance::integrity_rank(b) {
        a.deep_copy()
    } else {
        b.deep_copy()
    };
    Integrity::Derived { min_upstream: Box::new(weaker) }
}

/// Fusing never strengthens integrity, and the strength of the result does
/// not depend on the order of the two inputs.
pub proof fn law_fusion_takes_the_weakest(a: Integrity, b: Integrity)
    ensures
        rank(fused_integrity(a, b)) <= rank(a),
        rank(fused_integrity(a, b)) <= rank(b),
        rank(fused_integrity(a, b)) == rank(fused_integrity(b, a)),
{
}

/// Why an observation did not reach a track.
#[derive(Debug, Clone, Copy, PartialEq, Eq, Structural)]
pub enum IngestVerdict {
    /// The observation was integrated before.
    Duplicate,
    /// The observation is older than the accepted latency.
    LatencyExceeded,
    /// The observation carries no canonical position.
    NoPosition,
    /// The observation associates with the given track.
    Update(u128),
    /// The observation starts a new track.
    Initiate,
}

/// The order of the ingest checks: duplicate first, then latency, then the
/// canonical position, then association.
pub open spec fn verdict(newly_seen: bool, latency_exceeded: bool, has_position: bool, association: Option<u128>)
    -> IngestVerdict
{
    if !newly_seen {
        IngestVerdict::Duplicate
    } else if latency_exceeded {
        IngestVerdict::LatencyExceeded
    } else if !has_position {
        IngestVerdict::NoPosition
    } else {
        match association {
            Some(id) => IngestVerdict::Update(id),
            None => IngestVerdict::Initiate,
        }
    }
}

/// Decides what becomes of an ingested observation.
pub fn ingest_verdict(newly_seen: bool, latency_exceeded: bool, has_position: bool, association: Option<u128>)
    -> (r: IngestVerdict)
    ensures
        r == verdict(newly_seen, latency_exceeded, has_position, association),
{
    if !newly_seen {
        IngestVerdict::Duplicate
    } else if latency_exceeded {
        IngestVerdict::LatencyExceeded
    } else if !has_position {
        IngestVerdict::NoPosition
    } else {
        match association {
            Some(id) => IngestVerdict::Update(id),
            None => IngestVerdict::Initiate,
        }
    }
}

/// One existing track, as the association step sees it. `distance_key`
/// orders tracks by their distance to the observation (smaller is nearer).
#[derive(Debug, Clone, Copy, PartialEq, Eq, Structural)]
pub struct Candidate {
    pub track_id: u128,
    pub retired: bool,
    pub has_position: bool,
    pub within_gate: bool,
    pub distance_key: u64,
}

pub open spec fn eligible(c: Candidate) -> bool {
    !c.retired && c.has_position && c.within_gate
}

/// Index of the association winner among `cands[0..n]`: the nearest
/// eligible track, the earliest one among equally near tracks.
pub open spec fn best_index(cands: Seq<Candidate>, n: int) -> Option<int>
    decreases n,
{
    if n <= 0 {
        None
    } else {
        let prev = best_index(cands, n - 1);
        let c = cands[n - 1];
        if !eligible(c) {
            prev
        } else {
            match prev {
                None => Some(n - 1),
                Some(b) => if c.distance_key < cands[b].distance_key { Some(n - 1) } else { prev },
            }
        }
    }
}

proof fn lemma_best_index(cands: Seq<Candidate>, n: int)
    requires
        0 <= n <= cands.len(),
    ensures
        best_index(cands, n) is None <==> (forall|j: int| 0 <= j < n ==> !eligible(#[trigger] cands[j])),
        best_index(cands, n) matches Some(b) ==> {
            &&& 0 <= b < n
            &&& eligible(cands[b])
            &&& forall|j: int| 0 <= j < n && eligible(#[trigger] cands[j]) ==> cands[b].distance_key <= cands[j].distance_key
            &&& forall|j: int| 0 <= j < b && eligible(#[trigger] cands[j]) ==> cands[b].distance_key < cands[j].distance_key
        },
    decreases n,
{
    if n > 0 {
        lemma_best_index(cands, n - 1);
    }
}

/// The track an observation associates with: the nearest non-retired track
/// with a known position inside the correlation gate; among equally near
/// tracks the one listed first (tracks are listed in creation order).
pub fn closest_candidate(cands: &Vec<Candidate>) -> (r: Option<u128>)
    ensures
        r == (match best_index(cands@, cands@.len() as int) {
            Some(b) => Some(cands@[b].track_id),
            None => None::<u128>,
        }),
{
    let mut best: Option<usize> = None;
    let mut i: usize = 0;
    while i < cands.len()
        invariant
            i <= cands@.len(),
            best == (match best_index(cands@, i as int) { Some(b) => Some(b as usize), None => None::<usize> }),
            best_index(cands@, i as int) matches Some(b) ==> 0 <= b < i,
        decreases cands@.len() - i,
    {
        proof { lemma_best_index(cands@, i as int); }
        let c = cands[i];
        if !c.retired && c.has_position && c.within_gate {
            match best {
                None => { best = Some(i); },
                Some(b) => {
                    if c.distance_key < cands[b].distance_key {
                        best = Some(i);
                    }
                },
            }
        }
        i = i + 1;
    }
    match best {
        Some(b) => Some(cands[b].track_id),
        None => None,
    }
}

/// The winner of the association is eligible, no eligible track is nearer,
/// and every eligible track listed before it is strictly farther.
pub proof fn law_association_picks_nearest_first(cands: Seq<Candidate>)
    ensures
        best_index(cands, cands.len() as int) is None <==> (forall|j: int| 0 <= j < cands.len() ==> !eligible(#[trigger] cands[j])),
        best_index(cands, cands.len() as int) matches Some(b) ==> {
            &&& eligible(cands[b])
            &&& forall|j: int| 0 <= j < cands.len() && eligible(#[trigger] cands[j]) ==> cands[b].distance_key <= cands[j].distance_key
            &&& forall|j: int| 0 <= j < b && eligible(#[trigger] cands[j]) ==> cands[b].distance_key < cands[j].distance_key
        },
{
    lemma_best_index(cands, cands.len() as int);
}

/// Labels of `claims[0..n]` that become new hypotheses of a track already
/// holding `existing`: each claim not yet held (neither before nor among the
/// claims added so far), in claim order.
pub open spec fn new_labels(existing: Seq<Seq<char>>, claims: Seq<Seq<char>>, n: int) -> Seq<Seq<char>>
    decreases n,
{
    if n <= 0 {
        seq![]
    } else {
        let prev = new_labels(existing, claims, n - 1);
        let l = claims[n - 1];
        if existing.contains(l) || prev.contains(l) { prev } else { prev.push(l) }
    }
}

fn contains_label(labels: &Vec<String>, l: &str) -> (r: bool)
    ensures
        r == labels@.map_values(|s: String| s@).contains(l@),
{
    let ghost view = labels@.map_values(|s: String| s@);
    let mut i: usize = 0;
    while i < labels.len()
        invariant
            i <= labels@.len(),
            view == labels@.map_values(|s: String| s@),
            forall|j: int| 0 <= j < i ==> view[j] != l@,
        decreases labels@.len() - i,
    {
        if str_eq(labels[i].as_str(), l) {
            assert(view[i as int] == l@);
            return true;
        }
        i = i + 1;
    }
    false
}

/// The classification claims of an observation that a track does not hold
/// yet, in claim order and without repeats. Each becomes a new hypothesis
/// of the track and marks a classification conflict.
pub fn merge_labels(existing: &Vec<String>, claims: &Vec<String>) -> (r: Vec<String>)
    ensures
        r@.map_values(|s: String| s@) == new_labels(
            existing@.map_values(|s: String| s@),
            claims@.map_values(|s: String| s@),
            claims@.len() as int,
        ),
{
    let ghost ex = existing@.map_values(|s: String| s@);
    let ghost cl = claims@.map_values(|s: String| s@);
    let mut r: Vec<String> = Vec::new();
    let mut i: usize = 0;
    while i < claims.len()
        invariant
            i <= claims@.len(),
            ex == existing@.map_values(|s: String| s@),
            cl == claims@.map_values(|s: String| s@),
            r@.map_values(|s: String| s@) == new_labels(ex, cl, i as int),
        decreases claims@.len() - i,
    {
        let l = claims[i].as_str();
        let in_existing = contains_label(existing, l);
        let in_new = contains_label(&r, l);
        assert(cl[i as int] == l@);
        if !in_existing && !in_new {
            r.push(claims[i].clone());
            assert(r@.map_values(|s: String| s@) =~= new_labels(ex, cl, i as int).push(l@));
        }
        i = i + 1;
    }
    r
}

/// Conflict state after an update: new classification labels raise a
/// classification conflict unless one (or several) is already recorded.
pub open spec fn conflict_after_spec(prev: ConflictState, new_labels_found: bool) -> ConflictState {
    if new_labels_found && !(prev == ConflictState::ClassificationConflict || prev == ConflictState::MultipleConflicts) {
        ConflictState::ClassificationConflict
    } else {
        prev
    }
}

pub fn conflict_after(prev: ConflictState, new_labels_found: bool) -> (r: ConflictState)
    ensures
        r == conflict_after_spec(prev, new_labels_found),
{
    if new_labels_found {
        match prev {
            ConflictState::ClassificationConflict | ConflictState::MultipleConflicts => prev,
            _ => ConflictState::ClassificationConflict,
        }
    } else {
        prev
    }
}

/// Only new labels change a track's conflict state, and an update never
/// clears a recorded conflict: without new labels the state is kept as it
/// was; with new labels the track ends in a classification conflict, or
/// stays in multiple conflicts if it already was there.
pub proof fn law_conflict_changes_only_on_new_labels(prev: ConflictState, new_labels_found: bool)
    ensures
        !new_labels_found ==> conflict_after_spec(prev, new_labels_found) == prev,
        new_labels_found ==> (conflict_after_spec(prev, new_labels_found) == ConflictState::MultipleConflicts
            <==> prev == ConflictState::MultipleConflicts),
        new_labels_found && prev != ConflictState::MultipleConflicts
            ==> conflict_after_spec(prev, new_labels_found) == ConflictState::ClassificationConflict,
        prev != ConflictState::NoConflict ==> conflict_after_spec(prev, new_labels_found) != ConflictState::NoConflict,
{
}

proof fn lemma_no_new_labels(existing: Seq<Seq<char>>, claims: Seq<Seq<char>>, n: int)
    requires
        0 <= n <= claims.len(),
        forall|i: int| 0 <= i < claims.len() ==> existing.contains(#[trigger] claims[i]),
    ensures
        new_labels(existing, claims, n) == Seq::<Seq<char>>::empty(),
    decreases n,
{
    if n > 0 {
        lemma_no_new_labels(existing, claims, n - 1);
        assert(existing.contains(claims[n - 1]));
    }
}

/// An associated observation whose claims the track already holds leaves
/// the track's labels and its conflict state as they were: a recorded
/// classification conflict is never cleared by such an update.
pub proof fn law_known_claims_keep_conflict(t: TrackView, claims: Seq<Seq<char>>, system: Seq<char>, sensor: Seq<char>,
    integrity: Integrity)
    requires
        forall|i: int| 0 <= i < claims.len() ==> t.labels.contains(#[trigger] claims[i]),
    ensures
        updated(t, claims, system, sensor, integrity).conflict == t.conflict,
        updated(t, claims, system, sensor, integrity).labels == t.labels,
{
    lemma_no_new_labels(t.labels, claims, claims.len() as int);
    assert(t.labels + Seq::<Seq<char>>::empty() =~= t.labels);
}

/// Index of the first contribution from (`system`, `sensor`) among
/// `contribs[0..n]`.
pub open spec fn contribution_at(contribs: Seq<(Seq<char>, Seq<char>)>, system: Seq<char>, sensor: Seq<char>, n: int)
    -> Option<int>
    decreases n,
{
    if n <= 0 {
        None
    } else {
        match contribution_at(contribs, system, sensor, n - 1) {
            Some(i) => Some(i),
            None => if contribs[n - 1] == (system, sensor) { Some(n - 1) } else { None },
        }
    }
}

proof fn lemma_contribution_stable(contribs: Seq<(Seq<char>, Seq<char>)>, system: Seq<char>, sensor: Seq<char>, n: int, m: int)
    requires
        0 <= n <= m,
        contribution_at(contribs, system, sensor, n) is Some,
    ensures
        contribution_at(contribs, system, sensor, m) == contribution_at(contribs, system, sensor, n),
    decreases m - n,
{
    if m > n {
        lemma_contribution_stable(contribs, system, sensor, n, m - 1);
    }
}

/// Which existing source contribution an observation from (`system`,
/// `sensor`) reinforces; `None` when the pair contributes for the first time.
pub fn contribution_index(contribs: &Vec<(String, String)>, system: &str, sensor: &str) -> (r: Option<usize>)
    ensures
        r == (match contribution_at(contribs@.map_values(|p: (String, String)| (p.0@, p.1@)), system@, sensor@,
            contribs@.len() as int) {
            Some(i) => Some(i as usize),
            None => None::<usize>,
        }),
{
    let ghost v = contribs@.map_values(|p: (String, String)| (p.0@, p.1@));
    let mut i: usize = 0;
    while i < contribs.len()
        invariant
            i <= contribs@.len(),
            v == contribs@.map_values(|p: (String, String)| (p.0@, p.1@)),
            contribution_at(v, system@, sensor@, i as int) is None,
        decreases contribs@.len() - i,
    {
        let same_sensor = str_eq(contribs[i].1.as_str(), sensor);
        let same_system = str_eq(contribs[i].0.as_str(), system);
        if same_sensor && same_system {
            assert(v[i as int] == (system@, sensor@));
            proof { lemma_contribution_stable(v, system@, sensor@, i as int + 1, contribs@.len() as int); }
            return Some(i);
        }
        assert(v[i as int] != (system@, sensor@));
        i = i + 1;
    }
    None
}

/// Status and freshness of a track after aging, and whether it retired.
pub open spec fn aged(status: TrackStatus, freshness: FreshnessState, past_retire: bool, past_stale: bool)
    -> (TrackStatus, FreshnessState, bool)
{
    if past_retire {
        (TrackStatus::Retired, FreshnessState::Stale, true)
    } else if past_stale {
        (TrackStatus::Coasting, FreshnessState::Aging, false)
    } else {
        (status, freshness, false)
    }
}

/// Ages a track: past the retirement age it retires and goes stale; past
/// the staleness age it coasts; otherwise it is left as it is.
pub fn age_track(status: TrackStatus, freshness: FreshnessState, past_retire: bool, past_stale: bool)
    -> (r: (TrackStatus, FreshnessState, bool))
    ensures
        r == aged(status, freshness, past_retire, past_stale),
{
    if past_retire {
        (TrackStatus::Retired, FreshnessState::Stale, true)
    } else if past_stale {
        (TrackStatus::Coasting, FreshnessState::Aging, false)
    } else {
        (status, freshness, false)
    }
}

/// Observation identifiers already integrated and the deterministic
/// sequence reached by each track.
pub struct TrackLedger {
    seen: HashSet<u128>,
    sequences: HashMap<u128, u64>,
}

impl TrackLedger {
    /// The observation identifiers integrated so far.
    pub closed spec fn seen(&self) -> Set<u128> {
        self.seen@
    }

    /// The last deterministic sequence issued to `track` (0 before the first).
    pub closed spec fn sequence(&self, track: u128) -> u64 {
        if self.sequences@.contains_key(track) { self.sequences@[track] } else { 0 }
    }

    pub fn new() -> (r: TrackLedger)
        ensures
            r.seen() == Set::<u128>::empty(),
            forall|t: u128| r.sequence(t) == 0,
    {
        TrackLedger { seen: HashSet::new(), sequences: HashMap::new() }
    }

    /// Records that observation `id` is being integrated; `false` when it
    /// already was (the engine then rejects it as a duplicate).
    pub fn record_observation(&mut self, id: u128) -> (newly: bool)
        ensures
            newly == !old(self).seen().contains(id),
            final(self).seen() == old(self).seen().insert(id),
            forall|t: u128| final(self).sequence(t) == old(self).sequence(t),
    {
        broadcast use vstd::std_specs::hash::group_hash_axioms;
        self.seen.insert(id)
    }

    /// The last deterministic sequence issued to `track` (0 before the first).
    pub fn last_sequence(&self, track: u128) -> (r: u64)
        ensures
            r == self.sequence(track),
    {
        broadcast use vstd::std_specs::hash::group_hash_axioms;
        match self.sequences.get(&track) {
            Some(s) => *s,
            None => 0,
        }
    }

    /// Issues the next deterministic sequence of `track`: one more than the
    /// last one it was given, starting at 1.
    pub fn next_seq(&mut self, track: u128) -> (r: u64)
        requires
            old(self).sequence(track) < u64::MAX,
        ensures
            r == old(self).sequence(track) + 1,
            final(self).sequence(track) == r,
            forall|t: u128| t != track ==> final(self).sequence(t) == old(self).sequence(t),
            final(self).seen() == old(self).seen(),
    {
        broadcast use vstd::std_specs::hash::group_hash_axioms;
        let n = self.last_sequence(track) + 1;
        self.sequences.insert(track, n);
        n
    }
}

/// The value of bytes read big-endian into 128 bits (only the last 16
/// bytes remain).
pub open spec fn be_fold(b: Seq<u8>) -> u128
    decreases b.len(),
{
    if b.len() == 0 {
        0
    } else {
        (be_fold(b.drop_last()) << 8u128) | (b.last() as u128)
    }
}

/// Forces a 128-bit value into the version-4, RFC 4122 variant layout.
pub open spec fn as_uuid_v4(x: u128) -> u128 {
    (x & 0xFFFFFFFFFFFF4FFFBFFFFFFFFFFFFFFFu128) | 0x40008000000000000000u128
}

/// The bytes hashed for the `counter`-th id of a seeded stream: the seed's
/// UTF-8 bytes, then the counter's eight big-endian bytes.
pub open spec fn seeded_input(seed: Seq<char>, counter: u64) -> Seq<u8> {
    vstd::utf8::encode_utf8(seed) + be_bytes(counter as nat, 8)
}

/// The `counter`-th track id of the stream seeded by `seed`: the first 16
/// bytes of SHA-256 over the seed and counter, laid out as a version-4 UUID.
pub open spec fn seeded_id(seed: Seq<char>, counter: u64) -> u128 {
    as_uuid_v4(be_fold(sha256_spec(seeded_input(seed, counter)).take(16)))
}

/// The `n` ids a seeded stream issues from position `from` on.
pub open spec fn seeded_stream(seed: Seq<char>, from: u64, n: nat) -> Seq<u128> {
    Seq::new(n, |k: int| seeded_id(seed, (from + k) as u64))
}

proof fn lemma_as_uuid_v4(x: u128)
    ensures
        is_uuid_v4(as_uuid_v4(x)),
{
    assert((((x & 0xFFFFFFFFFFFF4FFFBFFFFFFFFFFFFFFFu128) | 0x40008000000000000000u128) & 0xF000C000000000000000u128)
        == 0x40008000000000000000u128) by (bit_vector);
}

fn fold_first_16(b: &Vec<u8>) -> (r: u128)
    requires
        b@.len() >= 16,
    ensures
        r == be_fold(b@.take(16)),
{
    let mut acc: u128 = 0;
    let mut i: usize = 0;
    while i < 16
        invariant
            i <= 16,
            b@.len() >= 16,
            acc == be_fold(b@.take(i as int)),
        decreases 16 - i,
    {
        assert(b@.take(i as int + 1).drop_last() =~= b@.take(i as int));
        acc = (acc << 8u128) | (b[i] as u128);
        i = i + 1;
    }
    acc
}

/// A reproducible source of track ids: the stream is a function of the
/// seed alone, so two runs seeded alike issue the same ids in the same order.
#[derive(Debug, Clone)]
pub struct DeterministicIdSource {
    seed: String,
    issued: u64,
}

impl DeterministicIdSource {
    /// The seed of the stream.
    pub closed spec fn seed(&self) -> Seq<char> {
        self.seed@
    }

    /// How many ids were issued so far.
    pub closed spec fn issued(&self) -> u64 {
        self.issued
    }

    /// A source at the start of the stream seeded by `seed`.
    pub fn from_seed(seed: &str) -> (r: DeterministicIdSource)
        ensures
            r.seed() == seed@,
            r.issued() == 0,
    {
        DeterministicIdSource { seed: seed.to_string(), issued: 0 }
    }

    /// How many ids were issued so far.
    pub fn issued_count(&self) -> (r: u64)
        ensures
            r == self.issued(),
    {
        self.issued
    }

    /// The next id of the stream: `seeded_id(seed, issued)`, a version-4 UUID.
    pub fn next_track_id(&mut self) -> (r: TrackId)
        requires
            old(self).issued() < u64::MAX,
        ensures
            r.0 == seeded_id(old(self).seed(), old(self).issued()),
            is_uuid_v4(r.0),
            final(self).seed() == old(self).seed(),
            final(self).issued() == old(self).issued() + 1,
    {
        let mut buf: Vec<u8> = Vec::new();
        append_str(&mut buf, self.seed.as_str());
        let c = u64_be(self.issued);
        append_bytes(&mut buf, c.as_slice());
        assert(buf@ =~= seeded_input(self.seed@, self.issued));
        let d = sha256(buf.as_slice());
        let x = fold_first_16(&d);
        let id = (x & 0xFFFFFFFFFFFF4FFFBFFFFFFFFFFFFFFFu128) | 0x40008000000000000000u128;
        proof {
            lemma_as_uuid_v4(x);
        }
        self.issued = self.issued + 1;
        TrackId(id)
    }
}

/// Same seed, same stream: two sources with the same seed at the same
/// position issue the same ids from there on, however many are drawn.
pub proof fn law_same_seed_same_stream(a: DeterministicIdSource, b: DeterministicIdSource, n: nat)
    requires
        a.seed() == b.seed(),
        a.issued() == b.issued(),
    ensures
        seeded_stream(a.seed(), a.issued(), n) == seeded_stream(b.seed(), b.issued(), n),
{
}

/// Ingest is idempotent: once an observation was recorded, recording it
/// again reports it as already seen and leaves the ledger's set unchanged.
pub proof fn law_ingest_is_idempotent(before: Set<u128>, after: Set<u128>, id: u128)
    requires
        after == before.insert(id),
    ensures
        after.contains(id),
        after.insert(id) == after,
{
    assert(after.insert(id) =~= after);
}

/// What the engine decides about one track; its geometry, confidence and
/// timestamps are held by the caller, index for index.
#[derive(Debug)]
pub struct TrackRecord {
    pub track_id: u128,
    pub status: TrackStatus,
    pub freshness: FreshnessState,
    pub conflict: ConflictState,
    /// Labels of the classification hypotheses, in the order they were added.
    pub labels: Vec<String>,
    /// (source system, sensor) of each contribution, in the order they were added.
    pub contributions: Vec<(String, String)>,
    pub integrity: Integrity,
}

/// A track record as the contracts read it.
#[verifier::ext_equal]
pub struct TrackView {
    pub track_id: u128,
    pub status: TrackStatus,
    pub freshness: FreshnessState,
    pub conflict: ConflictState,
    pub labels: Seq<Seq<char>>,
    pub contributions: Seq<(Seq<char>, Seq<char>)>,
    pub integrity: Integrity,
}

pub open spec fn label_view(v: Seq<String>) -> Seq<Seq<char>> {
    v.map_values(|s: String| s@)
}

pub open spec fn pair_view(v: Seq<(String, String)>) -> Seq<(Seq<char>, Seq<char>)> {
    v.map_values(|p: (String, String)| (p.0@, p.1@))
}

pub open spec fn track_view(r: TrackRecord) -> TrackView {
    TrackView {
        track_id: r.track_id,
        status: r.status,
        freshness: r.freshness,
        conflict: r.conflict,
        labels: label_view(r.labels@),
        contributions: pair_view(r.contributions@),
        integrity: r.integrity,
    }
}

/// The track a fresh observation starts.
pub open spec fn initiated(track_id: u128, claims: Seq<Seq<char>>, system: Seq<char>, sensor: Seq<char>, integrity: Integrity)
    -> TrackView
{
    TrackView {
        track_id,
        status: TrackStatus::Tentative,
        freshness: FreshnessState::Fresh,
        conflict: ConflictState::NoConflict,
        labels: claims,
        contributions: seq![(system, sensor)],
        integrity,
    }
}

/// A track after an observation from (`system`, `sensor`) with `claims`
/// and `integrity` associated with it: active and fresh, new labels added
/// (raising a classification conflict), the contribution recorded once,
/// and the integrity fused with the observation's.
pub open spec fn updated(t: TrackView, claims: Seq<Seq<char>>, system: Seq<char>, sensor: Seq<char>, integrity: Integrity)
    -> TrackView
{
    let added = new_labels(t.labels, claims, claims.len() as int);
    TrackView {
        track_id: t.track_id,
        status: TrackStatus::Active,
        freshness: FreshnessState::Fresh,
        conflict: conflict_after_spec(t.conflict, added.len() > 0),
        labels: t.labels + added,
        contributions: match contribution_at(t.contributions, system, sensor, t.contributions.len() as int) {
            Some(_) => t.contributions,
            None => t.contributions.push((system, sensor)),
        },
        integrity: fused_integrity(t.integrity, integrity),
    }
}

fn clone_strings(v: &Vec<String>) -> (r: Vec<String>)
    ensures
        r@ == v@,
{
    let mut r: Vec<String> = Vec::new();
    let mut i: usize = 0;
    while i < v.len()
        invariant
            i <= v@.len(),
            r@ == v@.subrange(0, i as int),
        decreases v@.len() - i,
    {
        r.push(v[i].clone());
        i = i + 1;
        assert(r@ =~= v@.subrange(0, i as int));
    }
    assert(r@ =~= v@);
    r
}

/// The tracks of the engine, in creation order, with the ledger of
/// integrated observations and per-track sequences.
pub struct TrackBook {
    records: Vec<TrackRecord>,
    ledger: TrackLedger,
}

impl TrackBook {
    /// The tracks, in creation order.
    pub closed spec fn tracks(&self) -> Seq<TrackView> {
        self.records@.map_values(|r: TrackRecord| track_view(r))
    }

    /// The observation identifiers integrated so far.
    pub closed spec fn seen(&self) -> Set<u128> {
        self.ledger.seen()
    }

    /// The last deterministic sequence issued to a track.
    pub closed spec fn sequence(&self, track: u128) -> u64 {
        self.ledger.sequence(track)
    }

    pub fn new() -> (r: TrackBook)
        ensures
            r.tracks() == Seq::<TrackView>::empty(),
            r.seen() == Set::<u128>::empty(),
            forall|t: u128| r.sequence(t) == 0,
    {
        let r = TrackBook { records: Vec::new(), ledger: TrackLedger::new() };
        assert(r.tracks() =~= Seq::<TrackView>::empty());
        r
    }

    /// The tracks, in creation order.
    pub fn records(&self) -> (r: &Vec<TrackRecord>)
        ensures
            r@.map_values(|x: TrackRecord| track_view(x)) == self.tracks(),
    {
        &self.records
    }

    /// The last deterministic sequence issued to `track` (0 before the first).
    pub fn last_sequence(&self, track: u128) -> (r: u64)
        ensures
            r == self.sequence(track),
    {
        self.ledger.last_sequence(track)
    }

    /// Records that observation `id` is being integrated; `false` when it
    /// already was.
    pub fn record_observation(&mut self, id: u128) -> (newly: bool)
        ensures
            newly == !old(self).seen().contains(id),
            final(self).seen() == old(self).seen().insert(id),
            final(self).tracks() == old(self).tracks(),
            forall|t: u128| final(self).sequence(t) == old(self).sequence(t),
    {
        self.ledger.record_observation(id)
    }

    /// Position of the track `id`, the first one listed.
    pub fn position(&self, id: u128) -> (r: Option<usize>)
        ensures
            match r {
                Some(i) => i < self.tracks().len() && self.tracks()[i as int].track_id == id
                    && forall|j: int| 0 <= j < i ==> self.tracks()[j].track_id != id,
                None => forall|j: int| 0 <= j < self.tracks().len() ==> self.tracks()[j].track_id != id,
            },
    {
        let mut i: usize = 0;
        while i < self.records.len()
            invariant
                i <= self.records@.len(),
                forall|j: int| 0 <= j < i ==> self.tracks()[j].track_id != id,
            decreases self.records@.len() - i,
        {
            assert(self.tracks()[i as int] == track_view(self.records@[i as int]));
            if self.records[i].track_id == id {
                return Some(i);
            }
            i = i + 1;
        }
        None
    }

    /// Starts a track from an observation: tentative, fresh, free of
    /// conflict, holding the observation's claims, source and integrity.
    /// Returns the track's first deterministic sequence.
    pub fn initiate(&mut self, track_id: u128, claims: &Vec<String>, system: &str, sensor: &str, integrity: Integrity)
        -> (r: u64)
        requires
            old(self).sequence(track_id) < u64::MAX,
        ensures
            r == old(self).sequence(track_id) + 1,
            final(self).sequence(track_id) == r,
            forall|t: u128| t != track_id ==> final(self).sequence(t) == old(self).sequence(t),
            final(self).seen() == old(self).seen(),
            final(self).tracks() == old(self).tracks().push(
                initiated(track_id, label_view(claims@), system@, sensor@, integrity)),
    {
        let mut contributions: Vec<(String, String)> = Vec::new();
        contributions.push((system.to_string(), sensor.to_string()));
        let rec = TrackRecord {
            track_id,
            status: TrackStatus::Tentative,
            freshness: FreshnessState::Fresh,
            conflict: ConflictState::NoConflict,
            labels: clone_strings(claims),
            contributions,
            integrity,
        };
        let ghost before = self.records@;
        self.records.push(rec);
        proof {
            assert(pair_view(rec.contributions@) =~= seq![(system@, sensor@)]);
            assert(track_view(rec) =~~= initiated(track_id, label_view(claims@), system@, sensor@, integrity));
            assert(self.tracks() =~= before.map_values(|r: TrackRecord| track_view(r)).push(track_view(rec)));
        }
        self.ledger.next_seq(track_id)
    }

    /// Folds an associated observation into the track at `index`. Returns
    /// the track's next deterministic sequence, the labels that became new
    /// hypotheses, and the position of the contribution it reinforced
    /// (`None` when the source contributes for the first time).
    #[verifier::spinoff_prover]
    pub fn update(&mut self, index: usize, claims: &Vec<String>, system: &str, sensor: &str, integrity: &Integrity)
        -> (r: (u64, Vec<String>, Option<usize>))
        requires
            index < old(self).tracks().len(),
            old(self).sequence(old(self).tracks()[index as int].track_id) < u64::MAX,
        ensures
            ({
                let t = old(self).tracks()[index as int];
                &&& r.0 == old(self).sequence(t.track_id) + 1
                &&& final(self).sequence(t.track_id) == r.0
                &&& forall|x: u128| x != t.track_id ==> final(self).sequence(x) == old(self).sequence(x)
                &&& label_view(r.1@) == new_labels(t.labels, label_view(claims@), claims@.len() as int)
                &&& r.2 == (match contribution_at(t.contributions, system@, sensor@, t.contributions.len() as int) {
                    Some(k) => Some(k as usize),
                    None => None::<usize>,
                })
                &&& final(self).tracks() == old(self).tracks().update(index as int,
                    updated(t, label_view(claims@), system@, sensor@, *integrity))
            }),
            final(self).seen() == old(self).seen(),
    {
        let ghost before = self.records@;
        let ghost t = self.tracks()[index as int];
        let mut rec = self.records.remove(index);
        assert(track_view(rec) == t);
        let added = merge_labels(&rec.labels, claims);
        let mut copy = clone_strings(&added);
        let ghost old_labels = rec.labels@;
        rec.labels.append(&mut copy);
        assert(label_view(rec.labels@) =~= label_view(old_labels) + label_view(added@));
        let found = contribution_index(&rec.contributions, system, sensor);
        let ghost old_contribs = rec.contributions@;
        if found.is_none() {
            rec.contributions.push((system.to_string(), sensor.to_string()));
            assert(pair_view(rec.contributions@) =~= pair_view(old_contribs).push((system@, sensor@)));
        }
        rec.status = TrackStatus::Active;
        rec.freshness = FreshnessState::Fresh;
        rec.conflict = conflict_after(rec.conflict, added.len() > 0);
        rec.integrity = min_integrity(&rec.integrity, integrity);
        let track_id = rec.track_id;
        proof {
            assert(track_view(rec) =~~= updated(t, label_view(claims@), system@, sensor@, *integrity));
        }
        self.records.insert(index, rec);
        proof {
            assert(self.records@ =~= before.update(index as int, rec));
            assert(self.tracks() =~= before.map_values(|r: TrackRecord| track_view(r)).update(index as int, track_view(rec)));
        }
        let seq = self.ledger.next_seq(track_id);
        (seq, added, found)
    }

    /// Ages every track; `past[i]` says whether track `i` is past the
    /// retirement age and past the staleness age. Returns the tracks that
    /// retired, in order.
    #[verifier::spinoff_prover]
    pub fn age(&mut self, past: &Vec<(bool, bool)>) -> (retired: Vec<u128>)
        requires
            past@.len() == old(self).tracks().len(),
        ensures
            final(self).tracks().len() == old(self).tracks().len(),
            forall|i: int| 0 <= i < old(self).tracks().len() ==> {
                let t = old(self).tracks()[i];
                let a = aged(t.status, t.freshness, past@[i].0, past@[i].1);
                #[trigger] final(self).tracks()[i] == TrackView { status: a.0, freshness: a.1, ..t }
            },
            retired@ == retired_ids(old(self).tracks(), past@, past@.len() as int),
            final(self).seen() == old(self).seen(),
            forall|x: u128| final(self).sequence(x) == old(self).sequence(x),
    {
        let mut retired: Vec<u128> = Vec::new();
        let mut i: usize = 0;
        while i < self.records.len()
            invariant
                i <= self.records@.len(),
                past@.len() == self.records@.len(),
                self.records@.len() == old(self).records@.len(),
                self.ledger == old(self).ledger,
                forall|j: int| 0 <= j < self.records@.len() ==> {
                    let t = old(self).tracks()[j];
                    let a = aged(t.status, t.freshness, past@[j].0, past@[j].1);
                    #[trigger] track_view(self.records@[j]) == (if j < i { TrackView { status: a.0, freshness: a.1, ..t } } else { t })
                },
                retired@ == retired_ids(old(self).tracks(), past@, i as int),
            decreases self.records@.len() - i,
        {
            let ghost before = self.records@;
            let ghost prev_retired = retired@;
            let (pr, ps) = past[i];
            let mut rec = self.records.remove(i);
            let ghost t = old(self).tracks()[i as int];
            assert(track_view(before[i as int]) == t);
            assert(rec == before[i as int]);
            let (st, fr, gone) = age_track(rec.status, rec.freshness, pr, ps);
            rec.status = st;
            rec.freshness = fr;
            if gone {
                retired.push(rec.track_id);
            }
            self.records.insert(i, rec);
            proof {
                assert(self.records@ =~= before.update(i as int, rec));
                let a = aged(t.status, t.freshness, past@[i as int].0, past@[i as int].1);
                assert(track_view(rec) =~~= TrackView { status: a.0, freshness: a.1, ..t });
                assert forall|j: int| 0 <= j < self.records@.len() implies {
                    let tj = old(self).tracks()[j];
                    let aj = aged(tj.status, tj.freshness, past@[j].0, past@[j].1);
                    #[trigger] track_view(self.records@[j]) == (if j < i + 1 { TrackView { status: aj.0, freshness: aj.1, ..tj } } else { tj })
                } by {
                    if j != i as int {
                        assert(self.records@[j] == before[j]);
                    }
                }
                assert(gone == past@[i as int].0);
                assert(retired_ids(old(self).tracks(), past@, i as int + 1)
                    == (if past@[i as int].0 { prev_retired.push(t.track_id) } else { prev_retired }));
                assert(retired@ == retired_ids(old(self).tracks(), past@, i as int + 1));
            }
            i = i + 1;
        }
        proof {
            assert forall|j: int| 0 <= j < old(self).tracks().len() implies {
                let t = old(self).tracks()[j];
                let a = aged(t.status, t.freshness, past@[j].0, past@[j].1);
                #[trigger] self.tracks()[j] == TrackView { status: a.0, freshness: a.1, ..t }
            } by {
                assert(self.tracks()[j] == track_view(self.records@[j]));
            }
        }
        retired
    }
}

/// Identifiers of the tracks among `tracks[0..n]` that retire, in order.
pub open spec fn retired_ids(tracks: Seq<TrackView>, past: Seq<(bool, bool)>, n: int) -> Seq<u128>
    decreases n,
{
    if n <= 0 {
        seq![]
    } else {
        let prev = retired_ids(tracks, past, n - 1);
        if past[n - 1].0 { prev.push(tracks[n - 1].track_id) } else { prev }
    }
}

} // verus!
