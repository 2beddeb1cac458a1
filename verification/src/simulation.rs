//! Deterministic replay: the canonical trace digest of a pipeline run.
//!
//! Replaying a scenario twice must give bit-identical traces. The digest is
//! taken over a canonical byte stream of every material field of every
//! track update; classification hypotheses and source contributions enter
//! it sorted, so the digest does not depend on the insertion order of
//! either list. Floating-point quantities enter as the integers they are
//! quantised to (position to 1e-7 degree and 1 mm, confidence to 1e-4,
//! uncertainty magnitude to 1 cm, weights to 1e-3), which the caller
//! computes.

use vstd::prelude::*;
use vstd::utf8::encode_utf8;
use crate::contracts::track::{ConflictState, CorrelationRationale, FreshnessState, TrackStatus};
use crate::digest::{append_bytes, append_str, be_bytes, count_be4, hex_lower, i64_be, sha256_hex, sha256_spec,
    twos_128, u128_be, u32_be, u64_be};
use crate::text::str_eq;
use crate::ordering::{chars_lt, first_above, flat_bytes, insertion_sorted, lemma_chars_lt_irreflexive,
    lemma_chars_lt_total, lemma_chars_lt_transitive, lemma_flat_bytes_by_key, lemma_flat_step, lemma_insertion_sorted,
    lemma_insertion_sorted_map, lemma_sorted_unique, occurrences, strict_order, str_lt};

verus! {

/// Name and versions of a replay scenario.
#[derive(Debug, Clone, PartialEq, Eq)]
pub struct ScenarioManifest {
    pub name: String,
    pub description: String,
    pub adapter_version: String,
    pub normalization_version: String,
    pub track_algorithm_version: String,
    pub policy_digest_hex: String,
}

/// Digest of a track policy, taken over its rendered form.
pub fn policy_digest(rendered_policy: &str) -> (r: String)
    ensures
        r@ == hex_lower(sha256_spec(encode_utf8(rendered_policy@))),
{
    sha256_hex(rendered_policy.as_bytes())
}

/// What the pipeline driver observed at its last step.
#[derive(Debug, Clone, Copy, PartialEq, Eq, Structural)]
pub enum PipelineEvent {
    /// The adapter failed to produce an observation.
    ReadFailed,
    /// The adapter has no more observations.
    SourceExhausted,
    /// The adapter produced an observation.
    ObservationRead,
    /// Normalization produced a canonical observation.
    Normalized,
    /// Normalization refused the observation.
    NormalizationFailed,
    /// The track engine rejected the normalized observation.
    IngestRejected,
    /// The track engine initiated or updated a track.
    TrackUpdated,
}

/// What the pipeline driver does next.
#[derive(Debug, Clone, Copy, PartialEq, Eq, Structural)]
pub enum PipelineAction {
    /// Ask the adapter for the next observation.
    ReadNext,
    /// Normalize the observation just read, stamping this processing sequence.
    Normalize { processing_sequence: u64 },
    /// Hand the normalized observation to the track engine.
    Ingest,
    /// Stop: the run is complete.
    Finish,
}

/// Counters of a pipeline run: observations read, observations rejected at
/// any stage, and track updates produced.
#[derive(Debug, Clone, Copy, PartialEq, Eq, Structural)]
pub struct PipelineTally {
    pub processing_sequence: u64,
    pub rejected: u64,
    pub updates: u64,
}

impl PipelineTally {
    pub fn new() -> (r: PipelineTally)
        ensures
            r == (PipelineTally { processing_sequence: 0, rejected: 0, updates: 0 }),
    {
        PipelineTally { processing_sequence: 0, rejected: 0, updates: 0 }
    }

    /// One step of the adapter -> normalization -> track engine loop: a
    /// failed read, a refused normalization and a rejected ingest each count
    /// one rejection and move on to the next read; a read observation gets
    /// the next processing sequence and is normalized; a normalized one is
    /// ingested; an update is counted; an exhausted source ends the run.
    pub fn step(&mut self, event: PipelineEvent) -> (r: PipelineAction)
        requires
            old(self).processing_sequence < u64::MAX,
            old(self).rejected < u64::MAX,
            old(self).updates < u64::MAX,
        ensures
            match event {
                PipelineEvent::ReadFailed | PipelineEvent::NormalizationFailed | PipelineEvent::IngestRejected =>
                    r == PipelineAction::ReadNext
                    && *final(self) == (PipelineTally { rejected: (old(self).rejected + 1) as u64, ..*old(self) }),
                PipelineEvent::SourceExhausted => r == PipelineAction::Finish && *final(self) == *old(self),
                PipelineEvent::Normalized => r == PipelineAction::Ingest && *final(self) == *old(self),
                PipelineEvent::ObservationRead =>
                    r == (PipelineAction::Normalize { processing_sequence: (old(self).processing_sequence + 1) as u64 })
                    && *final(self) == (PipelineTally {
                        processing_sequence: (old(self).processing_sequence + 1) as u64, ..*old(self) }),
                PipelineEvent::TrackUpdated => r == PipelineAction::ReadNext
                    && *final(self) == (PipelineTally { updates: (old(self).updates + 1) as u64, ..*old(self) }),
            },
    {
        match event {
            PipelineEvent::ReadFailed | PipelineEvent::NormalizationFailed | PipelineEvent::IngestRejected => {
                self.rejected = self.rejected + 1;
                PipelineAction::ReadNext
            },
            PipelineEvent::SourceExhausted => PipelineAction::Finish,
            PipelineEvent::Normalized => PipelineAction::Ingest,
            PipelineEvent::ObservationRead => {
                self.processing_sequence = self.processing_sequence + 1;
                PipelineAction::Normalize { processing_sequence: self.processing_sequence }
            },
            PipelineEvent::TrackUpdated => {
                self.updates = self.updates + 1;
                PipelineAction::ReadNext
            },
        }
    }
}

/// One track update, as the trace digest reads it.
#[derive(Debug, Clone)]
pub struct TraceUpdate {
    pub deterministic_sequence: u64,
    pub algorithm_version: String,
    pub track_id: u128,
    pub correlation_rationale: CorrelationRationale,
    pub status: TrackStatus,
    pub freshness_state: FreshnessState,
    pub conflict_state: ConflictState,
    /// Latitude and longitude in 1e-7 degree and altitude in mm, when the
    /// position is known.
    pub position_quantised: Option<(i64, i64, i64)>,
    /// Confidence in units of 1e-4.
    pub confidence_quantised: i64,
    /// Position-uncertainty magnitude in cm, when known.
    pub uncertainty_quantised: Option<i64>,
    /// Classification hypotheses: label, confidence in 1e-4, supporting sources.
    pub classifications: Vec<(String, i64, u32)>,
    /// Source contributions: source system, sensor, weight in 1e-3.
    pub sources: Vec<(String, String, i64)>,
    /// The rendered integrity state of the track.
    pub integrity_text: String,
    pub contributing_observations: usize,
    pub rejected_observations: usize,
}

/// The outcome of a pipeline run, as the trace digest reads it.
#[derive(Debug, Clone)]
pub struct TraceOutcome {
    pub scenario_name: String,
    pub rejected_count: u64,
    pub updates: Vec<TraceUpdate>,
}

/// Classification hypotheses are ordered by label.
pub open spec fn class_order() -> spec_fn((String, i64, u32), (String, i64, u32)) -> bool {
    |x: (String, i64, u32), y: (String, i64, u32)| chars_lt(x.0@, y.0@)
}

/// Source contributions are ordered by source system, then sensor, then weight.
pub open spec fn source_order() -> spec_fn((String, String, i64), (String, String, i64)) -> bool {
    |x: (String, String, i64), y: (String, String, i64)|
        chars_lt(x.0@, y.0@) || (x.0@ == y.0@ && (chars_lt(x.1@, y.1@) || (x.1@ == y.1@ && x.2 < y.2)))
}

fn class_above(x: &(String, i64, u32), y: &(String, i64, u32)) -> (r: bool)
    ensures
        r == (class_order())(*x, *y),
{
    str_lt(x.0.as_str(), y.0.as_str())
}

fn source_above(x: &(String, String, i64), y: &(String, String, i64)) -> (r: bool)
    ensures
        r == (source_order())(*x, *y),
{
    if str_lt(x.0.as_str(), y.0.as_str()) {
        true
    } else if !str_eq(x.0.as_str(), y.0.as_str()) {
        false
    } else if str_lt(x.1.as_str(), y.1.as_str()) {
        true
    } else if !str_eq(x.1.as_str(), y.1.as_str()) {
        false
    } else {
        x.2 < y.2
    }
}

/// The elements of `s` at the positions listed in `idx`.
pub open spec fn pick<A>(s: Seq<A>, idx: Seq<usize>) -> Seq<A> {
    idx.map_values(|k: usize| s[k as int])
}

proof fn lemma_pick_insert<A>(s: Seq<A>, idx: Seq<usize>, p: int, k: usize)
    requires
        0 <= p <= idx.len(),
    ensures
        pick(s, idx.insert(p, k)) == pick(s, idx).insert(p, s[k as int]),
{
    assert(pick(s, idx.insert(p, k)) =~= pick(s, idx).insert(p, s[k as int]));
}

/// The order in which stable insertion sort lists the classifications.
fn class_sort_order(cs: &Vec<(String, i64, u32)>) -> (idx: Vec<usize>)
    ensures
        idx@.len() == cs@.len(),
        forall|k: int| 0 <= k < idx@.len() ==> idx@[k] < cs@.len(),
        pick(cs@, idx@) == insertion_sorted(cs@, class_order()),
{
    let mut idx: Vec<usize> = Vec::new();
    let mut i: usize = 0;
    while i < cs.len()
        invariant
            i <= cs@.len(),
            idx@.len() == i,
            forall|k: int| 0 <= k < idx@.len() ==> idx@[k] < i,
            pick(cs@, idx@) == insertion_sorted(cs@.take(i as int), class_order()),
        decreases cs@.len() - i,
    {
        let ghost sorted = pick(cs@, idx@);
        let ghost x = cs@[i as int];
        let mut p: usize = 0;
        let mut found = false;
        while p < idx.len() && !found
            invariant
                p <= idx@.len(),
                sorted == pick(cs@, idx@),
                x == cs@[i as int],
                i < cs@.len(),
                forall|k: int| 0 <= k < idx@.len() ==> idx@[k] < i,
                found ==> p < idx@.len() && (class_order())(x, sorted[p as int]),
                !found ==> first_above(sorted, x, class_order(), 0) == first_above(sorted, x, class_order(), p as int),
                found ==> first_above(sorted, x, class_order(), 0) == p,
            decreases idx@.len() - p + (if found { 0int } else { 1int }),
        {
            let k = idx[p];
            if class_above(&cs[i], &cs[k]) {
                found = true;
            } else {
                p = p + 1;
            }
        }
        proof {
            lemma_pick_insert(cs@, idx@, p as int, i);
            assert(cs@.take(i as int + 1).drop_last() =~= cs@.take(i as int));
            assert(cs@.take(i as int + 1).last() == x);
        }
        idx.insert(p, i);
        i = i + 1;
    }
    assert(cs@.take(cs@.len() as int) =~= cs@);
    idx
}

/// The order in which stable insertion sort lists the source contributions.
fn source_sort_order(cs: &Vec<(String, String, i64)>) -> (idx: Vec<usize>)
    ensures
        idx@.len() == cs@.len(),
        forall|k: int| 0 <= k < idx@.len() ==> idx@[k] < cs@.len(),
        pick(cs@, idx@) == insertion_sorted(cs@, source_order()),
{
    let mut idx: Vec<usize> = Vec::new();
    let mut i: usize = 0;
    while i < cs.len()
        invariant
            i <= cs@.len(),
            idx@.len() == i,
            forall|k: int| 0 <= k < idx@.len() ==> idx@[k] < i,
            pick(cs@, idx@) == insertion_sorted(cs@.take(i as int), source_order()),
        decreases cs@.len() - i,
    {
        let ghost sorted = pick(cs@, idx@);
        let ghost x = cs@[i as int];
        let mut p: usize = 0;
        let mut found = false;
        while p < idx.len() && !found
            invariant
                p <= idx@.len(),
                sorted == pick(cs@, idx@),
                x == cs@[i as int],
                i < cs@.len(),
                forall|k: int| 0 <= k < idx@.len() ==> idx@[k] < i,
                found ==> p < idx@.len() && (source_order())(x, sorted[p as int]),
                !found ==> first_above(sorted, x, source_order(), 0) == first_above(sorted, x, source_order(), p as int),
                found ==> first_above(sorted, x, source_order(), 0) == p,
            decreases idx@.len() - p + (if found { 0int } else { 1int }),
        {
            let k = idx[p];
            if source_above(&cs[i], &cs[k]) {
                found = true;
            } else {
                p = p + 1;
            }
        }
        proof {
            lemma_pick_insert(cs@, idx@, p as int, i);
            assert(cs@.take(i as int + 1).drop_last() =~= cs@.take(i as int));
            assert(cs@.take(i as int + 1).last() == x);
        }
        idx.insert(p, i);
        i = i + 1;
    }
    assert(cs@.take(cs@.len() as int) =~= cs@);
    idx
}

pub open spec fn class_bytes() -> spec_fn((String, i64, u32)) -> Seq<u8> {
    |c: (String, i64, u32)| encode_utf8(c.0@) + be_bytes(twos_128(c.1 as int), 8) + be_bytes(c.2 as nat, 4)
}

pub open spec fn source_bytes() -> spec_fn((String, String, i64)) -> Seq<u8> {
    |c: (String, String, i64)| encode_utf8(c.0@) + encode_utf8(c.1@) + be_bytes(twos_128(c.2 as int), 8)
}

pub open spec fn rationale_name(r: CorrelationRationale) -> Seq<char> {
    match r {
        CorrelationRationale::NewTrack => "NewTrack"@,
        CorrelationRationale::AssociatedByGate => "AssociatedByGate"@,
        CorrelationRationale::AssociatedByClassification => "AssociatedByClassification"@,
        CorrelationRationale::ManualOperatorAssociation => "ManualOperatorAssociation"@,
        CorrelationRationale::NoAssociation => "NoAssociation"@,
    }
}

pub open spec fn status_name(s: TrackStatus) -> Seq<char> {
    match s {
        TrackStatus::Tentative => "Tentative"@,
        TrackStatus::Active => "Active"@,
        TrackStatus::Coasting => "Coasting"@,
        TrackStatus::Stale => "Stale"@,
        TrackStatus::Retired => "Retired"@,
    }
}

pub open spec fn freshness_name(f: FreshnessState) -> Seq<char> {
    match f {
        FreshnessState::Fresh => "Fresh"@,
        FreshnessState::Aging => "Aging"@,
        FreshnessState::Stale => "Stale"@,
    }
}

/// The conflict-free state is named `None` on the wire and in traces.
pub open spec fn conflict_name(c: ConflictState) -> Seq<char> {
    match c {
        ConflictState::NoConflict => "None"@,
        ConflictState::ClassificationConflict => "ClassificationConflict"@,
        ConflictState::PositionConflict => "PositionConflict"@,
        ConflictState::MultipleConflicts => "MultipleConflicts"@,
    }
}

fn rationale_text(r: CorrelationRationale) -> (s: &'static str)
    ensures
        s@ == rationale_name(r),
{
    match r {
        CorrelationRationale::NewTrack => "NewTrack",
        CorrelationRationale::AssociatedByGate => "AssociatedByGate",
        CorrelationRationale::AssociatedByClassification => "AssociatedByClassification",
        CorrelationRationale::ManualOperatorAssociation => "ManualOperatorAssociation",
        CorrelationRationale::NoAssociation => "NoAssociation",
    }
}

fn status_text(s: TrackStatus) -> (t: &'static str)
    ensures
        t@ == status_name(s),
{
    match s {
        TrackStatus::Tentative => "Tentative",
        TrackStatus::Active => "Active",
        TrackStatus::Coasting => "Coasting",
        TrackStatus::Stale => "Stale",
        TrackStatus::Retired => "Retired",
    }
}

fn freshness_text(f: FreshnessState) -> (t: &'static str)
    ensures
        t@ == freshness_name(f),
{
    match f {
        FreshnessState::Fresh => "Fresh",
        FreshnessState::Aging => "Aging",
        FreshnessState::Stale => "Stale",
    }
}

fn conflict_text(c: ConflictState) -> (t: &'static str)
    ensures
        t@ == conflict_name(c),
{
    match c {
        ConflictState::NoConflict => "None",
        ConflictState::ClassificationConflict => "ClassificationConflict",
        ConflictState::PositionConflict => "PositionConflict",
        ConflictState::MultipleConflicts => "MultipleConflicts",
    }
}

/// Identity and state names of an update.
pub open spec fn update_head(u: TraceUpdate) -> Seq<u8> {
    be_bytes(u.deterministic_sequence as nat, 8)
        + encode_utf8(u.algorithm_version@)
        + be_bytes(u.track_id as nat, 16)
        + encode_utf8(rationale_name(u.correlation_rationale))
        + encode_utf8(status_name(u.status))
        + encode_utf8(freshness_name(u.freshness_state))
        + encode_utf8(conflict_name(u.conflict_state))
}

/// Quantised position (when known), confidence and uncertainty (when known).
pub open spec fn update_kinematics(u: TraceUpdate) -> Seq<u8> {
    (match u.position_quantised {
        Some((lat, lon, alt)) => be_bytes(twos_128(lat as int), 8) + be_bytes(twos_128(lon as int), 8)
            + be_bytes(twos_128(alt as int), 8),
        None => seq![],
    })
        + be_bytes(twos_128(u.confidence_quantised as int), 8)
        + (match u.uncertainty_quantised {
            Some(m) => be_bytes(twos_128(m as int), 8),
            None => seq![],
        })
}

/// Sorted hypotheses and contributions, integrity and observation counts.
pub open spec fn update_tail(u: TraceUpdate) -> Seq<u8> {
    be_bytes(u.classifications@.len(), 4)
        + flat_bytes(insertion_sorted(u.classifications@, class_order()), class_bytes())
        + be_bytes(u.sources@.len(), 4)
        + flat_bytes(insertion_sorted(u.sources@, source_order()), source_bytes())
        + encode_utf8(u.integrity_text@)
        + be_bytes(u.contributing_observations as nat, 4)
        + be_bytes(u.rejected_observations as nat, 4)
}

/// The canonical bytes of one update.
pub open spec fn update_bytes(u: TraceUpdate) -> Seq<u8> {
    update_head(u) + update_kinematics(u) + update_tail(u)
}

pub open spec fn update_bytes_fn() -> spec_fn(TraceUpdate) -> Seq<u8> {
    |u: TraceUpdate| update_bytes(u)
}

/// The canonical byte stream of a run: scenario name, rejected count, update
/// count, then every update in order.
pub open spec fn trace_bytes(o: TraceOutcome) -> Seq<u8> {
    encode_utf8(o.scenario_name@)
        + be_bytes(o.rejected_count as nat, 8)
        + be_bytes(o.updates@.len(), 8)
        + flat_bytes(o.updates@, update_bytes_fn())
}

fn append_classes(buf: &mut Vec<u8>, cs: &Vec<(String, i64, u32)>)
    ensures
        final(buf)@ == old(buf)@ + flat_bytes(insertion_sorted(cs@, class_order()), class_bytes()),
{
    let idx = class_sort_order(cs);
    let ghost sorted = pick(cs@, idx@);
    let mut j: usize = 0;
    while j < idx.len()
        invariant
            j <= idx@.len(),
            sorted == pick(cs@, idx@),
            idx@.len() == cs@.len(),
            forall|k: int| 0 <= k < idx@.len() ==> idx@[k] < cs@.len(),
            buf@ == old(buf)@ + flat_bytes(sorted.take(j as int), class_bytes()),
        decreases idx@.len() - j,
    {
        let c = &cs[idx[j]];
        let ghost before = buf@;
        append_str(buf, c.0.as_str());
        let b = i64_be(c.1);
        append_bytes(buf, b.as_slice());
        let b2 = u32_be(c.2);
        append_bytes(buf, b2.as_slice());
        proof {
            lemma_flat_step(sorted, class_bytes(), j as int);
            assert(sorted[j as int] == *c);
            assert(buf@ =~= before + (class_bytes())(*c));
        }
        j = j + 1;
    }
    assert(sorted.take(idx@.len() as int) =~= sorted);
}

fn append_sources(buf: &mut Vec<u8>, cs: &Vec<(String, String, i64)>)
    ensures
        final(buf)@ == old(buf)@ + flat_bytes(insertion_sorted(cs@, source_order()), source_bytes()),
{
    let idx = source_sort_order(cs);
    let ghost sorted = pick(cs@, idx@);
    let mut j: usize = 0;
    while j < idx.len()
        invariant
            j <= idx@.len(),
            sorted == pick(cs@, idx@),
            idx@.len() == cs@.len(),
            forall|k: int| 0 <= k < idx@.len() ==> idx@[k] < cs@.len(),
            buf@ == old(buf)@ + flat_bytes(sorted.take(j as int), source_bytes()),
        decreases idx@.len() - j,
    {
        let c = &cs[idx[j]];
        let ghost before = buf@;
        append_str(buf, c.0.as_str());
        append_str(buf, c.1.as_str());
        let b = i64_be(c.2);
        append_bytes(buf, b.as_slice());
        proof {
            lemma_flat_step(sorted, source_bytes(), j as int);
            assert(sorted[j as int] == *c);
            assert(buf@ =~= before + (source_bytes())(*c));
        }
        j = j + 1;
    }
    assert(sorted.take(idx@.len() as int) =~= sorted);
}

fn append_update_head(buf: &mut Vec<u8>, u: &TraceUpdate)
    ensures
        final(buf)@ == old(buf)@ + update_head(*u),
{
    let s = u64_be(u.deterministic_sequence);
    append_bytes(buf, s.as_slice());
    append_str(buf, u.algorithm_version.as_str());
    let t = u128_be(u.track_id);
    append_bytes(buf, t.as_slice());
    append_str(buf, rationale_text(u.correlation_rationale));
    append_str(buf, status_text(u.status));
    append_str(buf, freshness_text(u.freshness_state));
    append_str(buf, conflict_text(u.conflict_state));
    assert(buf@ =~= old(buf)@ + update_head(*u));
}

fn append_update_kinematics(buf: &mut Vec<u8>, u: &TraceUpdate)
    ensures
        final(buf)@ == old(buf)@ + update_kinematics(*u),
{
    match u.position_quantised {
        Some((lat, lon, alt)) => {
            let a = i64_be(lat);
            append_bytes(buf, a.as_slice());
            let b = i64_be(lon);
            append_bytes(buf, b.as_slice());
            let c = i64_be(alt);
            append_bytes(buf, c.as_slice());
        },
        None => {},
    }
    let c = i64_be(u.confidence_quantised);
    append_bytes(buf, c.as_slice());
    match u.uncertainty_quantised {
        Some(m) => {
            let mb = i64_be(m);
            append_bytes(buf, mb.as_slice());
        },
        None => {},
    }
    assert(buf@ =~= old(buf)@ + update_kinematics(*u));
}

fn append_update_tail(buf: &mut Vec<u8>, u: &TraceUpdate)
    ensures
        final(buf)@ == old(buf)@ + update_tail(*u),
{
    let n1 = count_be4(u.classifications.len());
    append_bytes(buf, n1.as_slice());
    append_classes(buf, &u.classifications);
    let n2 = count_be4(u.sources.len());
    append_bytes(buf, n2.as_slice());
    append_sources(buf, &u.sources);
    append_str(buf, u.integrity_text.as_str());
    let k1 = count_be4(u.contributing_observations);
    append_bytes(buf, k1.as_slice());
    let k2 = count_be4(u.rejected_observations);
    append_bytes(buf, k2.as_slice());
    assert(buf@ =~= old(buf)@ + update_tail(*u));
}

fn append_update(buf: &mut Vec<u8>, u: &TraceUpdate)
    ensures
        final(buf)@ == old(buf)@ + update_bytes(*u),
{
    append_update_head(buf, u);
    append_update_kinematics(buf, u);
    append_update_tail(buf, u);
    assert(buf@ =~= old(buf)@ + update_bytes(*u));
}

/// The trace digest of a run: lower-case hex SHA-256 of its canonical byte
/// stream. Same run, same digest; see [`trace_bytes`].
pub fn trace_digest(outcome: &TraceOutcome) -> (r: String)
    ensures
        r@ == hex_lower(sha256_spec(trace_bytes(*outcome))),
{
    let mut buf: Vec<u8> = Vec::new();
    append_str(&mut buf, outcome.scenario_name.as_str());
    let r = u64_be(outcome.rejected_count);
    append_bytes(&mut buf, r.as_slice());
    let n = u64_be(outcome.updates.len() as u64);
    append_bytes(&mut buf, n.as_slice());
    let ghost head = buf@;
    let mut i: usize = 0;
    while i < outcome.updates.len()
        invariant
            i <= outcome.updates@.len(),
            buf@ == head + flat_bytes(outcome.updates@.take(i as int), update_bytes_fn()),
        decreases outcome.updates@.len() - i,
    {
        append_update(&mut buf, &outcome.updates[i]);
        proof { lemma_flat_step(outcome.updates@, update_bytes_fn(), i as int); }
        i = i + 1;
    }
    proof {
        assert(outcome.updates@.take(outcome.updates@.len() as int) =~= outcome.updates@);
        assert(buf@ =~= trace_bytes(*outcome));
    }
    sha256_hex(buf.as_slice())
}

/// Replaying gives the same trace: two runs whose outcomes read the same
/// have the same digest stream.
pub proof fn law_same_outcome_same_trace(a: TraceOutcome, b: TraceOutcome)
    requires
        a.scenario_name@ == b.scenario_name@,
        a.rejected_count == b.rejected_count,
        a.updates@ == b.updates@,
    ensures
        trace_bytes(a) == trace_bytes(b),
        hex_lower(sha256_spec(trace_bytes(a))) == hex_lower(sha256_spec(trace_bytes(b))),
{
}

/// What the digest reads of a source contribution.
pub open spec fn source_key() -> spec_fn((String, String, i64)) -> (Seq<char>, Seq<char>, i64) {
    |x: (String, String, i64)| (x.0@, x.1@, x.2)
}

/// The order of source contributions, on what the digest reads of them.
pub open spec fn source_key_order() -> spec_fn((Seq<char>, Seq<char>, i64), (Seq<char>, Seq<char>, i64)) -> bool {
    |a: (Seq<char>, Seq<char>, i64), b: (Seq<char>, Seq<char>, i64)|
        chars_lt(a.0, b.0) || (a.0 == b.0 && (chars_lt(a.1, b.1) || (a.1 == b.1 && a.2 < b.2)))
}

/// What the digest reads of a classification hypothesis.
pub open spec fn class_key() -> spec_fn((String, i64, u32)) -> (Seq<char>, i64, u32) {
    |x: (String, i64, u32)| (x.0@, x.1, x.2)
}

/// The order of classification hypotheses (by label), on what the digest reads.
pub open spec fn class_key_order() -> spec_fn((Seq<char>, i64, u32), (Seq<char>, i64, u32)) -> bool {
    |a: (Seq<char>, i64, u32), b: (Seq<char>, i64, u32)| chars_lt(a.0, b.0)
}

proof fn lemma_source_key_order()
    ensures
        strict_order(source_key_order()),
        forall|a: (Seq<char>, Seq<char>, i64), b: (Seq<char>, Seq<char>, i64)| a != b
            ==> #[trigger] (source_key_order())(a, b) || #[trigger] (source_key_order())(b, a),
{
    let lt = source_key_order();
    assert forall|a: (Seq<char>, Seq<char>, i64)| !#[trigger] lt(a, a) by {
        lemma_chars_lt_irreflexive(a.0, 0);
        lemma_chars_lt_irreflexive(a.1, 0);
    }
    assert forall|a: (Seq<char>, Seq<char>, i64), b: (Seq<char>, Seq<char>, i64), c: (Seq<char>, Seq<char>, i64)|
        #[trigger] lt(a, b) && #[trigger] lt(b, c) implies lt(a, c) by {
        if chars_lt(a.0, b.0) && chars_lt(b.0, c.0) {
            lemma_chars_lt_transitive(a.0, b.0, c.0, 0);
        }
        if a.0 == b.0 && b.0 == c.0 && chars_lt(a.1, b.1) && chars_lt(b.1, c.1) {
            lemma_chars_lt_transitive(a.1, b.1, c.1, 0);
        }
    }
    assert forall|a: (Seq<char>, Seq<char>, i64), b: (Seq<char>, Seq<char>, i64)| a != b
        implies #[trigger] lt(a, b) || #[trigger] lt(b, a) by {
        lemma_chars_lt_total(a.0, b.0, 0);
        lemma_chars_lt_total(a.1, b.1, 0);
    }
}

proof fn lemma_class_key_order()
    ensures
        strict_order(class_key_order()),
{
    let lt = class_key_order();
    assert forall|a: (Seq<char>, i64, u32)| !#[trigger] lt(a, a) by {
        lemma_chars_lt_irreflexive(a.0, 0);
    }
    assert forall|a: (Seq<char>, i64, u32), b: (Seq<char>, i64, u32), c: (Seq<char>, i64, u32)|
        #[trigger] lt(a, b) && #[trigger] lt(b, c) implies lt(a, c) by {
        lemma_chars_lt_transitive(a.0, b.0, c.0, 0);
    }
}

/// The source contributions enter the digest in an order that does not
/// depend on the order in which they were listed: two lists holding the
/// same contributions (as the digest reads them) give the same bytes.
pub proof fn law_source_order_is_irrelevant(s1: Seq<(String, String, i64)>, s2: Seq<(String, String, i64)>)
    requires
        forall|k: (Seq<char>, Seq<char>, i64)| #[trigger] occurrences(s1.map_values(source_key()), k)
            == occurrences(s2.map_values(source_key()), k),
    ensures
        flat_bytes(insertion_sorted(s1, source_order()), source_bytes())
            == flat_bytes(insertion_sorted(s2, source_order()), source_bytes()),
{
    let key = source_key();
    let ltk = source_key_order();
    assert forall|a: (String, String, i64), b: (String, String, i64)| #[trigger] (source_order())(a, b)
        == ltk(key(a), key(b)) by {}
    lemma_insertion_sorted_map(s1, source_order(), key, ltk);
    lemma_insertion_sorted_map(s2, source_order(), key, ltk);
    lemma_source_key_order();
    let k1 = insertion_sorted(s1.map_values(key), ltk);
    let k2 = insertion_sorted(s2.map_values(key), ltk);
    lemma_insertion_sorted(s1.map_values(key), ltk);
    lemma_insertion_sorted(s2.map_values(key), ltk);
    assert forall|k: (Seq<char>, Seq<char>, i64)| #[trigger] occurrences(k1, k) == occurrences(k2, k) by {
        assert(occurrences(k1, k) == occurrences(s1.map_values(key), k));
        assert(occurrences(k2, k) == occurrences(s2.map_values(key), k));
    }
    lemma_sorted_unique(k1, k2, ltk);
    assert forall|a: (String, String, i64), b: (String, String, i64)| #[trigger] key(a) == #[trigger] key(b)
        implies (source_bytes())(a) == (source_bytes())(b) by {}
    lemma_flat_bytes_by_key(insertion_sorted(s1, source_order()), insertion_sorted(s2, source_order()),
        source_bytes(), key);
}

/// The classification hypotheses enter the digest in an order that does
/// not depend on the order in which they were listed, provided hypotheses
/// that share a label are identical (the sort is by label and keeps equal
/// labels in their listed order).
pub proof fn law_class_order_is_irrelevant(s1: Seq<(String, i64, u32)>, s2: Seq<(String, i64, u32)>)
    requires
        forall|k: (Seq<char>, i64, u32)| #[trigger] occurrences(s1.map_values(class_key()), k)
            == occurrences(s2.map_values(class_key()), k),
        forall|i: int, j: int| 0 <= i < s1.len() && 0 <= j < s1.len() && #[trigger] s1[i].0@ == #[trigger] s1[j].0@
            ==> s1[i].1 == s1[j].1 && s1[i].2 == s1[j].2,
    ensures
        flat_bytes(insertion_sorted(s1, class_order()), class_bytes())
            == flat_bytes(insertion_sorted(s2, class_order()), class_bytes()),
{
    let key = class_key();
    let ltk = class_key_order();
    assert forall|a: (String, i64, u32), b: (String, i64, u32)| #[trigger] (class_order())(a, b)
        == ltk(key(a), key(b)) by {}
    lemma_insertion_sorted_map(s1, class_order(), key, ltk);
    lemma_insertion_sorted_map(s2, class_order(), key, ltk);
    lemma_class_key_order();
    let m1 = s1.map_values(key);
    let k1 = insertion_sorted(m1, ltk);
    let k2 = insertion_sorted(s2.map_values(key), ltk);
    lemma_insertion_sorted(m1, ltk);
    lemma_insertion_sorted(s2.map_values(key), ltk);
    assert forall|k: (Seq<char>, i64, u32)| #[trigger] occurrences(k1, k) == occurrences(k2, k) by {
        assert(occurrences(k1, k) == occurrences(m1, k));
        assert(occurrences(k2, k) == occurrences(s2.map_values(key), k));
    }
    assert forall|a: (Seq<char>, i64, u32), b: (Seq<char>, i64, u32)|
        occurrences(k1, a) > 0 && occurrences(k1, b) > 0 && a != b implies #[trigger] ltk(a, b) || #[trigger] ltk(b, a) by {
        assert(occurrences(m1, a) > 0 && occurrences(m1, b) > 0);
        crate::ordering::lemma_occurs_in(m1, a);
        crate::ordering::lemma_occurs_in(m1, b);
        let i = choose|i: int| 0 <= i < m1.len() && m1[i] == a;
        let j = choose|j: int| 0 <= j < m1.len() && m1[j] == b;
        assert(m1[i] == key(s1[i]) && m1[j] == key(s1[j]));
        if a.0 == b.0 {
            assert(s1[i].0@ == s1[j].0@);
        }
        lemma_chars_lt_total(a.0, b.0, 0);
    }
    lemma_sorted_unique(k1, k2, ltk);
    assert forall|a: (String, i64, u32), b: (String, i64, u32)| #[trigger] key(a) == #[trigger] key(b)
        implies (class_bytes())(a) == (class_bytes())(b) by {}
    lemma_flat_bytes_by_key(insertion_sorted(s1, class_order()), insertion_sorted(s2, class_order()),
        class_bytes(), key);
}

/// Two updates that differ only in the order in which their hypotheses and
/// contributions are listed have the same canonical bytes (hypotheses
/// sharing a label being identical).
pub proof fn law_update_bytes_ignore_listing_order(u1: TraceUpdate, u2: TraceUpdate)
    requires
        update_head(u1) == update_head(u2),
        update_kinematics(u1) == update_kinematics(u2),
        u1.integrity_text@ == u2.integrity_text@,
        u1.contributing_observations == u2.contributing_observations,
        u1.rejected_observations == u2.rejected_observations,
        forall|k: (Seq<char>, i64, u32)| #[trigger] occurrences(u1.classifications@.map_values(class_key()), k)
            == occurrences(u2.classifications@.map_values(class_key()), k),
        forall|i: int, j: int| 0 <= i < u1.classifications@.len() && 0 <= j < u1.classifications@.len()
            && #[trigger] u1.classifications@[i].0@ == #[trigger] u1.classifications@[j].0@
            ==> u1.classifications@[i].1 == u1.classifications@[j].1
                && u1.classifications@[i].2 == u1.classifications@[j].2,
        forall|k: (Seq<char>, Seq<char>, i64)| #[trigger] occurrences(u1.sources@.map_values(source_key()), k)
            == occurrences(u2.sources@.map_values(source_key()), k),
    ensures
        update_bytes(u1) == update_bytes(u2),
{
    law_class_order_is_irrelevant(u1.classifications@, u2.classifications@);
    law_source_order_is_irrelevant(u1.sources@, u2.sources@);
    crate::ordering::lemma_same_occurrences_same_len(u1.classifications@.map_values(class_key()),
        u2.classifications@.map_values(class_key()));
    crate::ordering::lemma_same_occurrences_same_len(u1.sources@.map_values(source_key()),
        u2.sources@.map_values(source_key()));
}

/// Two updates that read the same up to the order in which their
/// hypotheses and contributions are listed (hypotheses sharing a label
/// being identical).
pub open spec fn listed_alike(u1: TraceUpdate, u2: TraceUpdate) -> bool {
    &&& update_head(u1) == update_head(u2)
    &&& update_kinematics(u1) == update_kinematics(u2)
    &&& u1.integrity_text@ == u2.integrity_text@
    &&& u1.contributing_observations == u2.contributing_observations
    &&& u1.rejected_observations == u2.rejected_observations
    &&& forall|k: (Seq<char>, i64, u32)| #[trigger] occurrences(u1.classifications@.map_values(class_key()), k)
        == occurrences(u2.classifications@.map_values(class_key()), k)
    &&& forall|i: int, j: int| 0 <= i < u1.classifications@.len() && 0 <= j < u1.classifications@.len()
        && #[trigger] u1.classifications@[i].0@ == #[trigger] u1.classifications@[j].0@
        ==> u1.classifications@[i].1 == u1.classifications@[j].1
            && u1.classifications@[i].2 == u1.classifications@[j].2
    &&& forall|k: (Seq<char>, Seq<char>, i64)| #[trigger] occurrences(u1.sources@.map_values(source_key()), k)
        == occurrences(u2.sources@.map_values(source_key()), k)
}

/// The digest of a whole run ignores listing order: two runs of the same
/// scenario and rejected count whose updates, one for one, differ only in
/// the order in which hypotheses and contributions are listed have the same
/// canonical stream and the same digest.
pub proof fn law_trace_ignores_listing_order(a: TraceOutcome, b: TraceOutcome)
    requires
        a.scenario_name@ == b.scenario_name@,
        a.rejected_count == b.rejected_count,
        a.updates@.len() == b.updates@.len(),
        forall|i: int| 0 <= i < a.updates@.len() ==> #[trigger] listed_alike(a.updates@[i], b.updates@[i]),
    ensures
        trace_bytes(a) == trace_bytes(b),
        hex_lower(sha256_spec(trace_bytes(a))) == hex_lower(sha256_spec(trace_bytes(b))),
{
    let f = update_bytes_fn();
    assert forall|i: int| 0 <= i < a.updates@.len() implies a.updates@.map_values(f)[i] == b.updates@.map_values(f)[i] by {
        assert(listed_alike(a.updates@[i], b.updates@[i]));
        law_update_bytes_ignore_listing_order(a.updates@[i], b.updates@[i]);
    }
    assert(a.updates@.map_values(f) =~= b.updates@.map_values(f));
    lemma_flat_bytes_by_key(a.updates@, b.updates@, f, f);
}

} // verus!
