//! Sensor-adapter state machines and the adapter conformance judgements.
//!
//! An adapter either emits a raw observation, reports that its source is
//! exhausted, or fails with a typed error. What an adapter decides between
//! reads lives here: the synthetic adapter's deterministic emission schedule
//! (tick, sequence number, observation identifier), the replay adapter's
//! duplicate-sequence and clock-rollback guard, their diagnostic counters,
//! and the verdicts of the conformance harness. Reading files and building
//! floating-point measurements is the caller's part.

use vstd::prelude::*;
use crate::text::{chars_of, string_from_chars};

verus! {

/// Typed adapter failure. I/O and JSON failures carry their message.
#[derive(Debug, Clone, PartialEq, Eq)]
pub enum AdapterError {
    InvalidConfiguration(String),
    Connect(String),
    Malformed(String),
    MissingField(&'static str),
    UnsupportedSchema(String),
    IntegrityFailure(String),
    ClockRollback { seen_ns: i128, received_ns: i128 },
    DuplicateSequence(u64),
    ShuttingDown,
    Backpressure,
    Io(String),
    Json(String),
}

/// Adapter diagnostic snapshot.
#[derive(Debug, Clone, PartialEq, Eq)]
pub struct AdapterDiagnostic {
    pub connected: bool,
    pub observations_forwarded: u64,
    pub observations_rejected: u64,
    pub last_error: Option<String>,
    pub last_sequence: Option<u64>,
}

/// Seed of the synthetic adapter's observation identifiers.
pub const SYNTHETIC_SEED: u64 = 0xA1E0_1EEF;

/// The UUID of the synthetic observation emitted at `tick`: the seed's
/// eight big-endian bytes, then the tick's four big-endian bytes twice.
pub open spec fn synthetic_observation_id(seed: u64, tick: u32) -> u128 {
    (seed as int * 0x1_0000_0000_0000_0000 + tick as int * 0x1_0000_0000 + tick as int) as u128
}

/// What a synthetic adapter emits at one tick; the caller derives the
/// position and timestamp from the tick.
#[derive(Debug, Clone, Copy, PartialEq, Eq, Structural)]
pub struct Emission {
    pub tick: u32,
    pub sequence_number: u64,
    pub observation_id: u128,
}

/// State of a synthetic adapter.
pub struct SyntheticCursor {
    max_observations: u32,
    connected: bool,
    tick: u32,
    forwarded: u64,
    rejected: u64,
    last_seq: Option<u64>,
    seed: u64,
}

/// Checks a synthetic adapter's configuration: the tick must be positive,
/// at least one observation must be requested, and the sensor named.
pub fn validate_synthetic_configuration(tick_seconds_positive: bool, max_observations: u32, sensor_id: &str)
    -> (r: Result<(), AdapterError>)
    ensures
        !tick_seconds_positive ==> (r matches Err(AdapterError::InvalidConfiguration(m)) && m@ == "tick_seconds must be > 0"@),
        tick_seconds_positive && max_observations == 0 ==>
            (r matches Err(AdapterError::InvalidConfiguration(m)) && m@ == "max_observations must be > 0"@),
        tick_seconds_positive && max_observations > 0 && sensor_id@.len() == 0 ==>
            (r matches Err(AdapterError::InvalidConfiguration(m)) && m@ == "sensor_id must be non-empty"@),
        tick_seconds_positive && max_observations > 0 && sensor_id@.len() > 0 ==> r is Ok,
{
    if !tick_seconds_positive {
        return Err(AdapterError::InvalidConfiguration("tick_seconds must be > 0".to_string()));
    }
    if max_observations == 0 {
        return Err(AdapterError::InvalidConfiguration("max_observations must be > 0".to_string()));
    }
    if sensor_id.unicode_len() == 0 {
        return Err(AdapterError::InvalidConfiguration("sensor_id must be non-empty".to_string()));
    }
    Ok(())
}

impl SyntheticCursor {
    pub closed spec fn is_connected(&self) -> bool { self.connected }
    /// How many observations the adapter emits before it is exhausted.
    pub closed spec fn limit(&self) -> u32 { self.max_observations }
    pub closed spec fn ticks(&self) -> u32 { self.tick }
    pub closed spec fn forwarded(&self) -> u64 { self.forwarded }
    pub closed spec fn rejected(&self) -> u64 { self.rejected }
    pub closed spec fn last_sequence(&self) -> Option<u64> { self.last_seq }
    pub closed spec fn seed(&self) -> u64 { self.seed }

    /// Counters stay in step: one emission per tick, the last one numbered
    /// by the tick count.
    pub open spec fn wf(&self) -> bool {
        &&& self.forwarded() == self.ticks() as u64
        &&& self.ticks() <= self.limit()
        &&& self.last_sequence() == (if self.ticks() == 0 { None } else { Some(self.ticks() as u64) })
    }

    /// A disconnected adapter at tick 0 that will emit `max_observations`.
    pub fn new(max_observations: u32) -> (r: SyntheticCursor)
        ensures
            r.wf(),
            r.limit() == max_observations,
            !r.is_connected(),
            r.ticks() == 0,
            r.rejected() == 0,
            r.seed() == SYNTHETIC_SEED,
    {
        SyntheticCursor {
            max_observations,
            connected: false,
            tick: 0,
            forwarded: 0,
            rejected: 0,
            last_seq: None,
            seed: SYNTHETIC_SEED,
        }
    }

    pub fn connect(&mut self)
        ensures
            final(self).is_connected(),
            final(self).ticks() == old(self).ticks(),
            final(self).limit() == old(self).limit(),
            final(self).forwarded() == old(self).forwarded(),
            final(self).rejected() == old(self).rejected(),
            final(self).last_sequence() == old(self).last_sequence(),
            final(self).seed() == old(self).seed(),
            old(self).wf() ==> final(self).wf(),
    {
        self.connected = true;
    }

    /// Disconnects; the schedule position is kept, so a reconnect resumes it.
    pub fn shutdown(&mut self)
        ensures
            !final(self).is_connected(),
            final(self).ticks() == old(self).ticks(),
            final(self).limit() == old(self).limit(),
            final(self).forwarded() == old(self).forwarded(),
            final(self).rejected() == old(self).rejected(),
            final(self).last_sequence() == old(self).last_sequence(),
            final(self).seed() == old(self).seed(),
            old(self).wf() ==> final(self).wf(),
    {
        self.connected = false;
    }

    /// The next emission: an error before `connect`, `None` once
    /// `max_observations` were emitted, otherwise the observation of the
    /// current tick, numbered `tick + 1`.
    pub fn next_emission(&mut self) -> (r: Result<Option<Emission>, AdapterError>)
        requires
            old(self).wf(),
        ensures
            final(self).wf(),
            final(self).limit() == old(self).limit(),
            final(self).seed() == old(self).seed(),
            final(self).rejected() == old(self).rejected(),
            final(self).is_connected() == old(self).is_connected(),
            emission_view(r) == next_outcome(*old(self)),
            !old(self).is_connected() ==> (r matches Err(AdapterError::Connect(m))
                && m@ == "adapter not connected"@),
            next_outcome(*old(self)) matches Some(Some(_)) ==> final(self).ticks() == old(self).ticks() + 1,
            !(next_outcome(*old(self)) matches Some(Some(_))) ==> {
                &&& final(self).ticks() == old(self).ticks()
                &&& final(self).forwarded() == old(self).forwarded()
                &&& final(self).last_sequence() == old(self).last_sequence()
            },
            old(self).is_connected() && old(self).ticks() < old(self).limit() ==> {
                &&& r matches Ok(Some(e))
                &&& e.tick == old(self).ticks()
                &&& e.sequence_number == old(self).ticks() as u64 + 1
                &&& e.observation_id == synthetic_observation_id(old(self).seed(), old(self).ticks())
                &&& final(self).ticks() == old(self).ticks() + 1
                &&& final(self).last_sequence() == Some(e.sequence_number)
            },
    {
        if !self.connected {
            return Err(AdapterError::Connect("adapter not connected".to_string()));
        }
        if self.tick >= self.max_observations {
            return Ok(None);
        }
        let tick = self.tick;
        let id: u128 = (self.seed as u128) * 0x1_0000_0000_0000_0000u128 + (tick as u128) * 0x1_0000_0000u128 + tick as u128;
        let seq = tick as u64 + 1;
        self.last_seq = Some(seq);
        self.forwarded = self.forwarded + 1;
        self.tick = self.tick + 1;
        Ok(Some(Emission { tick, sequence_number: seq, observation_id: id }))
    }

    pub fn diagnostic(&self) -> (r: AdapterDiagnostic)
        ensures
            r.connected == self.is_connected(),
            r.observations_forwarded == self.forwarded(),
            r.observations_rejected == self.rejected(),
            r.last_error is None,
            r.last_sequence == self.last_sequence(),
    {
        AdapterDiagnostic {
            connected: self.connected,
            observations_forwarded: self.forwarded,
            observations_rejected: self.rejected,
            last_error: None,
            last_sequence: self.last_seq,
        }
    }
}

/// The emission of a synthetic adapter at `tick`.
pub open spec fn emission_at(seed: u64, tick: u32) -> Emission {
    Emission { tick, sequence_number: (tick + 1) as u64, observation_id: synthetic_observation_id(seed, tick) }
}

/// What the next call of `next_emission` gives: `None` for the error of a
/// disconnected adapter, `Some(None)` once exhausted, else the emission of
/// the current tick.
pub open spec fn next_outcome(c: SyntheticCursor) -> Option<Option<Emission>> {
    if !c.is_connected() {
        None
    } else if c.ticks() >= c.limit() {
        Some(None)
    } else {
        Some(Some(emission_at(c.seed(), c.ticks())))
    }
}

/// A result of `next_emission` with the error's text dropped.
pub open spec fn emission_view(r: Result<Option<Emission>, AdapterError>) -> Option<Option<Emission>> {
    match r {
        Ok(x) => Some(x),
        Err(_) => None,
    }
}

/// The emissions of a connected synthetic adapter from `from` until it is
/// exhausted.
pub open spec fn synthetic_stream(seed: u64, from: u32, limit: u32) -> Seq<Emission> {
    Seq::new(if from < limit { (limit - from) as nat } else { 0 }, |k: int| emission_at(seed, (from + k) as u32))
}

/// Synthetic streams are deterministic: two adapters with the same seed,
/// limit, tick and connection state give the same next outcome, and the
/// whole remaining stream depends on the seed, the tick and the limit alone;
/// its elements are numbered one past their tick.
pub proof fn law_synthetic_stream_is_deterministic(a: SyntheticCursor, b: SyntheticCursor)
    requires
        a.seed() == b.seed(),
        a.limit() == b.limit(),
        a.ticks() == b.ticks(),
        a.is_connected() == b.is_connected(),
    ensures
        next_outcome(a) == next_outcome(b),
        synthetic_stream(a.seed(), a.ticks(), a.limit()) == synthetic_stream(b.seed(), b.ticks(), b.limit()),
        forall|k: int| 0 <= k < synthetic_stream(a.seed(), a.ticks(), a.limit()).len() ==>
            (#[trigger] synthetic_stream(a.seed(), a.ticks(), a.limit())[k]).sequence_number == a.ticks() + k + 1,
{
}

/// Different ticks give different observation ids, so a synthetic stream
/// never repeats an observation.
pub proof fn law_synthetic_ids_are_distinct(seed: u64, t1: u32, t2: u32)
    ensures
        synthetic_observation_id(seed, t1) == synthetic_observation_id(seed, t2) <==> t1 == t2,
{
    let a = seed as int * 0x1_0000_0000_0000_0000 + t1 as int * 0x1_0000_0000 + t1 as int;
    let b = seed as int * 0x1_0000_0000_0000_0000 + t2 as int * 0x1_0000_0000 + t2 as int;
    assert(a < 0x1_0000_0000_0000_0000_0000_0000_0000_0000);
    assert(b < 0x1_0000_0000_0000_0000_0000_0000_0000_0000);
    assert(0 <= a && 0 <= b);
}

/// Unicode `White_Space`, the characters `str::trim` removes.
pub open spec fn is_white_space(c: char) -> bool {
    ||| ('\u{9}' <= c && c <= '\u{d}')
    ||| c == ' '
    ||| c == '\u{85}'
    ||| c == '\u{a0}'
    ||| c == '\u{1680}'
    ||| ('\u{2000}' <= c && c <= '\u{200a}')
    ||| c == '\u{2028}'
    ||| c == '\u{2029}'
    ||| c == '\u{202f}'
    ||| c == '\u{205f}'
    ||| c == '\u{3000}'
}

fn white_space(c: char) -> (r: bool)
    ensures
        r == is_white_space(c),
{
    ('\u{9}' <= c && c <= '\u{d}') || c == ' ' || c == '\u{85}' || c == '\u{a0}' || c == '\u{1680}'
        || ('\u{2000}' <= c && c <= '\u{200a}') || c == '\u{2028}' || c == '\u{2029}' || c == '\u{202f}'
        || c == '\u{205f}' || c == '\u{3000}'
}

/// Whether a replay line holds nothing but white space (it is skipped).
pub fn is_blank_line(line: &str) -> (r: bool)
    ensures
        r == (forall|i: int| 0 <= i < line@.len() ==> is_white_space(#[trigger] line@[i])),
{
    let n = line.unicode_len();
    let mut i: usize = 0;
    while i < n
        invariant
            n == line@.len(),
            i <= n,
            forall|j: int| 0 <= j < i ==> is_white_space(#[trigger] line@[j]),
        decreases n - i,
    {
        let c = line.get_char(i);
        if !white_space(c) {
            return false;
        }
        i = i + 1;
    }
    true
}

/// The duplicate-sequence and clock-rollback guard of a replay adapter,
/// with its diagnostic counters.
pub struct ReplayGuard {
    reject_duplicate_sequence: bool,
    reject_clock_rollback: bool,
    connected: bool,
    forwarded: u64,
    rejected: u64,
    last_seq: Option<u64>,
    last_time_ns: Option<i128>,
}

impl ReplayGuard {
    pub closed spec fn is_connected(&self) -> bool { self.connected }
    /// Whether an observation repeating the previous sequence number is refused.
    pub closed spec fn checks_duplicates(&self) -> bool { self.reject_duplicate_sequence }
    /// Whether an observation timed before the previous one is refused.
    pub closed spec fn checks_rollback(&self) -> bool { self.reject_clock_rollback }
    pub closed spec fn forwarded(&self) -> u64 { self.forwarded }
    pub closed spec fn rejected(&self) -> u64 { self.rejected }
    pub closed spec fn last_sequence(&self) -> Option<u64> { self.last_seq }
    pub closed spec fn last_time_ns(&self) -> Option<i128> { self.last_time_ns }

    /// A disconnected guard with both checks enabled.
    pub fn new() -> (r: ReplayGuard)
        ensures
            r.checks_duplicates(),
            r.checks_rollback(),
            !r.is_connected(),
            r.forwarded() == 0,
            r.rejected() == 0,
            r.last_sequence() is None,
            r.last_time_ns() is None,
    {
        ReplayGuard {
            reject_duplicate_sequence: true,
            reject_clock_rollback: true,
            connected: false,
            forwarded: 0,
            rejected: 0,
            last_seq: None,
            last_time_ns: None,
        }
    }

    /// Enables or disables the two checks.
    pub fn set_checks(&mut self, duplicates: bool, rollback: bool)
        ensures
            final(self).checks_duplicates() == duplicates,
            final(self).checks_rollback() == rollback,
            final(self).is_connected() == old(self).is_connected(),
            final(self).forwarded() == old(self).forwarded(),
            final(self).rejected() == old(self).rejected(),
            final(self).last_sequence() == old(self).last_sequence(),
            final(self).last_time_ns() == old(self).last_time_ns(),
    {
        self.reject_duplicate_sequence = duplicates;
        self.reject_clock_rollback = rollback;
    }

    pub fn set_connected(&mut self, connected: bool)
        ensures
            final(self).is_connected() == connected,
            final(self).forwarded() == old(self).forwarded(),
            final(self).rejected() == old(self).rejected(),
            final(self).last_sequence() == old(self).last_sequence(),
            final(self).last_time_ns() == old(self).last_time_ns(),
            final(self).checks_duplicates() == old(self).checks_duplicates(),
            final(self).checks_rollback() == old(self).checks_rollback(),
    {
        self.connected = connected;
    }

    /// Counts a line that did not parse as an observation and returns the
    /// typed error carrying the parser's message.
    pub fn reject_malformed(&mut self, message: String) -> (r: AdapterError)
        requires
            old(self).rejected() < u64::MAX,
        ensures
            r == AdapterError::Malformed(message),
            final(self).rejected() == old(self).rejected() + 1,
            final(self).forwarded() == old(self).forwarded(),
            final(self).last_sequence() == old(self).last_sequence(),
            final(self).last_time_ns() == old(self).last_time_ns(),
            final(self).is_connected() == old(self).is_connected(),
            final(self).checks_duplicates() == old(self).checks_duplicates(),
            final(self).checks_rollback() == old(self).checks_rollback(),
    {
        self.rejected = self.rejected + 1;
        AdapterError::Malformed(message)
    }

    /// Screens a parsed observation with sequence number `sequence` and
    /// source time `time_ns`. A repeat of the previous sequence number, then
    /// a time before the previous one, is rejected (each check only when
    /// enabled) and counted; otherwise the observation is forwarded and
    /// becomes the previous one.
    pub fn screen(&mut self, sequence: u64, time_ns: i128) -> (r: Result<(), AdapterError>)
        requires
            old(self).rejected() < u64::MAX,
            old(self).forwarded() < u64::MAX,
        ensures
            final(self).is_connected() == old(self).is_connected(),
            final(self).checks_duplicates() == old(self).checks_duplicates(),
            final(self).checks_rollback() == old(self).checks_rollback(),
            ({
                let dup = old(self).checks_duplicates() && old(self).last_sequence() == Some(sequence);
                let rollback = old(self).checks_rollback()
                    && (old(self).last_time_ns() matches Some(prev) && time_ns < prev);
                if dup {
                    &&& r == Err::<(), AdapterError>(AdapterError::DuplicateSequence(sequence))
                    &&& final(self).rejected() == old(self).rejected() + 1
                    &&& final(self).forwarded() == old(self).forwarded()
                    &&& final(self).last_sequence() == old(self).last_sequence()
                    &&& final(self).last_time_ns() == old(self).last_time_ns()
                } else if rollback {
                    &&& r == Err::<(), AdapterError>(AdapterError::ClockRollback {
                        seen_ns: old(self).last_time_ns()->0,
                        received_ns: time_ns,
                    })
                    &&& final(self).rejected() == old(self).rejected() + 1
                    &&& final(self).forwarded() == old(self).forwarded()
                    &&& final(self).last_sequence() == old(self).last_sequence()
                    &&& final(self).last_time_ns() == old(self).last_time_ns()
                } else {
                    &&& r is Ok
                    &&& final(self).rejected() == old(self).rejected()
                    &&& final(self).forwarded() == old(self).forwarded() + 1
                    &&& final(self).last_sequence() == Some(sequence)
                    &&& final(self).last_time_ns() == Some(time_ns)
                }
            }),
    {
        if self.reject_duplicate_sequence {
            if let Some(prev) = self.last_seq {
                if sequence == prev {
                    self.rejected = self.rejected + 1;
                    return Err(AdapterError::DuplicateSequence(prev));
                }
            }
        }
        if self.reject_clock_rollback {
            if let Some(prev_ns) = self.last_time_ns {
                if time_ns < prev_ns {
                    self.rejected = self.rejected + 1;
                    return Err(AdapterError::ClockRollback { seen_ns: prev_ns, received_ns: time_ns });
                }
            }
        }
        self.last_seq = Some(sequence);
        self.last_time_ns = Some(time_ns);
        self.forwarded = self.forwarded + 1;
        Ok(())
    }

    pub fn diagnostic(&self) -> (r: AdapterDiagnostic)
        ensures
            r.connected == self.is_connected(),
            r.observations_forwarded == self.forwarded(),
            r.observations_rejected == self.rejected(),
            r.last_error is None,
            r.last_sequence == self.last_sequence(),
    {
        AdapterDiagnostic {
            connected: self.connected,
            observations_forwarded: self.forwarded,
            observations_rejected: self.rejected,
            last_error: None,
            last_sequence: self.last_seq,
        }
    }
}

/// Result of a single conformance case.
#[derive(Debug, Clone, PartialEq, Eq)]
pub struct ConformanceResult {
    pub case: &'static str,
    pub passed: bool,
    pub detail: String,
}

fn outcome(case: &'static str, passed: bool, detail: String) -> (r: ConformanceResult)
    ensures
        r.case@ == case@,
        r.passed == passed,
        r.detail@ == detail@,
{
    ConformanceResult { case, passed, detail }
}

fn expected_got(expected: &str, got: &str) -> (r: String)
    ensures
        r@ == "expected "@ + expected@ + ", got "@ + got@,
{
    let mut v = chars_of("expected ");
    let mut w = chars_of(expected);
    v.append(&mut w);
    let mut x = chars_of(", got ");
    v.append(&mut x);
    let mut y = chars_of(got);
    v.append(&mut y);
    string_from_chars(v.as_slice())
}

/// Verdict of the pre-connect case: an adapter must refuse to emit before
/// `connect`, so the case passes exactly when the first read failed.
pub fn judge_requires_connect_first(read_failed: bool) -> (r: ConformanceResult)
    ensures
        r.case@ == "requires_connect_first"@,
        r.passed == read_failed,
        r.detail@ == (if read_failed { "rejected pre-connect"@ } else { "emitted before connect"@ }),
{
    if read_failed {
        outcome("requires_connect_first", true, "rejected pre-connect".to_string())
    } else {
        outcome("requires_connect_first", false, "emitted before connect".to_string())
    }
}

/// Verdict of the malformed-input case: the read must fail with
/// `Malformed`; `got` renders what came back instead.
pub fn judge_malformed(was_malformed: bool, got: &str) -> (r: ConformanceResult)
    ensures
        r.case@ == "malformed_json_produces_typed_error"@,
        r.passed == was_malformed,
        r.detail@ == (if was_malformed { "typed error"@ } else { "expected Malformed, got "@ + got@ }),
{
    if was_malformed {
        outcome("malformed_json_produces_typed_error", true, "typed error".to_string())
    } else {
        let d = expected_got("Malformed", got);
        proof { reveal_strlit("expected "); reveal_strlit(", got "); reveal_strlit("Malformed"); reveal_strlit("expected Malformed, got "); assert("expected "@ + "Malformed"@ + ", got "@ =~= "expected Malformed, got "@); }
        outcome("malformed_json_produces_typed_error", false, d)
    }
}

/// Verdict of the duplicate-sequence case: the second of two reads must
/// fail with `DuplicateSequence`.
pub fn judge_duplicate_sequence(was_duplicate: bool, got: &str) -> (r: ConformanceResult)
    ensures
        r.case@ == "duplicate_sequence_rejected"@,
        r.passed == was_duplicate,
        r.detail@ == (if was_duplicate { "duplicate rejected"@ } else { "expected DuplicateSequence, got "@ + got@ }),
{
    if was_duplicate {
        outcome("duplicate_sequence_rejected", true, "duplicate rejected".to_string())
    } else {
        let d = expected_got("DuplicateSequence", got);
        proof {
            reveal_strlit("expected ");
            reveal_strlit(", got ");
            reveal_strlit("DuplicateSequence");
            reveal_strlit("expected DuplicateSequence, got ");
            assert("expected "@ + "DuplicateSequence"@ + ", got "@ =~= "expected DuplicateSequence, got "@);
        }
        outcome("duplicate_sequence_rejected", false, d)
    }
}

/// Verdict of the clock-rollback case: the second of two reads must fail
/// with `ClockRollback`.
pub fn judge_clock_rollback(was_rollback: bool, got: &str) -> (r: ConformanceResult)
    ensures
        r.case@ == "clock_rollback_rejected"@,
        r.passed == was_rollback,
        r.detail@ == (if was_rollback { "rollback caught"@ } else { "expected ClockRollback, got "@ + got@ }),
{
    if was_rollback {
        outcome("clock_rollback_rejected", true, "rollback caught".to_string())
    } else {
        let d = expected_got("ClockRollback", got);
        proof {
            reveal_strlit("expected ");
            reveal_strlit(", got ");
            reveal_strlit("ClockRollback");
            reveal_strlit("expected ClockRollback, got ");
            assert("expected "@ + "ClockRollback"@ + ", got "@ =~= "expected ClockRollback, got "@);
        }
        outcome("clock_rollback_rejected", false, d)
    }
}

/// Verdict of the restart case: a shutdown followed by a fresh connect must
/// both succeed; a failed shutdown is reported first (the reconnect is then
/// not attempted and `reconnect_ok` is not read).
pub fn judge_restart(shutdown_ok: bool, reconnect_ok: bool) -> (r: ConformanceResult)
    ensures
        r.case@ == "restart_recovers"@,
        r.passed == (shutdown_ok && reconnect_ok),
        r.detail@ == (if !shutdown_ok { "shutdown failed"@ } else if !reconnect_ok { "reconnect failed"@ }
            else { "clean restart"@ }),
{
    if !shutdown_ok {
        outcome("restart_recovers", false, "shutdown failed".to_string())
    } else if !reconnect_ok {
        outcome("restart_recovers", false, "reconnect failed".to_string())
    } else {
        outcome("restart_recovers", true, "clean restart".to_string())
    }
}

} // verus!
