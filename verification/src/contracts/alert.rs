//! Operator alerts.
//!
//! Recommended actions are limited to system operation and review
//! (acknowledge, inspect adapter logs, trigger replay, ...). Alerts never
//! carry a prohibited-concept recommendation.

use vstd::prelude::*;
use crate::contracts::ids::AlertId;
use crate::contracts::version::{alert_schema, is_v1_0, SchemaVersion};

verus! {

#[derive(Debug, Clone, Copy, PartialEq, Eq, Structural, PartialOrd, Ord)]
pub enum AlertSeverity {
    Info,
    Warning,
    Error,
    Critical,
}

#[derive(Debug, Clone, Copy, PartialEq, Eq, Structural)]
pub enum AlertCategory {
    AdapterFailure,
    SensorDropout,
    ClockDrift,
    StorageDegraded,
    RelayDegraded,
    IntegrityViolation,
    ConfigurationInvalid,
    ModelUnavailable,
    ModelOutOfDistribution,
    ScopeBoundaryViolationAttempt,
    HighReleaseLatency,
    Other,
}

#[derive(Debug, Clone, Copy, PartialEq, Eq, Structural)]
pub enum AlertAcknowledgment {
    Unacknowledged,
    Acknowledged,
    Suppressed,
}

/// Recommended operator action, limited to system-operation review verbs.
#[derive(Debug, Clone, Copy, PartialEq, Eq, Structural)]
pub enum RecommendedOperatorAction {
    Acknowledge,
    InspectAdapterLogs,
    InspectStorage,
    InspectRelayQueue,
    TriggerReplay,
    ReviewConfiguration,
    ReviewModelActivation,
    ContactMaintainer,
}

/// An operator alert. Occurrence instants are Unix-epoch nanoseconds.
#[derive(Debug, Clone)]
pub struct Alert {
    pub schema_version: SchemaVersion,
    pub alert_id: AlertId,
    pub severity: AlertSeverity,
    pub category: AlertCategory,
    pub affected_component: String,
    pub human_summary: String,
    pub machine_reason: String,
    pub first_occurrence: i128,
    pub last_occurrence: i128,
    pub occurrence_count: u32,
    pub acknowledgment: AlertAcknowledgment,
    pub recommended_action: RecommendedOperatorAction,
}

impl Alert {
    pub fn schema() -> (r: SchemaVersion)
        ensures
            is_v1_0(r, "alert"@),
    {
        alert_schema()
    }
}

/// Index of the first alert in `alerts` with identifier `id`, if any.
pub open spec fn first_alert_with(alerts: Seq<Alert>, id: u128) -> Option<int>
    decreases alerts.len(),
{
    if alerts.len() == 0 {
        None
    } else if alerts.last().alert_id.0 == id && first_alert_with(alerts.drop_last(), id) is None {
        Some(alerts.len() - 1)
    } else {
        first_alert_with(alerts.drop_last(), id)
    }
}

proof fn lemma_first_alert_with(alerts: Seq<Alert>, id: u128)
    ensures
        first_alert_with(alerts, id) is None <==> (forall|j: int| 0 <= j < alerts.len() ==> alerts[j].alert_id.0 != id),
        first_alert_with(alerts, id) matches Some(i) ==> (0 <= i < alerts.len() && alerts[i].alert_id.0 == id
            && forall|j: int| 0 <= j < i ==> alerts[j].alert_id.0 != id),
    decreases alerts.len(),
{
    if alerts.len() > 0 {
        lemma_first_alert_with(alerts.drop_last(), id);
        assert forall|j: int| 0 <= j < alerts.len() - 1 implies alerts.drop_last()[j] == alerts[j] by {}
    }
}

/// Marks the first alert with identifier `id` as acknowledged; returns
/// whether such an alert exists (the operator route answers "not found"
/// otherwise). Every other alert, and every other field, is left as it was.
pub fn acknowledge_alert(alerts: &mut Vec<Alert>, id: u128) -> (found: bool)
    ensures
        found == (first_alert_with(old(alerts)@, id) is Some),
        match first_alert_with(old(alerts)@, id) {
            Some(i) => final(alerts)@ == old(alerts)@.update(i, Alert {
                acknowledgment: AlertAcknowledgment::Acknowledged,
                ..old(alerts)@[i]
            }),
            None => final(alerts)@ == old(alerts)@,
        },
{
    proof { lemma_first_alert_with(alerts@, id); }
    let mut i: usize = 0;
    while i < alerts.len()
        invariant
            i <= alerts@.len(),
            alerts@ == old(alerts)@,
            forall|j: int| 0 <= j < i ==> alerts@[j].alert_id.0 != id,
        decreases alerts@.len() - i,
    {
        if alerts[i].alert_id.0 == id {
            proof { lemma_first_alert_with(old(alerts)@, id); }
            let mut a = alerts.remove(i);
            a.acknowledgment = AlertAcknowledgment::Acknowledged;
            alerts.insert(i, a);
            proof {
                let k = first_alert_with(old(alerts)@, id);
                assert(k == Some(i as int)) by {
                    if k is None {
                        assert(old(alerts)@[i as int].alert_id.0 == id);
                    } else {
                        let kk = k->0;
                        if kk < i as int {
                            assert(old(alerts)@[kk].alert_id.0 != id);
                        }
                        if kk > i as int {
                            assert(old(alerts)@[i as int].alert_id.0 == id);
                        }
                    }
                }
                assert(alerts@ =~= old(alerts)@.update(i as int, Alert {
                    acknowledgment: AlertAcknowledgment::Acknowledged,
                    ..old(alerts)@[i as int]
                }));
            }
            return true;
        }
        i = i + 1;
    }
    false
}

} // verus!
