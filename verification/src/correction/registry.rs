//! Model registry and correction gates.
//!
//! Model states move only along the permitted transitions; only one model
//! is Active at a time (activating a model deprecates the previously active
//! one); a Deprecated model may be re-approved and re-activated (rollback);
//! Revoked is terminal.

use vstd::prelude::*;
use crate::contracts::ids::{id_text, ModelVersionId};
use crate::digest::{append_str, hex_lower, sha256_hex, sha256_spec};
use crate::text::{chars_of, string_from_chars};
use vstd::utf8::encode_utf8;

verus! {

/// Lifecycle state of a model in the registry.
#[derive(Debug, Clone, Copy, PartialEq, Eq, Structural)]
pub enum ModelState {
    Draft,
    Validating,
    Shadow,
    Approved,
    Active,
    Deprecated,
    Revoked,
}

/// Why a registry or correction request was refused.
#[derive(Debug)]
pub enum ModelError {
    SchemaMismatch,
    NotActive(ModelState),
    Unknown(String),
    Policy(String),
}

/// Status of a produced correction.
#[derive(Debug, Clone, Copy, PartialEq, Eq, Structural)]
pub enum CorrectionStatus {
    Applied,
    Shadow,
    /// Out-of-distribution input; recorded but not applied.
    Untrusted,
    Rejected,
}

/// A signed, versioned model artifact (its numeric bounds are held by the
/// correction runtime that evaluates the model).
#[derive(Debug, Clone)]
pub struct ModelArtifact {
    pub id: ModelVersionId,
    pub name: String,
    pub version: String,
    pub feature_schema: String,
    pub output_schema: String,
    pub artifact_digest_hex: String,
    pub signature_hex: String,
    pub known_limitations: Vec<String>,
    pub state: ModelState,
}

impl ModelArtifact {
    /// Digest binding a model's identity and schemas: hex SHA-256 over the
    /// UTF-8 of name, version, feature schema and output schema, in order.
    pub fn compute_artifact_digest(name: &str, version: &str, feature_schema: &str, output_schema: &str) -> (r: String)
        ensures
            r@ == hex_lower(sha256_spec(encode_utf8(name@) + encode_utf8(version@) + encode_utf8(feature_schema@)
                + encode_utf8(output_schema@))),
    {
        let mut buf: Vec<u8> = Vec::new();
        append_str(&mut buf, name);
        append_str(&mut buf, version);
        append_str(&mut buf, feature_schema);
        append_str(&mut buf, output_schema);
        assert(buf@ =~= encode_utf8(name@) + encode_utf8(version@) + encode_utf8(feature_schema@)
            + encode_utf8(output_schema@));
        sha256_hex(buf.as_slice())
    }
}

/// Whether the model lifecycle permits moving from `from` to `to`.
pub open spec fn model_step(from: ModelState, to: ModelState) -> bool {
    match (from, to) {
        (ModelState::Draft, ModelState::Validating) => true,
        (ModelState::Validating, ModelState::Shadow) => true,
        (ModelState::Validating, ModelState::Approved) => true,
        (ModelState::Shadow, ModelState::Approved) => true,
        (ModelState::Shadow, ModelState::Revoked) => true,
        (ModelState::Approved, ModelState::Active) => true,
        (ModelState::Approved, ModelState::Deprecated) => true,
        (ModelState::Approved, ModelState::Revoked) => true,
        (ModelState::Active, ModelState::Deprecated) => true,
        (ModelState::Active, ModelState::Revoked) => true,
        (ModelState::Deprecated, ModelState::Revoked) => true,
        (ModelState::Deprecated, ModelState::Approved) => true,
        _ => false,
    }
}

fn step_permitted(from: ModelState, to: ModelState) -> (r: bool)
    ensures
        r == model_step(from, to),
{
    match (from, to) {
        (ModelState::Draft, ModelState::Validating) => true,
        (ModelState::Validating, ModelState::Shadow) => true,
        (ModelState::Validating, ModelState::Approved) => true,
        (ModelState::Shadow, ModelState::Approved) => true,
        (ModelState::Shadow, ModelState::Revoked) => true,
        (ModelState::Approved, ModelState::Active) => true,
        (ModelState::Approved, ModelState::Deprecated) => true,
        (ModelState::Approved, ModelState::Revoked) => true,
        (ModelState::Active, ModelState::Deprecated) => true,
        (ModelState::Active, ModelState::Revoked) => true,
        (ModelState::Deprecated, ModelState::Revoked) => true,
        (ModelState::Deprecated, ModelState::Approved) => true,
        _ => false,
    }
}

/// Debug name of a state.
pub open spec fn state_name(s: ModelState) -> Seq<char> {
    match s {
        ModelState::Draft => "Draft"@,
        ModelState::Validating => "Validating"@,
        ModelState::Shadow => "Shadow"@,
        ModelState::Approved => "Approved"@,
        ModelState::Active => "Active"@,
        ModelState::Deprecated => "Deprecated"@,
        ModelState::Revoked => "Revoked"@,
    }
}

fn state_label(s: ModelState) -> (r: &'static str)
    ensures
        r@ == state_name(s),
{
    match s {
        ModelState::Draft => "Draft",
        ModelState::Validating => "Validating",
        ModelState::Shadow => "Shadow",
        ModelState::Approved => "Approved",
        ModelState::Active => "Active",
        ModelState::Deprecated => "Deprecated",
        ModelState::Revoked => "Revoked",
    }
}

/// Message of a refused state transition.
pub open spec fn illegal_transition_message(from: ModelState, to: ModelState) -> Seq<char> {
    "illegal state transition "@ + state_name(from) + " -> "@ + state_name(to)
}

/// Message of a shadow request for a model that is not in Shadow state.
pub open spec fn not_shadow_message(id: ModelVersionId) -> Seq<char> {
    "model "@ + id_text("mdl"@, id.0) + " is not in Shadow state"@
}

fn concat3(a: &str, b: &str, c: &str) -> (r: Vec<char>)
    ensures
        r@ == a@ + b@ + c@,
{
    let mut v = chars_of(a);
    let mut w = chars_of(b);
    v.append(&mut w);
    let mut x = chars_of(c);
    v.append(&mut x);
    v
}

fn transition_message(from: ModelState, to: ModelState) -> (r: String)
    ensures
        r@ == illegal_transition_message(from, to),
{
    let mut v = concat3("illegal state transition ", state_label(from), " -> ");
    let mut w = chars_of(state_label(to));
    v.append(&mut w);
    string_from_chars(v.as_slice())
}

/// Index of the first model with identifier `id` at or after `i`.
pub open spec fn model_from(s: Seq<ModelArtifact>, id: ModelVersionId, i: int) -> Option<int>
    decreases s.len() - i,
{
    if i < 0 || i >= s.len() {
        None
    } else if s[i].id == id {
        Some(i)
    } else {
        model_from(s, id, i + 1)
    }
}

proof fn lemma_model_from_bounds(s: Seq<ModelArtifact>, id: ModelVersionId, i: int)
    ensures
        model_from(s, id, i) matches Some(j) ==> (i <= j < s.len() && s[j].id == id
            && forall|k: int| i <= k < j ==> s[k].id != id),
        model_from(s, id, i) is None ==> forall|k: int| 0 <= i <= k < s.len() ==> s[k].id != id,
    decreases s.len() - i,
{
    if i >= 0 && i < s.len() && s[i].id != id {
        lemma_model_from_bounds(s, id, i + 1);
    }
}

proof fn lemma_model_same_ids(s1: Seq<ModelArtifact>, s2: Seq<ModelArtifact>, id: ModelVersionId, i: int)
    requires
        s1.len() == s2.len(),
        forall|j: int| 0 <= j < s1.len() ==> #[trigger] s1[j].id == s2[j].id,
    ensures
        model_from(s1, id, i) == model_from(s2, id, i),
    decreases s1.len() - i,
{
    if i >= 0 && i < s1.len() {
        lemma_model_same_ids(s1, s2, id, i + 1);
    }
}

proof fn lemma_model_push(s: Seq<ModelArtifact>, x: ModelArtifact, id: ModelVersionId, i: int)
    requires
        0 <= i <= s.len(),
    ensures
        model_from(s.push(x), id, i) == (match model_from(s, id, i) {
            Some(j) => Some(j),
            None => if x.id == id { Some(s.len() as int) } else { None },
        }),
    decreases s.len() - i,
{
    let t = s.push(x);
    if i < s.len() {
        assert(t[i] == s[i]);
        lemma_model_push(s, x, id, i + 1);
    } else {
        assert(t[i] == x);
        assert(model_from(t, id, i + 1) is None);
    }
}

/// Registered models with the active and shadow designations.
#[derive(Debug)]
pub struct ModelRegistry {
    models: Vec<ModelArtifact>,
    active: Option<ModelVersionId>,
    shadow: Option<ModelVersionId>,
}

impl Default for ModelRegistry {
    fn default() -> (r: Self)
        ensures
            forall|id: ModelVersionId| #[trigger] r.model(id) is None,
            r.active_id() is None,
            r.shadow_id() is None,
    {
        ModelRegistry { models: Vec::new(), active: None, shadow: None }
    }
}

impl ModelRegistry {
    /// The artifact registered under `id`.
    pub closed spec fn model(&self, id: ModelVersionId) -> Option<ModelArtifact> {
        match model_from(self.models@, id, 0) {
            Some(i) => Some(self.models@[i]),
            None => None,
        }
    }

    /// The model designated active.
    pub closed spec fn active_id(&self) -> Option<ModelVersionId> {
        self.active
    }

    /// The model designated as shadow challenger.
    pub closed spec fn shadow_id(&self) -> Option<ModelVersionId> {
        self.shadow
    }

    fn position(&self, id: ModelVersionId) -> (r: Option<usize>)
        ensures
            match r {
                Some(i) => i < self.models@.len() && model_from(self.models@, id, 0) == Some(i as int)
                    && self.models@[i as int].id == id,
                None => model_from(self.models@, id, 0) is None,
            },
    {
        let mut i: usize = 0;
        while i < self.models.len()
            invariant
                i <= self.models@.len(),
                model_from(self.models@, id, 0) == model_from(self.models@, id, i as int),
            decreases self.models@.len() - i,
        {
            if self.models[i].id == id {
                return Some(i);
            }
            i = i + 1;
        }
        None
    }

    /// Sets the state of the model at `i`, keeping everything else.
    fn set_state_at(&mut self, i: usize, to: ModelState)
        requires
            i < old(self).models@.len(),
            model_from(old(self).models@, old(self).models@[i as int].id, 0) == Some(i as int),
        ensures
            final(self).active == old(self).active,
            final(self).shadow == old(self).shadow,
            final(self).model(old(self).models@[i as int].id)
                == Some(ModelArtifact { state: to, ..old(self).models@[i as int] }),
            forall|other: ModelVersionId| other != old(self).models@[i as int].id ==>
                #[trigger] final(self).model(other) == old(self).model(other),
    {
        let ghost before = self.models@;
        let mut m = self.models.remove(i);
        m.state = to;
        self.models.insert(i, m);
        proof {
            let after = self.models@;
            assert(after =~= before.update(i as int, ModelArtifact { state: to, ..before[i as int] }));
            assert forall|j: int| 0 <= j < before.len() implies #[trigger] before[j].id == after[j].id by {}
            let id = before[i as int].id;
            lemma_model_same_ids(before, after, id, 0);
            assert forall|other: ModelVersionId| other != id implies #[trigger] model_from(after, other, 0) == model_from(before, other, 0) by {
                lemma_model_same_ids(before, after, other, 0);
            }
            assert forall|other: ModelVersionId| other != id
                implies #[trigger] self.model(other) == old(self).model(other) by {
                lemma_model_same_ids(before, after, other, 0);
                lemma_model_from_bounds(before, other, 0);
            }
            lemma_model_from_bounds(before, id, 0);
        }
    }

    /// Inserts an artifact, replacing the one registered under the same id.
    /// State changes must go through `transition_state`.
    pub fn register(&mut self, artifact: ModelArtifact)
        ensures
            final(self).model(artifact.id) == Some(artifact),
            forall|other: ModelVersionId| other != artifact.id ==> #[trigger] final(self).model(other) == old(self).model(other),
            final(self).active_id() == old(self).active_id(),
            final(self).shadow_id() == old(self).shadow_id(),
    {
        let ghost before = self.models@;
        let ghost a = artifact;
        match self.position(artifact.id) {
            Some(i) => {
                let _ = self.models.remove(i);
                self.models.insert(i, artifact);
                proof {
                    let after = self.models@;
                    assert(after =~= before.update(i as int, a));
                    assert forall|j: int| 0 <= j < before.len() implies #[trigger] before[j].id == after[j].id by {}
                    lemma_model_same_ids(before, after, a.id, 0);
                    assert forall|other: ModelVersionId| other != a.id implies #[trigger] self.model(other) == old(self).model(other) by {
                        lemma_model_same_ids(before, after, other, 0);
                        lemma_model_from_bounds(before, other, 0);
                    }
                }
            },
            None => {
                self.models.push(artifact);
                proof {
                    lemma_model_push(before, a, a.id, 0);
                    assert forall|other: ModelVersionId| other != a.id implies #[trigger] self.model(other) == old(self).model(other) by {
                        lemma_model_push(before, a, other, 0);
                        lemma_model_from_bounds(before, other, 0);
                        if let Some(j) = model_from(before, other, 0) {
                            assert(self.models@[j] == before[j]);
                        }
                    }
                }
            },
        }
    }

    /// The artifact registered under `id`.
    pub fn get(&self, id: &ModelVersionId) -> (r: Option<&ModelArtifact>)
        ensures
            match r {
                Some(m) => self.model(*id) == Some(*m),
                None => self.model(*id) is None,
            },
    {
        match self.position(*id) {
            Some(i) => Some(&self.models[i]),
            None => None,
        }
    }

    /// Moves the model `id` to state `to` if the lifecycle permits it.
    /// Activating a model deprecates the previously active one and makes
    /// `id` the active model.
    pub fn transition_state(&mut self, id: ModelVersionId, to: ModelState) -> (r: Result<(), ModelError>)
        ensures
            final(self).shadow_id() == old(self).shadow_id(),
            old(self).model(id) is None ==> (r matches Err(ModelError::Unknown(msg)) && msg@ == id_text("mdl"@, id.0)
                && *final(self) == *old(self)),
            match old(self).model(id) {
                Some(m) => if !model_step(m.state, to) {
                    &&& r matches Err(ModelError::Policy(msg)) && msg@ == illegal_transition_message(m.state, to)
                    &&& *final(self) == *old(self)
                } else {
                    &&& r is Ok
                    &&& final(self).active_id() == (if to == ModelState::Active { Some(id) } else { old(self).active_id() })
                    &&& forall|other: ModelVersionId| #[trigger] final(self).model(other) == stepped(*old(self), id, to, other)
                },
                None => true,
            },
    {
        let i = match self.position(id) {
            Some(i) => i,
            None => return Err(ModelError::Unknown(id.display())),
        };
        let from = self.models[i].state;
        if !step_permitted(from, to) {
            return Err(ModelError::Policy(transition_message(from, to)));
        }
        let ghost o = *self;
        self.set_state_at(i, to);
        if to == ModelState::Active {
            if let Some(prev) = self.active {
                if let Some(j) = self.position(prev) {
                    let ghost mid = *self;
                    self.set_state_at(j, ModelState::Deprecated);
                    assert forall|other: ModelVersionId| #[trigger] self.model(other) == stepped(o, id, to, other) by {
                        if other != prev {
                            assert(self.model(other) == mid.model(other));
                        }
                    }
                } else {
                    assert forall|other: ModelVersionId| #[trigger] self.model(other) == stepped(o, id, to, other) by {
                        if other == prev {
                            assert(o.model(prev) is None) by {
                                if other != id { assert(self.model(other) == o.model(other)); }
                            }
                        }
                    }
                }
            }
            let ghost before_ptr = *self;
            self.active = Some(id);
            assert forall|other: ModelVersionId| #[trigger] self.model(other) == before_ptr.model(other) by {}
        } else {
            assert forall|other: ModelVersionId| #[trigger] self.model(other) == stepped(o, id, to, other) by {
                if other != id {
                    assert(self.model(other) == o.model(other));
                }
            }
        }
        assert(forall|other: ModelVersionId| #[trigger] self.model(other) == stepped(o, id, to, other));
        Ok(())
    }

    /// The model designated active, if it is registered.
    pub fn active_model(&self) -> (r: Option<&ModelArtifact>)
        ensures
            match r {
                Some(m) => self.active_id() matches Some(a) && self.model(a) == Some(*m),
                None => self.active_id() is None || self.model(self.active_id()->0) is None,
            },
    {
        match self.active {
            Some(a) => self.get(&a),
            None => None,
        }
    }

    /// Designates `id` as the shadow challenger; it must be in Shadow state.
    pub fn set_shadow(&mut self, id: ModelVersionId) -> (r: Result<(), ModelError>)
        ensures
            forall|other: ModelVersionId| #[trigger] final(self).model(other) == old(self).model(other),
            final(self).active_id() == old(self).active_id(),
            old(self).model(id) is None ==> (r matches Err(ModelError::Unknown(msg)) && msg@ == id_text("mdl"@, id.0)
                && final(self).shadow_id() == old(self).shadow_id()),
            match old(self).model(id) {
                Some(m) => if m.state != ModelState::Shadow {
                    &&& r matches Err(ModelError::Policy(msg)) && msg@ == not_shadow_message(id)
                    &&& final(self).shadow_id() == old(self).shadow_id()
                } else {
                    r is Ok && final(self).shadow_id() == Some(id)
                },
                None => true,
            },
    {
        let i = match self.position(id) {
            Some(i) => i,
            None => return Err(ModelError::Unknown(id.display())),
        };
        if self.models[i].state != ModelState::Shadow {
            let mut v = chars_of("model ");
            let shown = id.display();
            let mut w = chars_of(shown.as_str());
            v.append(&mut w);
            let mut x = chars_of(" is not in Shadow state");
            v.append(&mut x);
            return Err(ModelError::Policy(string_from_chars(v.as_slice())));
        }
        self.shadow = Some(id);
        Ok(())
    }

    /// Rolls the active designation back to `id`: re-approves it, then
    /// activates it (deprecating the model active before).
    pub fn rollback_active_to(&mut self, id: ModelVersionId) -> (r: Result<(), ModelError>)
        ensures
            final(self).shadow_id() == old(self).shadow_id(),
            r is Ok <==> (old(self).model(id) matches Some(m) && model_step(m.state, ModelState::Approved)),
            r is Ok ==> final(self).active_id() == Some(id)
                && forall|other: ModelVersionId| #[trigger] final(self).model(other)
                    == stepped(*old(self), id, ModelState::Active, other),
            r is Err ==> *final(self) == *old(self),
    {
        let ghost o = *self;
        match self.transition_state(id, ModelState::Approved) {
            Ok(()) => {},
            Err(e) => return Err(e),
        }
        let ghost m = *self;
        assert(self.model(id) == stepped(o, id, ModelState::Approved, id));
        let r = self.transition_state(id, ModelState::Active);
        proof {
            assert forall|other: ModelVersionId| #[trigger] self.model(other) == stepped(o, id, ModelState::Active, other) by {
                assert(m.model(other) == stepped(o, id, ModelState::Approved, other));
                assert(self.model(other) == stepped(m, id, ModelState::Active, other));
            }
        }
        r
    }
}

/// The model registered under `other` after moving `id` to `to`: `id` takes
/// state `to`; when `to` is Active the previously active model becomes
/// Deprecated.
pub open spec fn stepped(o: ModelRegistry, id: ModelVersionId, to: ModelState, other: ModelVersionId) -> Option<ModelArtifact> {
    let base = if other == id {
        match o.model(id) {
            Some(m) => Some(ModelArtifact { state: to, ..m }),
            None => None,
        }
    } else {
        o.model(other)
    };
    if to == ModelState::Active && o.active_id() == Some(other) {
        match base {
            Some(m) => Some(ModelArtifact { state: ModelState::Deprecated, ..m }),
            None => None,
        }
    } else {
        base
    }
}

/// Every model in the Active state is the one the registry names active.
pub open spec fn single_active(r: ModelRegistry) -> bool {
    forall|x: ModelVersionId| #[trigger] r.model(x) matches Some(m) && m.state == ModelState::Active
        ==> r.active_id() == Some(x)
}

/// Revoked is terminal: no transition leaves it.
pub proof fn law_revoked_is_terminal(to: ModelState)
    ensures
        !model_step(ModelState::Revoked, to),
{
}

/// Which states each lifecycle state can be reached from. A model is
/// revoked from any state it reaches once validated (Shadow, Approved,
/// Active, Deprecated), so an Active model can always be revoked; it is
/// deprecated only while Approved or Active; it becomes Active only from
/// Approved; it is approved after validation, from Shadow, or from
/// Deprecated (the rollback path); validation starts only from Draft,
/// Shadow is entered only from Validating, and nothing returns to Draft.
pub proof fn law_lifecycle_entries(s: ModelState)
    ensures
        model_step(s, ModelState::Revoked) <==> (s == ModelState::Shadow || s == ModelState::Approved
            || s == ModelState::Active || s == ModelState::Deprecated),
        model_step(s, ModelState::Deprecated) <==> (s == ModelState::Approved || s == ModelState::Active),
        model_step(s, ModelState::Active) <==> s == ModelState::Approved,
        model_step(s, ModelState::Approved) <==> (s == ModelState::Validating || s == ModelState::Shadow
            || s == ModelState::Deprecated),
        model_step(s, ModelState::Validating) <==> s == ModelState::Draft,
        model_step(s, ModelState::Shadow) <==> s == ModelState::Validating,
        !model_step(s, ModelState::Draft),
{
}

/// At most one model is Active: a permitted transition keeps every Active
/// model named as the active one (activating a model deprecates the one
/// active before).
pub proof fn law_transition_keeps_single_active(o: ModelRegistry, id: ModelVersionId, to: ModelState)
    requires
        single_active(o),
        o.model(id) matches Some(m) && model_step(m.state, to),
    ensures
        forall|x: ModelVersionId| #[trigger] stepped(o, id, to, x) matches Some(m) && m.state == ModelState::Active
            ==> (if to == ModelState::Active { Some(id) } else { o.active_id() }) == Some(x),
{
    assert forall|x: ModelVersionId| #[trigger] stepped(o, id, to, x) matches Some(m) && m.state == ModelState::Active
        implies (if to == ModelState::Active { Some(id) } else { o.active_id() }) == Some(x) by {
        if x != id {
            assert(o.model(x) matches Some(m) && m.state == ModelState::Active);
        }
    }
}

/// Applies model corrections. Corrections come only from the Active model;
/// out-of-distribution inputs are recorded but never applied.
#[derive(Debug)]
pub struct CorrectionRuntime<'r> {
    pub registry: &'r ModelRegistry,
    pub ood_reject: bool,
}

/// Status of a correction for an input with the given distribution flag.
pub open spec fn status_for(is_out_of_distribution: bool, ood_reject: bool) -> CorrectionStatus {
    if is_out_of_distribution {
        if ood_reject { CorrectionStatus::Rejected } else { CorrectionStatus::Untrusted }
    } else {
        CorrectionStatus::Applied
    }
}

impl<'r> CorrectionRuntime<'r> {
    pub fn new(registry: &'r ModelRegistry) -> (r: CorrectionRuntime<'r>)
        ensures
            r.registry == registry,
            r.ood_reject,
    {
        CorrectionRuntime { registry, ood_reject: true }
    }

    /// The model a correction may be drawn from: it must be registered and
    /// Active.
    pub fn applicable_model(&self, model_id: ModelVersionId) -> (r: Result<&ModelArtifact, ModelError>)
        ensures
            match self.registry.model(model_id) {
                None => r matches Err(ModelError::Unknown(msg)) && msg@ == id_text("mdl"@, model_id.0),
                Some(m) => if m.state != ModelState::Active {
                    r matches Err(ModelError::NotActive(s)) && s == m.state
                } else {
                    r matches Ok(x) && *x == m
                },
            },
    {
        let m = match self.registry.get(&model_id) {
            Some(m) => m,
            None => return Err(ModelError::Unknown(model_id.display())),
        };
        if m.state != ModelState::Active {
            return Err(ModelError::NotActive(m.state));
        }
        Ok(m)
    }

    /// Status of a correction: an out-of-distribution input is Rejected (or
    /// Untrusted when rejection is off), anything else is Applied.
    pub fn correction_status(&self, is_out_of_distribution: bool) -> (r: CorrectionStatus)
        ensures
            r == status_for(is_out_of_distribution, self.ood_reject),
    {
        if is_out_of_distribution {
            if self.ood_reject { CorrectionStatus::Rejected } else { CorrectionStatus::Untrusted }
        } else {
            CorrectionStatus::Applied
        }
    }

    /// The champion (the active model) and the challenger of a shadow
    /// evaluation; `None` when no model is active. The challenger must be in
    /// Shadow state. Neither is applied to operational state.
    pub fn shadow_models(&self, challenger_id: ModelVersionId) -> (r: Result<Option<(&ModelArtifact, &ModelArtifact)>, ModelError>)
        ensures
            (self.registry.active_id() is None || self.registry.model(self.registry.active_id()->0) is None)
                ==> r matches Ok(None),
            match self.registry.active_id() {
                Some(a) => match self.registry.model(a) {
                    Some(champion) => match self.registry.model(challenger_id) {
                        None => r matches Err(ModelError::Unknown(msg)) && msg@ == id_text("mdl"@, challenger_id.0),
                        Some(c) => if c.state != ModelState::Shadow {
                            r matches Err(ModelError::Policy(msg)) && msg@ == "challenger is not in Shadow state"@
                        } else {
                            r matches Ok(Some(pair)) && *pair.0 == champion && *pair.1 == c
                        },
                    },
                    None => true,
                },
                None => true,
            },
    {
        let champion = match self.registry.active_model() {
            Some(m) => m,
            None => return Ok(None),
        };
        let challenger = match self.registry.get(&challenger_id) {
            Some(m) => m,
            None => return Err(ModelError::Unknown(challenger_id.display())),
        };
        if challenger.state != ModelState::Shadow {
            let msg = "challenger is not in Shadow state";
            proof { reveal_strlit("challenger is not in Shadow state"); }
            return Err(ModelError::Policy(msg.to_owned()));
        }
        Ok(Some((champion, challenger)))
    }
}

} // verus!
