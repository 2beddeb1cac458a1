use aeon::contracts::ids::ModelVersionId;
use aeon::correction::registry::{
    CorrectionRuntime, CorrectionStatus, ModelArtifact, ModelError, ModelRegistry, ModelState,
};
use aeon::digest::sha256_hex;

fn mk(name: &str, ver: &str, state: ModelState) -> ModelArtifact {
    let digest = ModelArtifact::compute_artifact_digest(name, ver, "features-v1", "outputs-v1");
    ModelArtifact {
        id: ModelVersionId::new(),
        name: name.into(),
        version: ver.into(),
        feature_schema: "features-v1".into(),
        output_schema: "outputs-v1".into(),
        artifact_digest_hex: digest,
        signature_hex: "SIG".into(),
        known_limitations: vec!["baseline model".into()],
        state,
    }
}

#[test]
fn only_active_models_apply_corrections() {
    let mut reg = ModelRegistry::default();
    let m = mk("bias-corrector", "1.0", ModelState::Approved);
    let id = m.id;
    reg.register(m);
    {
        let rt = CorrectionRuntime::new(&reg);
        let err = rt.applicable_model(id).unwrap_err();
        assert!(matches!(err, ModelError::NotActive(ModelState::Approved)));
    }
    reg.transition_state(id, ModelState::Active).unwrap();
    let rt = CorrectionRuntime::new(&reg);
    assert_eq!(rt.applicable_model(id).unwrap().id, id);
    assert_eq!(rt.correction_status(false), CorrectionStatus::Applied);
    assert!(matches!(rt.applicable_model(ModelVersionId(7)), Err(ModelError::Unknown(_))));
}

#[test]
fn ood_input_defaults_to_rejected_but_correction_is_recorded() {
    let reg = ModelRegistry::default();
    let mut rt = CorrectionRuntime::new(&reg);
    assert_eq!(rt.correction_status(true), CorrectionStatus::Rejected);
    rt.ood_reject = false;
    assert_eq!(rt.correction_status(true), CorrectionStatus::Untrusted);
}

#[test]
fn rollback_reactivates_prior_version() {
    let mut reg = ModelRegistry::default();
    let a = mk("bias", "1.0", ModelState::Approved);
    let b = mk("bias", "2.0", ModelState::Approved);
    let (aid, bid) = (a.id, b.id);
    reg.register(a);
    reg.register(b);
    reg.transition_state(aid, ModelState::Active).unwrap();
    assert_eq!(reg.active_model().unwrap().id, aid);
    reg.transition_state(bid, ModelState::Active).unwrap();
    assert_eq!(reg.active_model().unwrap().id, bid);
    assert_eq!(reg.get(&aid).unwrap().state, ModelState::Deprecated);
    reg.rollback_active_to(aid).unwrap();
    assert_eq!(reg.active_model().unwrap().id, aid);
    assert_eq!(reg.get(&aid).unwrap().state, ModelState::Active);
    assert_eq!(reg.get(&bid).unwrap().state, ModelState::Deprecated);
}

#[test]
fn shadow_evaluation_never_applies_challenger() {
    let mut reg = ModelRegistry::default();
    let a = mk("bias", "1.0", ModelState::Approved);
    let b = mk("bias", "2.0-shadow", ModelState::Validating);
    let (aid, bid) = (a.id, b.id);
    reg.register(a);
    reg.register(b);
    reg.transition_state(aid, ModelState::Active).unwrap();
    reg.transition_state(bid, ModelState::Shadow).unwrap();
    reg.set_shadow(bid).unwrap();
    let rt = CorrectionRuntime::new(&reg);
    let (champion, challenger) = rt.shadow_models(bid).unwrap().unwrap();
    assert_eq!(champion.id, aid);
    assert_eq!(challenger.id, bid);
    assert_eq!(challenger.state, ModelState::Shadow);
    assert!(matches!(rt.shadow_models(aid), Err(ModelError::Policy(_))));
}

#[test]
fn set_shadow_requires_shadow_state() {
    let mut reg = ModelRegistry::default();
    let a = mk("bias", "1.0", ModelState::Approved);
    let aid = a.id;
    reg.register(a);
    match reg.set_shadow(aid) {
        Err(ModelError::Policy(msg)) => {
            assert_eq!(msg, format!("model {} is not in Shadow state", aid.display()));
        }
        other => panic!("unexpected {:?}", other),
    }
}

#[test]
fn model_state_transitions_are_enforced() {
    let mut reg = ModelRegistry::default();
    let m = mk("bias", "1.0", ModelState::Draft);
    let id = m.id;
    reg.register(m);
    let err = reg.transition_state(id, ModelState::Active).unwrap_err();
    assert!(matches!(err, ModelError::Policy(_)));
    if let ModelError::Policy(msg) = err {
        assert_eq!(msg, "illegal state transition Draft -> Active");
    }
    assert_eq!(reg.get(&id).unwrap().state, ModelState::Draft);
    reg.transition_state(id, ModelState::Validating).unwrap();
    reg.transition_state(id, ModelState::Approved).unwrap();
    reg.transition_state(id, ModelState::Revoked).unwrap();
    for to in [
        ModelState::Draft,
        ModelState::Validating,
        ModelState::Shadow,
        ModelState::Approved,
        ModelState::Active,
        ModelState::Deprecated,
        ModelState::Revoked,
    ] {
        assert!(reg.transition_state(id, to).is_err(), "Revoked is terminal");
    }
    assert!(matches!(reg.transition_state(ModelVersionId(1), ModelState::Active), Err(ModelError::Unknown(_))));
}

#[test]
fn artifact_digest_is_input_sensitive() {
    let a = ModelArtifact::compute_artifact_digest("m", "1", "f", "o");
    let b = ModelArtifact::compute_artifact_digest("m", "2", "f", "o");
    assert_ne!(a, b);
    assert_eq!(a, sha256_hex(b"m1fo"));
}
