//! Runtime lifecycle state machine.
//!
//! Permitted transitions:
//!
//!   Uninitialized -> ValidatingConfiguration
//!   ValidatingConfiguration -> Starting | Failed
//!   Starting -> Ready | Failed
//!   Ready    -> Degraded | Paused | ShuttingDown | Failed
//!   Degraded -> Ready | Paused | ShuttingDown | Failed
//!   Paused   -> Ready | ShuttingDown | Failed
//!   ShuttingDown -> Uninitialized
//!   Failed   -> Uninitialized
//!
//! Any other transition is refused, and promotion to Ready needs a
//! validated configuration.

use vstd::prelude::*;
use crate::contracts::health::RuntimeState;
use crate::digest::{hex_lower, sha256_spec};
use crate::runtime::config::{config_errors, ConfigError, RuntimeConfig};

verus! {

/// Why the supervisor refused a request.
#[derive(Debug)]
pub enum RuntimeError {
    IllegalTransition { from: RuntimeState, to: RuntimeState },
    InvalidConfiguration(Vec<ConfigError>),
    NoValidatedConfig,
}

/// Whether the lifecycle permits moving from `from` to `to`.
pub open spec fn permitted(from: RuntimeState, to: RuntimeState) -> bool {
    match (from, to) {
        (RuntimeState::Uninitialized, RuntimeState::ValidatingConfiguration) => true,
        (RuntimeState::ValidatingConfiguration, RuntimeState::Starting) => true,
        (RuntimeState::ValidatingConfiguration, RuntimeState::Failed) => true,
        (RuntimeState::Starting, RuntimeState::Ready) => true,
        (RuntimeState::Starting, RuntimeState::Failed) => true,
        (RuntimeState::Ready, RuntimeState::Degraded) => true,
        (RuntimeState::Ready, RuntimeState::Paused) => true,
        (RuntimeState::Ready, RuntimeState::ShuttingDown) => true,
        (RuntimeState::Ready, RuntimeState::Failed) => true,
        (RuntimeState::Degraded, RuntimeState::Ready) => true,
        (RuntimeState::Degraded, RuntimeState::Paused) => true,
        (RuntimeState::Degraded, RuntimeState::ShuttingDown) => true,
        (RuntimeState::Degraded, RuntimeState::Failed) => true,
        (RuntimeState::Paused, RuntimeState::Ready) => true,
        (RuntimeState::Paused, RuntimeState::ShuttingDown) => true,
        (RuntimeState::Paused, RuntimeState::Failed) => true,
        (RuntimeState::ShuttingDown, RuntimeState::Uninitialized) => true,
        (RuntimeState::Failed, RuntimeState::Uninitialized) => true,
        _ => false,
    }
}

/// Shape of the lifecycle: it is re-entered only from ShuttingDown or
/// Failed, it starts only by validating a configuration, Ready is reached
/// only from Starting, Degraded or Paused, Failed is reachable from every
/// state between validation and shutdown, and no state steps to itself.
pub proof fn law_lifecycle_shape(from: RuntimeState, to: RuntimeState)
    ensures
        permitted(from, RuntimeState::Uninitialized)
            <==> (from == RuntimeState::ShuttingDown || from == RuntimeState::Failed),
        permitted(RuntimeState::Uninitialized, to) <==> to == RuntimeState::ValidatingConfiguration,
        permitted(from, RuntimeState::Ready)
            <==> (from == RuntimeState::Starting || from == RuntimeState::Degraded || from == RuntimeState::Paused),
        (from == RuntimeState::ValidatingConfiguration || from == RuntimeState::Starting || from == RuntimeState::Ready
            || from == RuntimeState::Degraded || from == RuntimeState::Paused) ==> permitted(from, RuntimeState::Failed),
        !permitted(from, from),
{
}

/// The lifecycle supervisor.
#[derive(Debug)]
pub struct RuntimeSupervisor {
    state: RuntimeState,
    validated_digest: Option<String>,
    production_mode: bool,
}

impl RuntimeSupervisor {
    pub closed spec fn current(&self) -> RuntimeState {
        self.state
    }

    /// The digest of the configuration validated last, if any.
    pub closed spec fn validated(&self) -> Option<Seq<char>> {
        match self.validated_digest {
            Some(d) => Some(d@),
            None => None,
        }
    }

    pub closed spec fn production(&self) -> bool {
        self.production_mode
    }

    pub fn new(production_mode: bool) -> (r: RuntimeSupervisor)
        ensures
            r.current() == RuntimeState::Uninitialized,
            r.validated() is None,
            r.production() == production_mode,
    {
        RuntimeSupervisor { state: RuntimeState::Uninitialized, validated_digest: None, production_mode }
    }

    pub fn state(&self) -> (r: RuntimeState)
        ensures
            r == self.current(),
    {
        self.state
    }

    /// Attempts a transition. A transition the lifecycle does not permit, or
    /// a promotion to Ready without a validated configuration, is refused and
    /// leaves the supervisor unchanged.
    pub fn transition(&mut self, to: RuntimeState) -> (r: Result<(), RuntimeError>)
        ensures
            final(self).validated() == old(self).validated(),
            final(self).production() == old(self).production(),
            !permitted(old(self).current(), to) ==> (r matches Err(RuntimeError::IllegalTransition { from, to: t })
                && from == old(self).current() && t == to && final(self).current() == old(self).current()),
            permitted(old(self).current(), to) && to == RuntimeState::Ready && old(self).validated() is None
                ==> (r matches Err(RuntimeError::NoValidatedConfig) && final(self).current() == old(self).current()),
            permitted(old(self).current(), to) && !(to == RuntimeState::Ready && old(self).validated() is None)
                ==> (r is Ok && final(self).current() == to),
    {
        let from = self.state;
        let ok = {
                    match (from, to) {
                (RuntimeState::Uninitialized, RuntimeState::ValidatingConfiguration) => true,
                (RuntimeState::ValidatingConfiguration, RuntimeState::Starting) => true,
                (RuntimeState::ValidatingConfiguration, RuntimeState::Failed) => true,
                (RuntimeState::Starting, RuntimeState::Ready) => true,
                (RuntimeState::Starting, RuntimeState::Failed) => true,
                (RuntimeState::Ready, RuntimeState::Degraded) => true,
                (RuntimeState::Ready, RuntimeState::Paused) => true,
                (RuntimeState::Ready, RuntimeState::ShuttingDown) => true,
                (RuntimeState::Ready, RuntimeState::Failed) => true,
                (RuntimeState::Degraded, RuntimeState::Ready) => true,
                (RuntimeState::Degraded, RuntimeState::Paused) => true,
                (RuntimeState::Degraded, RuntimeState::ShuttingDown) => true,
                (RuntimeState::Degraded, RuntimeState::Failed) => true,
                (RuntimeState::Paused, RuntimeState::Ready) => true,
                (RuntimeState::Paused, RuntimeState::ShuttingDown) => true,
                (RuntimeState::Paused, RuntimeState::Failed) => true,
                (RuntimeState::ShuttingDown, RuntimeState::Uninitialized) => true,
                (RuntimeState::Failed, RuntimeState::Uninitialized) => true,
                _ => false,
            }
        };
        if !ok {
            return Err(RuntimeError::IllegalTransition { from, to });
        }
        if to == RuntimeState::Ready && self.validated_digest.is_none() {
            return Err(RuntimeError::NoValidatedConfig);
        }
        self.state = to;
        Ok(())
    }

    /// Forgets the validated configuration, as a restarted supervisor must
    /// re-validate before it can reach Ready again.
    pub fn forget_validated_configuration(&mut self)
        ensures
            final(self).validated() is None,
            final(self).current() == old(self).current(),
            final(self).production() == old(self).production(),
    {
        self.validated_digest = None;
    }

    /// Validates a candidate configuration, given its canonical serialisation:
    /// `canonical_json` must be `cfg` as `serde_json::to_vec` renders it (see
    /// `RuntimeConfig::digest_hex`).
    /// On success the digest is stored and the supervisor moves
    /// Uninitialized -> ValidatingConfiguration -> Starting; on failure it
    /// moves Uninitialized -> ValidatingConfiguration -> Failed.
    pub fn validate_and_stage(&mut self, cfg: &RuntimeConfig, canonical_json: &[u8]) -> (r: Result<String, RuntimeError>)
        ensures
            final(self).production() == old(self).production(),
            old(self).current() != RuntimeState::Uninitialized ==> (r matches Err(RuntimeError::IllegalTransition { from, to })
                && from == old(self).current() && to == RuntimeState::ValidatingConfiguration
                && final(self).current() == old(self).current()
                && final(self).validated() == old(self).validated()),
            old(self).current() == RuntimeState::Uninitialized && config_errors(*cfg, old(self).production()).len() == 0
                ==> (r matches Ok(d) && d@ == hex_lower(sha256_spec(canonical_json@))
                    && final(self).validated() == Some(d@)
                    && final(self).current() == RuntimeState::Starting),
            old(self).current() == RuntimeState::Uninitialized && config_errors(*cfg, old(self).production()).len() > 0
                ==> (r matches Err(RuntimeError::InvalidConfiguration(errs))
                    && errs@ == config_errors(*cfg, old(self).production())
                    && final(self).current() == RuntimeState::Failed
                    && final(self).validated() == old(self).validated()),
    {
        match self.transition(RuntimeState::ValidatingConfiguration) {
            Ok(()) => {},
            Err(e) => return Err(e),
        }
        match cfg.validate(self.production_mode) {
            Ok(()) => {
                let digest = RuntimeConfig::digest_hex(canonical_json);
                self.validated_digest = Some(digest.clone());
                match self.transition(RuntimeState::Starting) {
                    Ok(()) => {},
                    Err(e) => return Err(e),
                }
                Ok(digest)
            },
            Err(errs) => {
                self.state = RuntimeState::Failed;
                Err(RuntimeError::InvalidConfiguration(errs))
            },
        }
    }
}

} // verus!
