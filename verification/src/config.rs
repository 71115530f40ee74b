//! The session configurator.
//!
//! Before any transfer, three operations must succeed in order: activate the
//! endpoint's configuration, claim its interface, select its alternate
//! setting. Each step may only be attempted after the one before it
//! succeeded, and the whole operation is atomic in effect: the first failure
//! halts it immediately, recording which step failed, and nothing is retried.

use vstd::prelude::*;

use crate::Endpoint;

verus! {

/// The three ordered configuration steps.
#[derive(Clone, Copy, Debug, PartialEq, Eq, Structural)]
pub enum ConfigStep {
    SetConfiguration,
    ClaimInterface,
    SetAlternateSetting,
}

/// One operation the transport is asked to perform, with the values the
/// resolved endpoint dictates.
#[derive(Clone, Copy, Debug, PartialEq, Eq, Structural)]
pub enum ConfigAction {
    /// Activate this configuration.
    SetConfiguration(u8),
    /// Claim this interface for exclusive use.
    ClaimInterface(u8),
    /// Select this (interface, alternate setting) pair.
    SetAlternateSetting(u8, u8),
}

/// Where a configuration run stands: one step pending, all steps done, or
/// halted at the step that failed.
#[derive(Clone, Copy, Debug, PartialEq, Eq, Structural)]
pub enum ConfigState {
    Pending(ConfigStep),
    Done,
    Failed(ConfigStep),
}

/// The state of a configurator that has performed nothing yet.
pub open spec fn initial_config_state() -> ConfigState {
    ConfigState::Pending(ConfigStep::SetConfiguration)
}

/// The state entered when a pending step succeeds.
pub open spec fn after_success(s: ConfigStep) -> ConfigState {
    match s {
        ConfigStep::SetConfiguration => ConfigState::Pending(ConfigStep::ClaimInterface),
        ConfigStep::ClaimInterface => ConfigState::Pending(ConfigStep::SetAlternateSetting),
        ConfigStep::SetAlternateSetting => ConfigState::Done,
    }
}

/// One transition: a pending step either advances or fails the whole run;
/// the terminal states absorb every further result.
pub open spec fn spec_config_step(state: ConfigState, ok: bool) -> ConfigState {
    match state {
        ConfigState::Pending(s) => if ok {
            after_success(s)
        } else {
            ConfigState::Failed(s)
        },
        _ => state,
    }
}

/// The action a pending step asks of the transport.
pub open spec fn spec_action_of(ep: Endpoint, s: ConfigStep) -> ConfigAction {
    match s {
        ConfigStep::SetConfiguration => ConfigAction::SetConfiguration(ep.config),
        ConfigStep::ClaimInterface => ConfigAction::ClaimInterface(ep.iface),
        ConfigStep::SetAlternateSetting => ConfigAction::SetAlternateSetting(ep.iface, ep.setting),
    }
}

/// A whole run driven from `state`: the steps it issues, one per consumed
/// result, and the state it ends in. The run stops at the first failure or
/// when all steps are done, never retrying a step.
pub open spec fn spec_config_run(state: ConfigState, results: Seq<bool>) -> (Seq<ConfigStep>,
    ConfigState)
    decreases results.len(),
{
    match state {
        ConfigState::Pending(s) => if results.len() == 0 {
            (Seq::<ConfigStep>::empty(), state)
        } else {
            let rest = spec_config_run(
                spec_config_step(state, results[0]),
                results.subrange(1, results.len() as int),
            );
            (seq![s] + rest.0, rest.1)
        },
        _ => (Seq::<ConfigStep>::empty(), state),
    }
}

/// Configuration is atomic on failure. For every sequence of step results,
/// the steps a fresh configurator issues are a prefix of set-configuration,
/// claim-interface, set-alternate-setting, in that order and each at most
/// once; the run halts at the first failed step and issues nothing after it.
/// In particular, when claiming the interface fails, the set-configuration
/// step has already been issued, exactly once, and is not retried: the run
/// ends failed at the claim.
pub proof fn lemma_configurator_atomic_on_failure(results: Seq<bool>)
    requires
        results.len() >= 3,
    ensures
        !results[0] ==> spec_config_run(initial_config_state(), results).0
            =~= seq![ConfigStep::SetConfiguration] && spec_config_run(
            initial_config_state(),
            results,
        ).1 == ConfigState::Failed(ConfigStep::SetConfiguration),
        results[0] && !results[1] ==> spec_config_run(initial_config_state(), results).0
            =~= seq![ConfigStep::SetConfiguration, ConfigStep::ClaimInterface] && spec_config_run(
            initial_config_state(),
            results,
        ).1 == ConfigState::Failed(ConfigStep::ClaimInterface),
        results[0] && results[1] && !results[2] ==> spec_config_run(
            initial_config_state(),
            results,
        ).0
            =~= seq![
            ConfigStep::SetConfiguration,
            ConfigStep::ClaimInterface,
            ConfigStep::SetAlternateSetting,
        ] && spec_config_run(initial_config_state(), results).1 == ConfigState::Failed(
            ConfigStep::SetAlternateSetting,
        ),
        results[0] && results[1] && results[2] ==> spec_config_run(
            initial_config_state(),
            results,
        ).0
            =~= seq![
            ConfigStep::SetConfiguration,
            ConfigStep::ClaimInterface,
            ConfigStep::SetAlternateSetting,
        ] && spec_config_run(initial_config_state(), results).1 == ConfigState::Done,
{
    reveal_with_fuel(spec_config_run, 5);
    let r1 = results.subrange(1, results.len() as int);
    let r2 = r1.subrange(1, r1.len() as int);
    let r3 = r2.subrange(1, r2.len() as int);
    assert(r1[0] == results[1]);
    assert(r2[0] == results[2]);
    assert(r1.len() == results.len() - 1);
    assert(r2.len() == results.len() - 2);
}

/// Drives the three configuration steps in order and halts at the first
/// failure.
pub struct Configurator {
    pub endpoint: Endpoint,
    pub state: ConfigState,
}

impl Configurator {
    /// A fresh run for one resolved endpoint; nothing performed yet.
    pub fn new(endpoint: Endpoint) -> (r: Self)
        ensures
            r.endpoint == endpoint,
            r.state == initial_config_state(),
    {
        Configurator { endpoint, state: ConfigState::Pending(ConfigStep::SetConfiguration) }
    }

    /// The operation the transport must perform next; nothing once the run
    /// is done or failed.
    pub fn current_action(&self) -> (r: Option<ConfigAction>)
        ensures
            r == match self.state {
                ConfigState::Pending(s) => Some(spec_action_of(self.endpoint, s)),
                _ => None::<ConfigAction>,
            },
    {
        match self.state {
            ConfigState::Pending(ConfigStep::SetConfiguration) => Some(
                ConfigAction::SetConfiguration(self.endpoint.config),
            ),
            ConfigState::Pending(ConfigStep::ClaimInterface) => Some(
                ConfigAction::ClaimInterface(self.endpoint.iface),
            ),
            ConfigState::Pending(ConfigStep::SetAlternateSetting) => Some(
                ConfigAction::SetAlternateSetting(self.endpoint.iface, self.endpoint.setting),
            ),
            _ => None,
        }
    }

    /// Record whether the pending step succeeded: success advances to the
    /// next step, failure halts the whole run at this step.
    pub fn record_result(&mut self, ok: bool)
        requires
            old(self).state matches ConfigState::Pending(_),
        ensures
            final(self).endpoint == old(self).endpoint,
            final(self).state == spec_config_step(old(self).state, ok),
    {
        match self.state {
            ConfigState::Pending(s) => {
                if ok {
                    self.state = match s {
                        ConfigStep::SetConfiguration => ConfigState::Pending(
                            ConfigStep::ClaimInterface,
                        ),
                        ConfigStep::ClaimInterface => ConfigState::Pending(
                            ConfigStep::SetAlternateSetting,
                        ),
                        ConfigStep::SetAlternateSetting => ConfigState::Done,
                    };
                } else {
                    self.state = ConfigState::Failed(s);
                }
            },
            _ => {},
        }
    }

    /// Whether every step has succeeded.
    pub fn is_configured(&self) -> (r: bool)
        ensures
            r == (self.state == ConfigState::Done),
    {
        self.state == ConfigState::Done
    }

    /// The step the run failed at, if it failed.
    pub fn failed_step(&self) -> (r: Option<ConfigStep>)
        ensures
            r == match self.state {
                ConfigState::Failed(s) => Some(s),
                _ => None::<ConfigStep>,
            },
    {
        match self.state {
            ConfigState::Failed(s) => Some(s),
            _ => None,
        }
    }
}

} // verus!
