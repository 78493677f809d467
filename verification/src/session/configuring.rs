//! How a session takes a changed configuration.

use vstd::prelude::*;

use super::actor::SessionActor;
use super::agent::{agent_error, AgentError};
use super::lifecycle::ConfigStep;
use crate::api::AppProblem;
use crate::app::configuring::wants;
use crate::app::live::workspace_in;
use crate::config::{resolve_runtime, ConfigProblem, ConfigScope, Profile, RuntimeConfig};
use crate::error::Error;
use crate::file_config::AdapterDefaults;
use crate::ids::RuntimeId;
use crate::persistence::{profile_views, DataStore, StoreView};

verus! {

/// Whether this is the configuration that a session wants, or why it has none.
pub open spec fn resolves_config(
    actor: SessionActor,
    store: StoreView,
    defaults: AdapterDefaults,
    r: Result<RuntimeConfig, Error>,
) -> bool {
    if !store.has_workspace(actor.info.workspace) {
        r == Err::<RuntimeConfig, Error>(Error::WorkspaceNotFound)
    } else {
        exists|profiles: Seq<Profile>, desired: Result<RuntimeConfig, ConfigProblem>|
            {
                &&& store.offers(profile_views(profiles))
                &&& #[trigger] wants(
                    store,
                    actor.info.workspace,
                    Some(actor.info.id),
                    defaults,
                    profiles,
                    desired,
                )
                &&& r == (match desired {
                    Ok(config) => Ok::<RuntimeConfig, Error>(config),
                    Err(problem) => Err(Error::Configuration(problem)),
                })
            }
    }
}

/// What is to be done next for a changed configuration.
#[derive(Debug, PartialEq, Eq)]
pub enum ConfigNext {
    /// Nothing; the change is taken.
    Done,
    /// The agent is to be connected anew, to take the new configuration and to go on with it.
    Connect { runtime: RuntimeId, config: RuntimeConfig },
    /// The queued inputs are to be delivered.
    Deliver,
}

/// Whether the agent of a session is to be suspended for a step.
pub open spec fn suspends(actor: SessionActor, step: ConfigStep) -> bool {
    actor.runtime is Some && (step is Refuse || step is Fail || step is Reconfigure)
}

/// The problem that the queued inputs show after a step.
pub open spec fn problem_after(step: ConfigStep) -> Option<ConfigProblem> {
    match step {
        ConfigStep::Refuse(problem) => Some(problem),
        _ => None,
    }
}

/// Whether a step of a changed configuration goes on like this. An agent that could not be
/// suspended is reported before anything else. The queued inputs show why the configuration was
/// refused, or no problem any more. A refused configuration is reported where a runtime works, and
/// shown by the session where none does.
pub open spec fn continues_config(
    before: SessionActor,
    stored: StoreView,
    step: ConfigStep,
    suspended: Result<(), AgentError>,
    after: SessionActor,
    saved: StoreView,
    r: Result<ConfigNext, Error>,
) -> bool {
    if suspends(before, step) && suspended is Err {
        &&& saved == stored
        &&& after == before
        &&& r matches Err(error) && error.is_agent(suspended->Err_0.text())
    } else if step is Fail {
        &&& saved == stored
        &&& after == before
        &&& r == Err::<ConfigNext, Error>(step->Fail_0)
    } else {
        let (live, failed) = before.live(stored).noted(
            before.info.id,
            before.queued(),
            problem_after(step),
        );
        &&& after.live(saved) == live
        &&& match failed {
            Some(error) => {
                &&& after.differs_in_inputs(before)
                &&& r matches Err(shown) && error.becomes(shown)
            },
            None => match step {
                ConfigStep::Refuse(problem) => if before.runtime is Some {
                    &&& after.differs_in_inputs(before)
                    &&& r == Err::<ConfigNext, Error>(Error::Configuration(problem))
                } else {
                    &&& after == (SessionActor {
                        inputs: after.inputs,
                        problem: Some(AppProblem::Configuration(problem)),
                        ..before
                    })
                    &&& r == Ok::<ConfigNext, Error>(ConfigNext::Done)
                },
                ConfigStep::Reconfigure { runtime, config } => {
                    &&& after.differs_in_inputs(before)
                    &&& r == Ok::<ConfigNext, Error>(ConfigNext::Connect { runtime, config })
                },
                ConfigStep::Deliver => {
                    &&& after.differs_in_inputs(before)
                    &&& r == Ok::<ConfigNext, Error>(ConfigNext::Deliver)
                },
                _ => {
                    &&& after.differs_in_inputs(before)
                    &&& r == Ok::<ConfigNext, Error>(ConfigNext::Done)
                },
            },
        }
    }
}

impl SessionActor {
    /// The configuration that this session wants: each value from the nearest scope.
    pub fn resolve_config(&self, store: &DataStore, defaults: AdapterDefaults) -> (r: Result<
        RuntimeConfig,
        Error,
    >)
        requires
            defaults.usable(),
        ensures
            resolves_config(*self, store@, defaults, r),
    {
        let workspace = match workspace_in(store, self.info.workspace) {
            Ok(workspace) => workspace,
            Err(error) => {
                return Err(error);
            },
        };
        let global = store.global_settings(defaults.clone());
        let shared = store.config(ConfigScope::Workspace(workspace.id), defaults.clone());
        let own = store.config(ConfigScope::Session(self.info.id), defaults);
        let profiles = store.profiles();
        let desired = resolve_runtime(
            &global,
            Some(&shared),
            Some(&own),
            &profiles,
            workspace.root,
        );
        assert(wants(
            store@,
            self.info.workspace,
            Some(self.info.id),
            defaults,
            profiles@,
            desired,
        ));
        match desired {
            Ok(config) => Ok(config),
            Err(problem) => Err(Error::Configuration(problem)),
        }
    }

    /// Goes on with a changed configuration, once the agent was suspended where the step asks for
    /// it.
    pub fn continue_config(
        &mut self,
        store: &mut DataStore,
        step: ConfigStep,
        suspended: Result<(), AgentError>,
    ) -> (r: Result<ConfigNext, Error>)
        ensures
            continues_config(
                *old(self),
                old(store)@,
                step,
                suspended,
                *final(self),
                final(store)@,
                r,
            ),
    {
        let asked = self.runtime.is_some() && match &step {
            ConfigStep::Refuse(_) => true,
            ConfigStep::Fail(_) => true,
            ConfigStep::Reconfigure { .. } => true,
            _ => false,
        };
        if asked {
            match &suspended {
                Ok(()) => {},
                Err(error) => {
                    return Err(agent_error(error));
                },
            }
        }
        let problem = match &step {
            ConfigStep::Refuse(problem) => Some(problem.clone()),
            _ => None,
        };
        let step = match step {
            ConfigStep::Fail(error) => {
                return Err(error);
            },
            step => step,
        };
        match self.set_queued_problem(store, &problem) {
            Ok(()) => {},
            Err(error) => {
                return Err(error);
            },
        }
        match step {
            ConfigStep::Refuse(problem) => match self.config_refused(problem) {
                Ok(()) => Ok(ConfigNext::Done),
                Err(error) => Err(error),
            },
            ConfigStep::Reconfigure { runtime, config } => Ok(
                ConfigNext::Connect { runtime, config },
            ),
            ConfigStep::Deliver => Ok(ConfigNext::Deliver),
            _ => Ok(ConfigNext::Done),
        }
    }
}

} // verus!
