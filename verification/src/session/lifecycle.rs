//! How a session's runtime is configured, started, closed and released.

use vstd::prelude::*;

use super::actor::{live_of, live_table, LiveRuntime, SessionActor};
use super::agent::{active_work, has_active_work, AgentView};
use super::delivery::Live;
use crate::api::{
    AppProblem, CallRef, InputView, JobRef, RuntimeState, SessionEventView, SessionReleaseStatus,
    SessionRetentionReason, UnresolvedWriteView,
};
use crate::config::{ConfigProblem, RuntimeConfig};
use crate::document::{listing, lists, DocumentKey, KeyRange};
use crate::error::Error;
use crate::ids::{RuntimeId, SessionId, WorkspaceId};
use crate::persistence::inputs::input_number;
use crate::persistence::keys::input_key;
use crate::persistence::{
    DataStore, SavedRuntime, SavedRuntimeView, SavedSessionView, StoreView,
};
use crate::seqs::{lemma_sorted_was_there, lemma_take_all};

verus! {

/// What is to be done when the configuration of a session may have changed.
#[derive(Debug, PartialEq, Eq)]
pub enum ConfigStep {
    /// The agent is to be suspended, if there is one; then the inputs show the problem.
    Refuse(ConfigProblem),
    /// The agent is to be suspended, if there is one; then the error is reported.
    Fail(Error),
    /// The runtime is configured so already.
    Keep,
    /// The agent is to be suspended and to take the new configuration.
    Reconfigure { runtime: RuntimeId, config: RuntimeConfig },
    /// There is no runtime; the queued inputs are to be delivered.
    Deliver,
}

/// What is to be done to close a runtime.
#[derive(Clone, Copy, Debug, PartialEq, Eq, Structural)]
pub enum CloseStep {
    /// There is none; the session is to be recovered from its store.
    Recover,
    /// The agent is to be shut down.
    Shutdown { runtime: RuntimeId },
}

/// What is to be done to release a session.
#[derive(Clone, Copy, Debug, PartialEq, Eq, Structural)]
pub enum ReleaseStep {
    Done(SessionReleaseStatus),
    /// The runtime is to be closed first.
    Close,
}

/// A write that the agent left without a known effect, with its job.
#[derive(Clone, Copy, Debug, PartialEq, Eq, Structural)]
pub struct PendingWrite {
    pub call: u64,
    pub job: u64,
}

/// The store after writes got their jobs.
pub open spec fn with_jobs(
    store: StoreView,
    workspace: WorkspaceId,
    runtime: RuntimeId,
    writes: Seq<PendingWrite>,
) -> StoreView
    decreases writes.len(),
{
    if writes.len() == 0 {
        store
    } else {
        with_jobs(store, workspace, runtime, writes.drop_last()).with_job(
            workspace,
            CallRef { runtime, id: writes.last().call },
            JobRef { runtime, id: writes.last().job },
        )
    }
}

/// Whether this is how closing the runtime of a session starts: one that is being started is given
/// up, and an installed one is to be shut down.
pub open spec fn closes(before: SessionActor, after: SessionActor, step: CloseStep) -> bool {
    let given_up = before.start_given_up();
    match before.runtime {
        None => step == CloseStep::Recover && after == given_up,
        Some(runtime) => {
            &&& step == (CloseStep::Shutdown { runtime: runtime.id })
            &&& after == (SessionActor {
                runtime_state: RuntimeState::Closing { id: runtime.id },
                ..given_up
            })
        },
    }
}

/// Whether this is to be done when the configuration of a session may have changed to `resolved`.
/// Where the agent must not go on with the old one, the configuration blocks it from now on. A
/// runtime that is being started is given up, unless the configuration of a running one is at
/// stake.
pub open spec fn plans_config(
    before: SessionActor,
    resolved: Result<RuntimeConfig, Error>,
    force: bool,
    after: SessionActor,
    r: Result<ConfigStep, Error>,
) -> bool {
    let given_up = before.start_given_up();
    match resolved {
        Err(Error::Configuration(problem)) => {
            &&& r == Ok::<ConfigStep, Error>(ConfigStep::Refuse(problem))
            &&& after == (SessionActor { config_blocked: true, ..given_up })
        },
        Err(error) => {
            &&& r == Ok::<ConfigStep, Error>(ConfigStep::Fail(error))
            &&& after == (SessionActor { config_blocked: true, ..given_up })
        },
        Ok(config) => match before.runtime {
            Some(runtime) => match before.runtime_state {
                RuntimeState::Running { config: current, .. } => {
                    if current.agrees(config) && !before.config_blocked && !force {
                        &&& r == Ok::<ConfigStep, Error>(ConfigStep::Keep)
                        &&& after == before
                    } else {
                        &&& r == Ok::<ConfigStep, Error>(
                            ConfigStep::Reconfigure { runtime: runtime.id, config },
                        )
                        &&& after == (SessionActor { config_blocked: true, ..before })
                    }
                },
                _ => {
                    &&& r matches Err(error)
                    &&& error.is_invalid("running runtime has no config"@)
                    &&& after == before
                },
            },
            None => {
                &&& r == Ok::<ConfigStep, Error>(ConfigStep::Deliver)
                &&& after == (SessionActor { config_blocked: false, problem: None, ..given_up })
            },
        },
    }
}

/// Whether this is how a closed session is released.
pub open spec fn closes_with(
    unresolved: Seq<UnresolvedWriteView>,
    r: SessionReleaseStatus,
) -> bool {
    r == (if unresolved.len() == 0 {
        SessionReleaseStatus::Released
    } else {
        SessionReleaseStatus::Retained(SessionRetentionReason::UnresolvedWrites)
    })
}

/// The status of a session whose runtime was closed.
pub fn closed_status(unresolved: &Vec<UnresolvedWriteView>) -> (r: SessionReleaseStatus)
    ensures
        closes_with(unresolved@, r),
{
    if unresolved.len() == 0 {
        SessionReleaseStatus::Released
    } else {
        SessionReleaseStatus::Retained(SessionRetentionReason::UnresolvedWrites)
    }
}

/// Whether a new configuration of a runtime gives this session, this store and this answer.
pub open spec fn applies_reconfiguration(
    actor: SessionActor,
    stored: StoreView,
    runtime: RuntimeId,
    config: RuntimeConfig,
    now: i64,
    next: SessionActor,
    kept: StoreView,
    r: Result<(), Error>,
) -> bool {
    let session = actor.info.id;
    let before = stored;
    if !before.has_session(session) {
        &&& r matches Err(Error::Storage(message))
        &&& message@ == "session does not exist"@
        &&& kept == before
        &&& next == actor
    } else if before.session(session).runtime is None || before.session(
        session,
    ).runtime->0.id != runtime {
        &&& r matches Err(Error::Storage(message))
        &&& message@ == "runtime is not current"@
        &&& kept == before
        &&& next == actor
    } else {
        &&& r is Ok
        &&& kept == before.with_event(
            session,
            SavedSessionView {
                runtime: Some(SavedRuntimeView { id: runtime, config: config@ }),
                ..before.session(session)
            },
            SessionEventView::RuntimeReconfigured { runtime, config: config@ },
            now,
        )
        &&& next == (SessionActor {
            runtime_state: next.runtime_state,
            ..actor
        })
        &&& next.runtime_state matches RuntimeState::Running {
            id,
            config: running,
        }
        &&& id == runtime
        &&& running@ == config@
    }
}

/// Whether installing a runtime gives this session, this store and this answer.
pub open spec fn installs(
    actor: SessionActor,
    stored: StoreView,
    runtime: RuntimeId,
    config: RuntimeConfig,
    archive_from: u64,
    now: i64,
    next: SessionActor,
    kept: StoreView,
    r: Result<(), Error>,
) -> bool {
    let session = actor.info.id;
    let before = stored;
    if !before.has_session(session) {
        &&& r matches Err(Error::Storage(message))
        &&& message@ == "session does not exist"@
        &&& kept == before
        &&& next == (SessionActor {
            runtime_state: RuntimeState::Detached,
            ..actor
        })
    } else {
        &&& r is Ok
        &&& kept == before.with_event(
            session,
            SavedSessionView {
                runtime: Some(SavedRuntimeView { id: runtime, config: config@ }),
                agent_through: archive_from,
                ..before.session(session)
            },
            SessionEventView::RuntimeStarted { runtime, config: config@ },
            now,
        )
        &&& next == (SessionActor {
            runtime: Some(LiveRuntime { id: runtime, agent_through: archive_from }),
            runtime_state: next.runtime_state,
            ..actor
        })
        &&& next.runtime_state matches RuntimeState::Running {
            id,
            config: running,
        }
        &&& id == runtime
        &&& running@ == config@
    }
}

/// Whether closing a session without a runtime gives this session, this store and this answer.
pub open spec fn closes_recovered(
    actor: SessionActor,
    stored: StoreView,
    gate_free: bool,
    pending_commit: Option<String>,
    now: i64,
    next: SessionActor,
    kept: StoreView,
    r: Result<(), Error>,
) -> bool {
    if !gate_free {
        &&& r matches Err(error)
        &&& error.is_agent(
            match pending_commit {
                None => "startup durable commit is still pending; close is not confirmed"@,
                Some(commit) => "durable commit "@ + commit@
                    + " is still pending; close is not confirmed"@,
            },
        )
        &&& kept == stored
        &&& next == actor
    } else {
        recovers(
            stored,
            kept,
            actor.info.id,
            now,
            actor,
            next,
            r,
        )
    }
}

/// Whether the end of a runtime gives this session, this store and this answer.
pub open spec fn closes_finished(
    actor: SessionActor,
    stored: StoreView,
    runtime: RuntimeId,
    writes: Seq<PendingWrite>,
    now: i64,
    next: SessionActor,
    kept: StoreView,
    r: Result<(), Error>,
) -> bool {
    let session = actor.info.id;
    let noted = with_jobs(stored, actor.info.workspace, runtime, writes);
    if !noted.has_session(session) {
        &&& r matches Err(Error::Storage(message))
        &&& message@ == "session does not exist"@
        &&& kept == noted
        &&& next == actor
    } else {
        let saved = noted.session(session);
        &&& r is Ok
        &&& kept == noted.with_event(
            session,
            if saved.runtime is Some && saved.runtime->0.id == runtime {
                SavedSessionView { runtime: None, agent_through: 0, ..saved }
            } else {
                saved
            },
            SessionEventView::RuntimeClosed { runtime },
            now,
        )
        &&& next == actor.detached()
    }
}

/// Whether this says if a runtime may be started.
pub open spec fn may_begin(
    actor: SessionActor,
    gate_free: bool,
    r: Result<bool, Error>,
) -> bool {
    if actor.runtime is Some || actor.starting is Some {
        r == Ok::<bool, Error>(false)
    } else if gate_free {
        r == Ok::<bool, Error>(true)
    } else {
        r matches Err(error) && error.is_agent(
            "previous durable commit is still pending"@,
        )
    }
}

/// Whether beginning to start a runtime gives this session.
pub open spec fn begins_start(
    actor: SessionActor,
    runtime: RuntimeId,
    next: SessionActor,
) -> bool {
    next == (SessionActor {
        starting: Some(runtime),
        runtime_state: RuntimeState::Starting,
        problem: None,
        ..actor
    })
}

/// Whether a runtime that is ready gives this session and this answer.
pub open spec fn takes_ready(
    actor: SessionActor,
    runtime: RuntimeId,
    next: SessionActor,
    r: bool,
) -> bool {
    &&& r == (actor.starting == Some(runtime))
    &&& next == (if r {
        SessionActor { starting: None, ..actor }
    } else {
        actor
    })
}

/// Whether a refused configuration gives this session and this answer.
pub open spec fn refuses_config(
    actor: SessionActor,
    problem: ConfigProblem,
    next: SessionActor,
    r: Result<(), Error>,
) -> bool {
    if actor.runtime is Some {
        r == Err::<(), Error>(Error::Configuration(problem)) && next == actor
    } else {
        r is Ok && next == (SessionActor {
            problem: Some(AppProblem::Configuration(problem)),
            ..actor
        })
    }
}

/// Whether an applied configuration gives this session.
pub open spec fn applies_config(
    actor: SessionActor,
    next: SessionActor,
) -> bool {
    next == (SessionActor { config_blocked: false, problem: None, ..actor })
}

/// Whether a failed start gives this session and this answer.
pub open spec fn fails_start(
    actor: SessionActor,
    cause: Option<Error>,
    next: SessionActor,
    r: Error,
) -> bool {
    &&& next == (SessionActor {
        runtime_state: RuntimeState::Detached,
        ..actor
    })
    &&& match cause {
        Some(error) => r == error,
        None => r.is_agent("runtime startup was interrupted"@),
    }
}

impl SessionActor {
    /// This session without a runtime and without anything that blocks it.
    pub open spec fn detached(self) -> SessionActor {
        SessionActor {
            runtime: None,
            runtime_state: RuntimeState::Detached,
            config_blocked: false,
            execution_blocked: false,
            problem: None,
            ..self
        }
    }

    /// What is to be done when the configuration may have changed to `resolved`.
    pub fn plan_config(&mut self, resolved: Result<RuntimeConfig, Error>, force: bool) -> (r: Result<
        ConfigStep,
        Error,
    >)
        ensures
            plans_config(*old(self), resolved, force, *final(self), r),
    {
        let config = match resolved {
            Ok(config) => config,
            Err(error) => {
                let _ = self.cancel_start();
                self.config_blocked = true;
                return match error {
                    Error::Configuration(problem) => Ok(ConfigStep::Refuse(problem)),
                    error => Ok(ConfigStep::Fail(error)),
                };
            },
        };
        match self.runtime {
            Some(runtime) => {
                let same = match &self.runtime_state {
                    RuntimeState::Running { config: current, .. } => current.same(&config),
                    _ => {
                        return Err(Error::invalid("running runtime has no config"));
                    },
                };
                if same && !self.config_blocked && !force {
                    return Ok(ConfigStep::Keep);
                }
                self.config_blocked = true;
                Ok(ConfigStep::Reconfigure { runtime: runtime.id, config })
            },
            None => {
                let _ = self.cancel_start();
                self.config_blocked = false;
                self.problem = None;
                Ok(ConfigStep::Deliver)
            },
        }
    }

    /// Ends a configuration that was refused, after the queued inputs show the problem: a running
    /// runtime reports it, without one the session shows it.
    pub fn config_refused(&mut self, problem: ConfigProblem) -> (r: Result<(), Error>)
        ensures
            refuses_config(*old(self), problem, *final(self), r),
    {
        if self.runtime.is_some() {
            Err(Error::Configuration(problem))
        } else {
            self.problem = Some(AppProblem::Configuration(problem));
            Ok(())
        }
    }

    /// Notes that the agent has taken a new configuration.
    pub fn reconfigured(
        &mut self,
        store: &mut DataStore,
        runtime: RuntimeId,
        config: RuntimeConfig,
        now: i64,
    ) -> (r: Result<(), Error>)
        ensures
            applies_reconfiguration(*old(self), old(store)@, runtime, config, now, *final(self), final(store)@, r),
    {
        match store.reconfigure_runtime(self.info.id, runtime, config.copy(), now) {
            Ok(_) => {
                self.runtime_state = RuntimeState::Running { id: runtime, config: Box::new(config) };
                Ok(())
            },
            Err(error) => Err(error.into_error()),
        }
    }

    /// Notes that the agent goes on with its new configuration.
    pub fn config_applied(&mut self)
        ensures
            applies_config(*old(self), *final(self)),
    {
        self.config_blocked = false;
        self.problem = None;
    }

    /// Whether a runtime can be started: there is none, and none is being started. It cannot while
    /// a commit of the last one is not finished.
    pub fn may_start(&self, gate_free: bool) -> (r: Result<bool, Error>)
        ensures
            may_begin(*self, gate_free, r),
    {
        if self.runtime.is_some() || self.starting.is_some() {
            Ok(false)
        } else if gate_free {
            Ok(true)
        } else {
            Err(Error::agent("previous durable commit is still pending"))
        }
    }

    /// Notes that a runtime is being started.
    pub fn begin_start(&mut self, runtime: RuntimeId)
        ensures
            begins_start(*old(self), runtime, *final(self)),
    {
        self.starting = Some(runtime);
        self.runtime_state = RuntimeState::Starting;
        self.problem = None;
    }

    /// Takes a runtime that is ready, if it is the one that is being started.
    pub fn take_ready(&mut self, runtime: RuntimeId) -> (r: bool)
        ensures
            takes_ready(*old(self), runtime, *final(self), r),
    {
        match self.starting {
            Some(current) => {
                if current == runtime {
                    self.starting = None;
                    true
                } else {
                    false
                }
            },
            None => false,
        }
    }

    /// Notes that a start came to nothing, and gives the error to be noted with it: the cause, or
    /// that the start was interrupted.
    pub fn start_failed(&mut self, cause: Option<Error>) -> (r: Error)
        ensures
            fails_start(*old(self), cause, *final(self), r),
    {
        self.runtime_state = RuntimeState::Detached;
        match cause {
            Some(error) => error,
            None => Error::agent("runtime startup was interrupted"),
        }
    }

    /// Installs a runtime that is ready, from the position up to which its records are archived.
    pub fn install(
        &mut self,
        store: &mut DataStore,
        runtime: RuntimeId,
        config: RuntimeConfig,
        archive_from: u64,
        now: i64,
    ) -> (r: Result<(), Error>)
        ensures
            installs(*old(self), old(store)@, runtime, config, archive_from, now, *final(self), final(store)@, r),
    {
        let saved = SavedRuntime { id: runtime, config: config.copy() };
        match store.start_runtime(self.info.id, saved, archive_from, now) {
            Ok(_) => {
                self.runtime = Some(LiveRuntime { id: runtime, agent_through: archive_from });
                self.runtime_state = RuntimeState::Running { id: runtime, config: Box::new(config) };
                Ok(())
            },
            Err(error) => {
                self.runtime_state = RuntimeState::Detached;
                Err(error.into_error())
            },
        }
    }

    /// Starts to close the runtime: one that is being started is given up.
    pub fn begin_close(&mut self) -> (r: CloseStep)
        ensures
            closes(*old(self), *final(self), r),
    {
        let _ = self.cancel_start();
        match self.runtime {
            None => CloseStep::Recover,
            Some(runtime) => {
                self.runtime_state = RuntimeState::Closing { id: runtime.id };
                CloseStep::Shutdown { runtime: runtime.id }
            },
        }
    }

    /// Ends a close without a clean end of the agent: the session is recovered from its store,
    /// unless a commit is still being written.
    pub fn close_recovered(
        &mut self,
        store: &mut DataStore,
        gate_free: bool,
        pending_commit: Option<String>,
        now: i64,
    ) -> (r: Result<(), Error>)
        ensures
            closes_recovered(*old(self), old(store)@, gate_free, pending_commit, now, *final(self), final(store)@, r),
    {
        if !gate_free {
            return match pending_commit {
                None => Err(
                    Error::agent(
                        "startup durable commit is still pending; close is not confirmed",
                    ),
                ),
                Some(commit) => {
                    let mut message = "durable commit ".to_owned();
                    message.push_str(commit.as_str());
                    message.push_str(" is still pending; close is not confirmed");
                    Err(Error::Agent(message))
                },
            };
        }
        match store.recover_session(self.info.id, now) {
            Ok((_, inputs)) => {
                self.inputs = live_table(self.info.id, &inputs);
                self.detach();
                Ok(())
            },
            Err(error) => Err(error.into_error()),
        }
    }

    /// Takes away the runtime and everything that blocks this session.
    fn detach(&mut self)
        ensures
            *final(self) == old(self).detached(),
    {
        self.runtime = None;
        self.runtime_state = RuntimeState::Detached;
        self.config_blocked = false;
        self.execution_blocked = false;
        self.problem = None;
    }

    /// Ends a clean close, after the last records are archived: the writes that the agent left
    /// without a known effect get their jobs, and the runtime is gone.
    pub fn close_finished(
        &mut self,
        store: &mut DataStore,
        runtime: RuntimeId,
        writes: &Vec<PendingWrite>,
        now: i64,
    ) -> (r: Result<(), Error>)
        ensures
            closes_finished(*old(self), old(store)@, runtime, writes@, now, *final(self), final(store)@, r),
    {
        let ghost start = *self;
        let ghost workspace = self.info.workspace;
        let ghost before = store@;
        let mut i: usize = 0;
        while i < writes.len()
            invariant
                i <= writes@.len(),
                start == *self,
                workspace == start.info.workspace,
                store@ == with_jobs(before, workspace, runtime, writes@.take(i as int)),
            decreases writes@.len() - i,
        {
            proof {
                assert(writes@.take(i + 1).drop_last() =~= writes@.take(i as int));
                assert(writes@.take(i + 1).last() == writes@[i as int]);
            }
            store.attach_write_job(
                self.info.workspace,
                CallRef { runtime, id: writes[i].call },
                JobRef { runtime, id: writes[i].job },
            );
            i = i + 1;
        }
        proof {
            lemma_take_all(writes@);
        }
        match store.close_runtime(self.info.id, runtime, now) {
            Ok(_) => {
                self.detach();
                Ok(())
            },
            Err(error) => Err(error.into_error()),
        }
    }

    /// What keeps this session from being released before its agent is asked: a runtime that is
    /// being started or closed, or a commit that is being written.
    pub open spec fn barrier(self, gate_free: bool) -> Option<SessionRetentionReason> {
        if self.starting is Some || self.runtime_state is Starting {
            Some(SessionRetentionReason::Starting)
        } else if self.runtime_state is Closing {
            Some(SessionRetentionReason::ActiveWork)
        } else if !gate_free {
            Some(SessionRetentionReason::PersistenceInFlight)
        } else {
            None
        }
    }

    /// Whether this session is released, with what its agent shows.
    pub open spec fn release(self, store: StoreView, agent: Option<AgentView>) -> ReleaseStep {
        if self.runtime is Some && agent is Some && has_active_work(agent->0) {
            ReleaseStep::Done(SessionReleaseStatus::Retained(SessionRetentionReason::ActiveWork))
        } else if store.unresolved(self.info.workspace, Some(self.info.id)).len() > 0 {
            ReleaseStep::Done(
                SessionReleaseStatus::Retained(SessionRetentionReason::UnresolvedWrites),
            )
        } else if self.runtime is None {
            ReleaseStep::Done(SessionReleaseStatus::Released)
        } else {
            ReleaseStep::Close
        }
    }

    /// What keeps this session from being released before its agent is asked.
    pub fn release_barrier(&self, gate_free: bool) -> (r: Option<SessionRetentionReason>)
        ensures
            r == self.barrier(gate_free),
    {
        let (starts, closes) = match &self.runtime_state {
            RuntimeState::Starting => (true, false),
            RuntimeState::Closing { .. } => (false, true),
            _ => (false, false),
        };
        if self.starting.is_some() || starts {
            Some(SessionRetentionReason::Starting)
        } else if closes {
            Some(SessionRetentionReason::ActiveWork)
        } else if !gate_free {
            Some(SessionRetentionReason::PersistenceInFlight)
        } else {
            None
        }
    }

    /// Whether this session is released, with what its agent shows: not while the agent works or
    /// writes are not settled, and a runtime is closed first.
    pub fn release_step(&self, store: &DataStore, agent: Option<&AgentView>) -> (r: ReleaseStep)
        ensures
            r == self.release(
                store@,
                match agent {
                    Some(view) => Some(*view),
                    None => None,
                },
            ),
    {
        let works = match agent {
            Some(view) => self.runtime.is_some() && active_work(view),
            None => false,
        };
        if works {
            return ReleaseStep::Done(
                SessionReleaseStatus::Retained(SessionRetentionReason::ActiveWork),
            );
        }
        let unresolved = store.unresolved_writes(self.info.workspace, Some(self.info.id));
        if unresolved.len() > 0 {
            return ReleaseStep::Done(
                SessionReleaseStatus::Retained(SessionRetentionReason::UnresolvedWrites),
            );
        }
        if self.runtime.is_none() {
            ReleaseStep::Done(SessionReleaseStatus::Released)
        } else {
            ReleaseStep::Close
        }
    }
}

/// Whether a session was recovered from its store: it holds the inputs of the store that are not
/// done with, and has no runtime.
pub open spec fn recovers(
    before: StoreView,
    after: StoreView,
    session: SessionId,
    now: i64,
    old_actor: SessionActor,
    new_actor: SessionActor,
    answer: Result<(), Error>,
) -> bool {
    match before.recovery(session, now) {
        (store, Some(error)) => {
            &&& after == store
            &&& answer matches Err(shown)
            &&& error.becomes(shown)
            &&& new_actor == old_actor
        },
        (store, None) => {
            &&& after == store
            &&& answer is Ok
            &&& new_actor == (SessionActor { inputs: new_actor.inputs, ..old_actor.detached() })
            &&& new_actor.inputs@ == live_of(session, store.listed_inputs(session))
        },
    }
}

/// A session that is released at once has no runtime, starts none, and has no unsettled write.
pub proof fn law_released_session_has_nothing_pending(
    actor: SessionActor,
    store: StoreView,
    gate_free: bool,
    agent: Option<AgentView>,
)
    requires
        actor.barrier(gate_free) is None,
        actor.release(store, agent) == ReleaseStep::Done(SessionReleaseStatus::Released),
    ensures
        gate_free,
        actor.runtime is None,
        actor.starting is None,
        store.unresolved(actor.info.workspace, Some(actor.info.id)).len() == 0,
{
}

proof fn lemma_live_agrees(store: StoreView, session: SessionId, inputs: Seq<InputView>)
    requires
        forall|i: int| #![trigger inputs[i]]
            0 <= i < inputs.len() ==> store.inputs.dom().contains(
                input_key(session, inputs[i].id),
            ) && store.inputs[input_key(session, inputs[i].id)] == inputs[i],
    ensures
        (Live { store, inputs: live_of(session, inputs) }).agrees(session),
    decreases inputs.len(),
{
    if inputs.len() > 0 {
        let head = inputs.drop_last();
        assert forall|i: int| #![trigger head[i]] 0 <= i < head.len() implies store.inputs.dom().contains(
            input_key(session, head[i].id),
        ) && store.inputs[input_key(session, head[i].id)] == head[i] by {
            assert(head[i] == inputs[i]);
        }
        lemma_live_agrees(store, session, head);
        let live = live_of(session, inputs);
        let before = live_of(session, head);
        assert(store.inputs.dom().contains(input_key(session, inputs[inputs.len() - 1].id)));
        assert forall|key: DocumentKey| #[trigger] live.dom().contains(key) implies {
            &&& key == input_key(session, live[key].id)
            &&& store.inputs.dom().contains(key)
            &&& store.inputs[key] == live[key]
            &&& !live[key].state.is_terminal()
        } by {
            if before.dom().contains(key) {
            }
        }
    }
}

/// A session that is opened or recovered holds its inputs as the store has them.
pub proof fn law_opened_session_follows_its_store(store: StoreView, session: SessionId)
    requires
        store.inputs_under_their_numbers(),
        lists(
            listing(store.inputs.dom(), KeyRange::of(session.0)),
            store.inputs.dom(),
            KeyRange::of(session.0),
        ),
    ensures
        (Live { store, inputs: live_of(session, store.listed_inputs(session)) }).agrees(session),
{
    let keys = listing(store.inputs.dom(), KeyRange::of(session.0));
    let inputs = store.listed_inputs(session);
    assert forall|i: int| #![trigger inputs[i]] 0 <= i < inputs.len() implies store.inputs.dom().contains(
        input_key(session, inputs[i].id),
    ) && store.inputs[input_key(session, inputs[i].id)] == inputs[i] by {
        lemma_sorted_was_there(store.stored_inputs(session), input_number(), i);
        let at = choose|at: int| 0 <= at < keys.len() && store.stored_inputs(session)[at] == inputs[i];
        assert(keys.contains(keys[at]));
        assert(store.inputs.dom().contains(keys[at]));
    }
    lemma_live_agrees(store, session, inputs);
}

} // verus!
